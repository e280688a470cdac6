//! Fixed-size cryptographic header digests, the universal key into the block
//! store.

use vstd::prelude::*;

verus! {

/// Number of bytes in a block header digest.
pub const HASH_SIZE: usize = 32;

/// A fixed-size cryptographic digest identifying a block by its header.
///
/// The digest is immutable once built and is compared by byte value.
#[derive(Debug)]
pub struct HeaderHash {
    bytes: Vec<u8>,
}

impl View for HeaderHash {
    type V = Seq<u8>;

    closed spec fn view(&self) -> Seq<u8> {
        self.bytes@
    }
}

impl HeaderHash {
    /// A well-formed digest carries exactly `HASH_SIZE` bytes.
    pub open spec fn wf(&self) -> bool {
        self@.len() == HASH_SIZE
    }

    /// Builds a digest from exactly `HASH_SIZE` bytes.
    pub fn new(bytes: Vec<u8>) -> (r: HeaderHash)
        requires
            bytes@.len() == HASH_SIZE,
        ensures
            r@ == bytes@,
            r.wf(),
    {
        HeaderHash { bytes }
    }

    /// Builds a digest from a byte vector, rejecting any length other than
    /// `HASH_SIZE`.
    pub fn try_new(bytes: Vec<u8>) -> (r: Option<HeaderHash>)
        ensures
            bytes@.len() == HASH_SIZE ==> (r matches Some(h) && h@ == bytes@),
            bytes@.len() != HASH_SIZE ==> r is None,
    {
        if bytes.len() == HASH_SIZE {
            Some(HeaderHash { bytes })
        } else {
            None
        }
    }

    /// The digest's bytes.
    pub fn as_bytes(&self) -> (r: &Vec<u8>)
        ensures
            r@ == self@,
    {
        &self.bytes
    }

    /// Byte-for-byte comparison of two digests.
    pub fn eq_bytes(&self, other: &HeaderHash) -> (b: bool)
        ensures
            b == (self@ == other@),
    {
        if self.bytes.len() != other.bytes.len() {
            return false;
        }
        let n = self.bytes.len();
        let mut i: usize = 0;
        while i < n
            invariant
                n == self@.len(),
                n == other@.len(),
                i <= n,
                forall|j: int| 0 <= j < i ==> self@[j] == other@[j],
            decreases n - i,
        {
            if self.bytes[i] != other.bytes[i] {
                return false;
            }
            i = i + 1;
        }
        proof {
            assert(self@ =~= other@);
        }
        true
    }
}

impl Clone for HeaderHash {
    /// A cloned digest has the same bytes as the original.
    fn clone(&self) -> (r: Self)
        ensures
            r@ == self@,
    {
        let n = self.bytes.len();
        let mut out: Vec<u8> = Vec::new();
        let mut i: usize = 0;
        while i < n
            invariant
                n == self@.len(),
                i <= n,
                out@ =~= self@.subrange(0, i as int),
            decreases n - i,
        {
            out.push(self.bytes[i]);
            i = i + 1;
        }
        proof {
            assert(out@ =~= self@);
        }
        HeaderHash { bytes: out }
    }
}

} // verus!
