//! The block store consumed by the verifier and the forwarder: a durable
//! mapping from header hash to stored block, supporting point lookups and
//! existence checks. Blocks are written once by an external writer and are
//! immutable thereafter.

use vstd::prelude::*;
use vstd::seq_lib::*;
use vstd::set_lib::lemma_len_subset;
use crate::block::{BlockSummary, SummaryView};
use crate::error::Error;
use crate::hash::HeaderHash;

verus! {

/// True when some entry of `entries` is keyed by `k`.
pub open spec fn entries_have_key(entries: Seq<(HeaderHash, BlockSummary)>, k: Seq<u8>) -> bool {
    exists|i: int| 0 <= i < entries.len() && entries[i].0@ == k
}

/// The index of the entry keyed by `k`.
pub open spec fn entry_index(entries: Seq<(HeaderHash, BlockSummary)>, k: Seq<u8>) -> int {
    choose|i: int| 0 <= i < entries.len() && entries[i].0@ == k
}

/// Mapping from header hash to the stored block under that key.
pub struct BlockStore {
    entries: Vec<(HeaderHash, BlockSummary)>,
}

impl View for BlockStore {
    type V = Map<Seq<u8>, SummaryView>;

    closed spec fn view(&self) -> Map<Seq<u8>, SummaryView> {
        Map::new(
            |k: Seq<u8>| entries_have_key(self.entries@, k),
            |k: Seq<u8>| self.entries@[entry_index(self.entries@, k)].1@,
        )
    }
}

impl BlockStore {
    /// Every key appears at most once.
    pub closed spec fn wf(&self) -> bool {
        forall|i: int, j: int|
            0 <= i < j < self.entries@.len() ==> self.entries@[i].0@ != self.entries@[j].0@
    }

    /// Number of blocks held.
    pub closed spec fn spec_len(&self) -> nat {
        self.entries@.len()
    }

    /// An empty store.
    pub fn new() -> (r: BlockStore)
        ensures
            r.wf(),
            r@ == Map::<Seq<u8>, SummaryView>::empty(),
            r.spec_len() == 0,
    {
        let r = BlockStore { entries: Vec::new() };
        proof {
            assert(r@ =~= Map::<Seq<u8>, SummaryView>::empty());
        }
        r
    }

    /// Number of blocks held.
    pub fn len(&self) -> (n: usize)
        ensures
            n == self.spec_len(),
    {
        self.entries.len()
    }

    /// The store's key set is finite and no larger than the store itself.
    pub proof fn lemma_dom_finite(&self)
        ensures
            self@.dom().finite(),
            self@.dom().len() <= self.spec_len(),
    {
        let keys = self.entries@.map_values(|e: (HeaderHash, BlockSummary)| e.0@);
        assert(self@.dom() =~= keys.to_set()) by {
            assert forall|k: Seq<u8>| self@.dom().contains(k) implies keys.to_set().contains(k) by {
                let i = choose|i: int| 0 <= i < self.entries@.len() && self.entries@[i].0@ == k;
                assert(keys[i] == k);
            }
            assert forall|k: Seq<u8>| keys.to_set().contains(k) implies self@.dom().contains(k) by {
                let i = choose|i: int| 0 <= i < keys.len() && keys[i] == k;
                assert(self.entries@[i].0@ == k);
            }
        }
        keys.lemma_cardinality_of_set();
    }

    /// Point lookup of the block stored under `h`.
    pub fn lookup<'a>(&'a self, h: &HeaderHash) -> (r: Option<&'a BlockSummary>)
        requires
            self.wf(),
        ensures
            match r {
                Option::None => !self@.dom().contains(h@),
                Option::Some(b) => self@.dom().contains(h@) && b@ == self@[h@],
            },
    {
        let n = self.entries.len();
        let mut i: usize = 0;
        while i < n
            invariant
                self.wf(),
                n == self.entries@.len(),
                i <= n,
                forall|j: int| 0 <= j < i ==> self.entries@[j].0@ != h@,
            decreases n - i,
        {
            if self.entries[i].0.eq_bytes(h) {
                proof {
                    let w = entry_index(self.entries@, h@);
                    assert(0 <= w < self.entries@.len() && self.entries@[w].0@ == h@);
                    assert(w == i);
                }
                return Some(&self.entries[i].1);
            }
            i = i + 1;
        }
        None
    }

    /// Existence probe for the block stored under `h`.
    pub fn contains(&self, h: &HeaderHash) -> (b: bool)
        requires
            self.wf(),
        ensures
            b == self@.dom().contains(h@),
    {
        self.lookup(h).is_some()
    }

    /// Records a freshly written block under its key. Stored blocks are
    /// immutable, so the key must not be taken yet.
    pub fn put(&mut self, h: HeaderHash, b: BlockSummary)
        requires
            old(self).wf(),
            !old(self)@.dom().contains(h@),
        ensures
            final(self).wf(),
            final(self)@ == old(self)@.insert(h@, b@),
            final(self).spec_len() == old(self).spec_len() + 1,
    {
        proof {
            assert(forall|i: int|
                0 <= i < self.entries@.len() ==> self.entries@[i].0@ != h@);
        }
        let ghost old_entries = self.entries@;
        let ghost bv = b@;
        self.entries.push((h, b));
        proof {
            let entries = self.entries@;
            assert(entries == old_entries.push((h, b)));
            assert forall|k: Seq<u8>| #[trigger] self@.dom().contains(k) || old(self)@.insert(h@, bv).dom().contains(k) implies
                self@.dom().contains(k) == old(self)@.insert(h@, bv).dom().contains(k) by {
                if entries_have_key(entries, k) {
                    let i = choose|i: int| 0 <= i < entries.len() && entries[i].0@ == k;
                    if i < old_entries.len() {
                        assert(entries_have_key(old_entries, k));
                    } else {
                        assert(k == h@);
                    }
                }
                if entries_have_key(old_entries, k) {
                    let i = choose|i: int| 0 <= i < old_entries.len() && old_entries[i].0@ == k;
                    assert(entries[i].0@ == k);
                }
                if k == h@ {
                    assert(entries[old_entries.len() as int].0@ == k);
                }
            }
            assert(self@ =~= old(self)@.insert(h@, bv)) by {
                assert forall|k: Seq<u8>| #[trigger] self@.dom().contains(k) implies
                    self@[k] == old(self)@.insert(h@, bv)[k] by {
                    let i = entry_index(entries, k);
                    assert(0 <= i < entries.len() && entries[i].0@ == k);
                    if k == h@ {
                        assert(i == old_entries.len()) by {
                            assert(forall|j: int|
                                0 <= j < old_entries.len() ==> old_entries[j].0@ != h@);
                        }
                    } else {
                        assert(i < old_entries.len());
                        let w = entry_index(old_entries, k);
                        assert(entries_have_key(old_entries, k));
                        assert(0 <= w < old_entries.len() && old_entries[w].0@ == k);
                        assert(w == i);
                    }
                }
            }
        }
    }
}

/// Direct lookup of a stored block, with the store's error semantics: an
/// absent hash is distinct from a block that is present but cannot be read
/// back in decoded form.
pub fn get_block<'a>(store: &'a BlockStore, hash: &HeaderHash) -> (r: Result<&'a BlockSummary, Error>)
    requires
        store.wf(),
    ensures
        !store@.dom().contains(hash@) ==> (r matches Err(Error::GetBlockDoesNotExist(h)) && h@ == hash@),
        store@.dom().contains(hash@) && store@[hash@] is Malformed ==> (r matches Err(
            Error::GetInvalidBLock(h),
        ) && h@ == hash@),
        store@.dom().contains(hash@) && !(store@[hash@] is Malformed) ==> (r matches Ok(b)
            && b@ == store@[hash@]),
{
    match store.lookup(hash) {
        Option::None => Err(Error::GetBlockDoesNotExist(hash.clone())),
        Option::Some(b) => match b {
            BlockSummary::Malformed => Err(Error::GetInvalidBLock(hash.clone())),
            BlockSummary::Decoded { .. } => Ok(b),
        },
    }
}

} // verus!
