//! The per-ledger chain index: the genesis anchor, fixed at ledger creation,
//! and the current tip, moved only by the tip forwarder.

use vstd::prelude::*;
use crate::hash::HeaderHash;

verus! {

/// Mathematical image of a `ChainIndex`.
pub struct ChainIndexView {
    pub genesis: Seq<u8>,
    pub tip: Seq<u8>,
}

/// Per-ledger record of the genesis anchor and the current tip.
///
/// The index itself performs no validation: the chain verifier checks that
/// the tip is reachable from the anchor, and the tip forwarder checks that a
/// new tip exists in the store before moving it.
pub struct ChainIndex {
    genesis_hash: HeaderHash,
    tip_hash: HeaderHash,
}

impl View for ChainIndex {
    type V = ChainIndexView;

    closed spec fn view(&self) -> ChainIndexView {
        ChainIndexView { genesis: self.genesis_hash@, tip: self.tip_hash@ }
    }
}

impl ChainIndex {
    /// Creates the index of a freshly initialised ledger.
    pub fn new(genesis_hash: HeaderHash, tip_hash: HeaderHash) -> (r: ChainIndex)
        ensures
            r@.genesis == genesis_hash@,
            r@.tip == tip_hash@,
    {
        ChainIndex { genesis_hash, tip_hash }
    }

    /// The genesis hash this ledger must be anchored to.
    pub fn anchor(&self) -> (r: &HeaderHash)
        ensures
            r@ == self@.genesis,
    {
        &self.genesis_hash
    }

    /// The most recently accepted block hash of this ledger.
    pub fn tip(&self) -> (r: &HeaderHash)
        ensures
            r@ == self@.tip,
    {
        &self.tip_hash
    }

    /// Moves the tip; the genesis anchor never changes.
    pub fn advance_to(&mut self, new_tip: HeaderHash)
        ensures
            final(self)@.tip == new_tip@,
            final(self)@.genesis == old(self)@.genesis,
    {
        self.tip_hash = new_tip;
    }
}

} // verus!
