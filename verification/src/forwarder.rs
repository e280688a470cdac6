//! The tip forwarder: advances a ledger's recorded tip to a block that
//! already exists in the store. Forwarding is a single existence probe, not a
//! chain walk; callers who need the chain between the old and the new tip
//! re-checked run the chain verifier afterwards.

use vstd::prelude::*;
use crate::error::Error;
use crate::hash::HeaderHash;
use crate::index::ChainIndex;
use crate::store::BlockStore;

verus! {

/// Moves the ledger's tip to `target` when the store holds a block under
/// that hash; otherwise fails and leaves the index untouched. The genesis
/// anchor never changes.
pub fn forward(store: &BlockStore, index: &mut ChainIndex, target: &HeaderHash) -> (r: Result<
    (),
    Error,
>)
    requires
        store.wf(),
    ensures
        store@.dom().contains(target@) ==> r is Ok && final(index)@.tip == target@
            && final(index)@.genesis == old(index)@.genesis,
        !store@.dom().contains(target@) ==> (r matches Err(Error::ForwardHashDoesNotExist(h))
            && h@ == target@) && final(index)@ == old(index)@,
{
    if store.contains(target) {
        index.advance_to(target.clone());
        Ok(())
    } else {
        Err(Error::ForwardHashDoesNotExist(target.clone()))
    }
}

} // verus!
