//! Proved laws of the chain verifier: how the outcome of a verification run
//! is determined by the shape of the stored chain.

use vstd::prelude::*;
use crate::block::SummaryView;
use crate::chain::{
    chain_walk, record_failure, verify_outcome, walk_result, FailureKind, OutcomeView,
};

verus! {

/// `chain` is a path the backward walk follows: each hash but the last is
/// stored, valid, keyed by its own hash, and linked to the next one. A
/// deterministic walk that ends cannot revisit a hash, so the path is
/// duplicate-free.
pub open spec fn well_linked_path(store: Map<Seq<u8>, SummaryView>, chain: Seq<Seq<u8>>) -> bool {
    &&& chain.len() >= 1
    &&& chain.no_duplicates()
    &&& forall|i: int|
        #![trigger store.dom().contains(chain[i])]
        0 <= i < chain.len() - 1 ==> store.dom().contains(chain[i]) && store[chain[i]]
            == (SummaryView::Decoded {
            valid: true,
            hash: chain[i],
            prev: Option::Some(chain[i + 1]),
        })
}

/// The hashes the walk has visited once it stands at position `k` of the
/// path.
pub open spec fn walked_set(chain: Seq<Seq<u8>>, k: int) -> Set<Seq<u8>> {
    Set::new(|x: Seq<u8>| exists|j: int| 0 <= j < k && chain[j] == x)
}

/// The walk follows a well-linked path step by step: standing at position `k`
/// with the positions before `k` visited, it ends as it ends at the path's
/// last position with everything before that visited.
proof fn lemma_walk_follows_path(
    store: Map<Seq<u8>, SummaryView>,
    genesis: Seq<u8>,
    chain: Seq<Seq<u8>>,
    k: int,
    tally: nat,
    first: Option<(FailureKind, Seq<u8>)>,
)
    requires
        store.dom().finite(),
        well_linked_path(store, chain),
        0 <= k < chain.len(),
        forall|i: int| 0 <= i < chain.len() - 1 ==> #[trigger] chain[i] != genesis,
    ensures
        chain_walk(store, genesis, chain[k], walked_set(chain, k), tally, first) == chain_walk(
            store,
            genesis,
            chain.last(),
            walked_set(chain, chain.len() - 1),
            tally,
            first,
        ),
    decreases chain.len() - k,
{
    if k < chain.len() - 1 {
        assert(store.dom().contains(chain[k]));
        assert(!walked_set(chain, k).contains(chain[k])) by {
            assert forall|j: int| 0 <= j < k implies chain[j] != chain[k] by {
                assert(chain[j] != chain[k]);
            }
        }
        assert(chain_walk(store, genesis, chain[k], walked_set(chain, k), tally, first)
            == chain_walk(
            store,
            genesis,
            chain[k + 1],
            walked_set(chain, k).insert(chain[k]),
            tally,
            first,
        ));
        assert(walked_set(chain, k).insert(chain[k]) =~= walked_set(chain, k + 1)) by {
            assert forall|x: Seq<u8>|
                walked_set(chain, k + 1).contains(x) implies walked_set(chain, k).insert(
                chain[k],
            ).contains(x) by {
                let j = choose|j: int| 0 <= j < k + 1 && chain[j] == x;
                if j < k {
                    assert(walked_set(chain, k).contains(x));
                }
            }
        }
        lemma_walk_follows_path(store, genesis, chain, k + 1, tally, first);
    }
}

/// The path's last hash is never among the hashes visited before it.
proof fn lemma_last_not_walked(chain: Seq<Seq<u8>>)
    requires
        chain.len() >= 1,
        chain.no_duplicates(),
    ensures
        !walked_set(chain, chain.len() - 1).contains(chain.last()),
{
    assert forall|j: int| 0 <= j < chain.len() - 1 implies chain[j] != chain.last() by {
        assert(chain[j] != chain[chain.len() - 1]);
    }
}

/// A ledger whose predecessor chain from the tip reaches the recorded genesis
/// anchor, with every block on the way stored, well-formed, valid, keyed by
/// its own hash and correctly linked, verifies successfully.
pub proof fn lemma_intact_chain_verifies(
    store: Map<Seq<u8>, SummaryView>,
    genesis: Seq<u8>,
    chain: Seq<Seq<u8>>,
)
    requires
        store.dom().finite(),
        store.dom().contains(genesis),
        well_linked_path(store, chain),
        chain.last() == genesis,
    ensures
        verify_outcome(store, genesis, chain[0]) == OutcomeView::Success,
{
    assert forall|i: int| 0 <= i < chain.len() - 1 implies #[trigger] chain[i] != genesis by {
        assert(chain[i] != chain[chain.len() - 1]);
    }
    assert(walked_set(chain, 0) =~= Set::<Seq<u8>>::empty());
    lemma_walk_follows_path(store, genesis, chain, 0, 0, Option::None);
    assert(chain_walk(
        store,
        genesis,
        genesis,
        walked_set(chain, chain.len() - 1),
        0,
        Option::None,
    ) == walk_result(0, Option::None));
}

/// A walk that reaches a block with a malformed encoding reports the ledger
/// as not valid, with an invalid-block count of one and the first failure
/// distinguished as malformed, at that block's hash.
pub proof fn lemma_malformed_block_detected(
    store: Map<Seq<u8>, SummaryView>,
    genesis: Seq<u8>,
    chain: Seq<Seq<u8>>,
)
    requires
        store.dom().finite(),
        store.dom().contains(genesis),
        well_linked_path(store, chain),
        forall|i: int| 0 <= i < chain.len() ==> #[trigger] chain[i] != genesis,
        store.dom().contains(chain.last()),
        store[chain.last()] == SummaryView::Malformed,
    ensures
        verify_outcome(store, genesis, chain[0]) == (OutcomeView::NotValid {
            invalid_count: 1,
            first_kind: FailureKind::MalformedBlock,
            first_at: chain.last(),
        }),
{
    assert(walked_set(chain, 0) =~= Set::<Seq<u8>>::empty());
    lemma_walk_follows_path(store, genesis, chain, 0, 0, Option::None);
    lemma_last_not_walked(chain);
    assert(chain_walk(
        store,
        genesis,
        chain.last(),
        walked_set(chain, chain.len() - 1),
        0,
        Option::None,
    ) == walk_result(1, record_failure(Option::None, FailureKind::MalformedBlock, chain.last())));
}

/// A walk whose path ends at a hash absent from the store reports the ledger
/// as not valid, with the linkage break counted and placed at the first
/// unresolvable hash.
pub proof fn lemma_dangling_link_detected(
    store: Map<Seq<u8>, SummaryView>,
    genesis: Seq<u8>,
    chain: Seq<Seq<u8>>,
)
    requires
        store.dom().finite(),
        store.dom().contains(genesis),
        well_linked_path(store, chain),
        forall|i: int| 0 <= i < chain.len() ==> #[trigger] chain[i] != genesis,
        !store.dom().contains(chain.last()),
    ensures
        verify_outcome(store, genesis, chain[0]) == (OutcomeView::NotValid {
            invalid_count: 1,
            first_kind: FailureKind::MissingBlock,
            first_at: chain.last(),
        }),
{
    assert(walked_set(chain, 0) =~= Set::<Seq<u8>>::empty());
    lemma_walk_follows_path(store, genesis, chain, 0, 0, Option::None);
    lemma_last_not_walked(chain);
    assert(chain_walk(
        store,
        genesis,
        chain.last(),
        walked_set(chain, chain.len() - 1),
        0,
        Option::None,
    ) == walk_result(1, record_failure(Option::None, FailureKind::MissingBlock, chain.last())));
}

/// A ledger whose recorded genesis hash has no stored block at all gets the
/// distinct missing-genesis outcome, never the invalid-count outcome.
pub proof fn lemma_missing_genesis_distinct(
    store: Map<Seq<u8>, SummaryView>,
    genesis: Seq<u8>,
    tip: Seq<u8>,
)
    requires
        !store.dom().contains(genesis),
    ensures
        verify_outcome(store, genesis, tip) == (OutcomeView::GenesisNotFound { genesis }),
{
}

/// A walk that reaches a root block whose hash differs from the recorded
/// genesis anchor reports a genesis mismatch carrying both the expected and
/// the actual hash, whatever the root block's own validity.
pub proof fn lemma_wrong_root_reported(
    store: Map<Seq<u8>, SummaryView>,
    genesis: Seq<u8>,
    chain: Seq<Seq<u8>>,
    root_valid: bool,
    root_hash: Seq<u8>,
)
    requires
        store.dom().finite(),
        store.dom().contains(genesis),
        well_linked_path(store, chain),
        forall|i: int| 0 <= i < chain.len() ==> #[trigger] chain[i] != genesis,
        store.dom().contains(chain.last()),
        store[chain.last()] == (SummaryView::Decoded {
            valid: root_valid,
            hash: root_hash,
            prev: Option::None,
        }),
    ensures
        verify_outcome(store, genesis, chain[0]) == (OutcomeView::GenesisMismatch {
            expected: genesis,
            found: chain.last(),
        }),
{
    assert(walked_set(chain, 0) =~= Set::<Seq<u8>>::empty());
    lemma_walk_follows_path(store, genesis, chain, 0, 0, Option::None);
    lemma_last_not_walked(chain);
    assert(chain_walk(
        store,
        genesis,
        chain.last(),
        walked_set(chain, chain.len() - 1),
        0,
        Option::None,
    ) == (OutcomeView::GenesisMismatch { expected: genesis, found: chain.last() }));
}

} // verus!
