//! The chain verifier: a backward walk from a ledger's tip along predecessor
//! links, checking per-block validity and hash linkage, anchored to the
//! ledger's recorded genesis hash.

use vstd::prelude::*;
use vstd::set_lib::lemma_len_subset;
use crate::block::{BlockSummary, SummaryView};
use crate::hash::HeaderHash;
use crate::index::ChainIndex;
use crate::store::BlockStore;

verus! {

/// Why a visited block counted as invalid.
#[derive(Clone, Copy, PartialEq, Eq, Structural, Debug)]
pub enum FailureKind {
    /// A predecessor link points at a hash absent from the store.
    MissingBlock,
    /// The stored bytes cannot be decoded.
    MalformedBlock,
    /// The block decoded but failed structural or cryptographic validation.
    InvalidBlock,
    /// The decoded block's own hash differs from the key it is stored under.
    MismatchedHash,
    /// The walk reached a hash it had already visited: cyclic corruption.
    RepeatedHash,
}

/// Result of one verification run over a ledger.
pub enum VerificationOutcome {
    /// The walk reached the genesis anchor with no invalid block.
    Success,
    /// The recorded genesis hash has no stored block at all.
    GenesisNotFound { genesis: HeaderHash },
    /// The walk reached a root block other than the recorded anchor: the
    /// ledger is anchored to the wrong history.
    GenesisMismatch { expected: HeaderHash, found: HeaderHash },
    /// The ledger is not valid: how many blocks counted as invalid, and the
    /// kind and position of the first failure.
    NotValid { invalid_count: usize, first_kind: FailureKind, first_at: HeaderHash },
}

/// Mathematical image of a `VerificationOutcome`.
pub enum OutcomeView {
    Success,
    GenesisNotFound { genesis: Seq<u8> },
    GenesisMismatch { expected: Seq<u8>, found: Seq<u8> },
    NotValid { invalid_count: nat, first_kind: FailureKind, first_at: Seq<u8> },
}

impl View for VerificationOutcome {
    type V = OutcomeView;

    open spec fn view(&self) -> OutcomeView {
        match self {
            VerificationOutcome::Success => OutcomeView::Success,
            VerificationOutcome::GenesisNotFound { genesis } => OutcomeView::GenesisNotFound {
                genesis: genesis@,
            },
            VerificationOutcome::GenesisMismatch { expected, found } => OutcomeView::GenesisMismatch {
                expected: expected@,
                found: found@,
            },
            VerificationOutcome::NotValid { invalid_count, first_kind, first_at } => OutcomeView::NotValid {
                invalid_count: *invalid_count as nat,
                first_kind: *first_kind,
                first_at: first_at@,
            },
        }
    }
}

impl VerificationOutcome {
    /// Maps the outcome to the error taxonomy: success maps to no error, the
    /// two genesis conditions to their distinct chain-level errors, and an
    /// invalid ledger to the summary error carrying the invalid-block count.
    pub fn to_error(self) -> (r: Option<crate::error::Error>)
        ensures
            match self@ {
                OutcomeView::Success => r is None,
                OutcomeView::GenesisNotFound { genesis } => r matches Some(
                    crate::error::Error::VerifyChainGenesisHashNotFound(h),
                ) && h@ == genesis,
                OutcomeView::GenesisMismatch { expected, found } => r matches Some(
                    crate::error::Error::VerifyChainInvalidGenesisPrevHash(e, f),
                ) && e@ == expected && f@ == found,
                OutcomeView::NotValid { invalid_count, .. } => r matches Some(
                    crate::error::Error::BlockchainIsNotValid(n),
                ) && n == invalid_count,
            },
    {
        match self {
            VerificationOutcome::Success => Option::None,
            VerificationOutcome::GenesisNotFound { genesis } => Option::Some(
                crate::error::Error::VerifyChainGenesisHashNotFound(genesis),
            ),
            VerificationOutcome::GenesisMismatch { expected, found } => Option::Some(
                crate::error::Error::VerifyChainInvalidGenesisPrevHash(expected, found),
            ),
            VerificationOutcome::NotValid { invalid_count, .. } => Option::Some(
                crate::error::Error::BlockchainIsNotValid(invalid_count),
            ),
        }
    }
}

/// Keeps the earliest recorded failure, or records this one if none is held.
pub open spec fn record_failure(
    first: Option<(FailureKind, Seq<u8>)>,
    kind: FailureKind,
    at: Seq<u8>,
) -> Option<(FailureKind, Seq<u8>)> {
    if first is Some {
        first
    } else {
        Option::Some((kind, at))
    }
}

/// The outcome once the walk has ended: success when nothing counted as
/// invalid, otherwise the tally together with the first failure.
pub open spec fn walk_result(tally: nat, first: Option<(FailureKind, Seq<u8>)>) -> OutcomeView {
    if tally == 0 {
        OutcomeView::Success
    } else {
        OutcomeView::NotValid {
            invalid_count: tally,
            first_kind: first.unwrap().0,
            first_at: first.unwrap().1,
        }
    }
}

/// One backward walk step at `cursor`, carrying the hashes already visited,
/// the invalid-block tally and the first recorded failure.
///
/// Reaching the genesis anchor ends the walk; a repeated hash, a hash absent
/// from the store and a malformed block end it too, since no predecessor link
/// can be read there. A block that decodes keeps the walk going through its
/// predecessor link, counting it invalid if validation failed or if it is
/// stored under a key other than its own hash; a root block other than the
/// anchor means the ledger belongs to a different history altogether.
pub open spec fn chain_walk(
    store: Map<Seq<u8>, SummaryView>,
    genesis: Seq<u8>,
    cursor: Seq<u8>,
    seen: Set<Seq<u8>>,
    tally: nat,
    first: Option<(FailureKind, Seq<u8>)>,
) -> OutcomeView
    decreases store.dom().difference(seen).len()
        when store.dom().finite()
        via chain_walk_decreases
{
    if cursor == genesis {
        walk_result(tally, first)
    } else if seen.contains(cursor) {
        walk_result(tally + 1, record_failure(first, FailureKind::RepeatedHash, cursor))
    } else if !store.dom().contains(cursor) {
        walk_result(tally + 1, record_failure(first, FailureKind::MissingBlock, cursor))
    } else {
        match store[cursor] {
            SummaryView::Malformed => walk_result(
                tally + 1,
                record_failure(first, FailureKind::MalformedBlock, cursor),
            ),
            SummaryView::Decoded { valid, hash, prev } => {
                let next_tally = if !valid || hash != cursor {
                    tally + 1
                } else {
                    tally
                };
                let next_first = if !valid {
                    record_failure(first, FailureKind::InvalidBlock, cursor)
                } else if hash != cursor {
                    record_failure(first, FailureKind::MismatchedHash, cursor)
                } else {
                    first
                };
                match prev {
                    Option::None => OutcomeView::GenesisMismatch { expected: genesis, found: cursor },
                    Option::Some(p) => chain_walk(
                        store,
                        genesis,
                        p,
                        seen.insert(cursor),
                        next_tally,
                        next_first,
                    ),
                }
            },
        }
    }
}

#[via_fn]
proof fn chain_walk_decreases(
    store: Map<Seq<u8>, SummaryView>,
    genesis: Seq<u8>,
    cursor: Seq<u8>,
    seen: Set<Seq<u8>>,
    tally: nat,
    first: Option<(FailureKind, Seq<u8>)>,
) {
    if cursor != genesis && !seen.contains(cursor) && store.dom().contains(cursor) {
        store.dom().lemma_set_insert_diff_decreases(seen, cursor);
    }
}

/// What verification of a ledger reports: the distinct missing-genesis
/// outcome when the recorded anchor has no stored block at all, otherwise the
/// backward walk from the tip.
pub open spec fn verify_outcome(
    store: Map<Seq<u8>, SummaryView>,
    genesis: Seq<u8>,
    tip: Seq<u8>,
) -> OutcomeView {
    if !store.dom().contains(genesis) {
        OutcomeView::GenesisNotFound { genesis }
    } else {
        chain_walk(store, genesis, tip, Set::empty(), 0, Option::None)
    }
}

/// Mathematical image of the first recorded failure.
spec fn fail_view(f: Option<(FailureKind, HeaderHash)>) -> Option<(FailureKind, Seq<u8>)> {
    match f {
        Option::None => Option::None,
        Option::Some((k, h)) => Option::Some((k, h@)),
    }
}

/// Whether one of the visited hashes has these bytes.
fn visited_contains(visited: &Vec<HeaderHash>, h: &HeaderHash) -> (b: bool)
    ensures
        b == exists|j: int| 0 <= j < visited@.len() && (#[trigger] visited@[j])@ == h@,
{
    let n = visited.len();
    let mut i: usize = 0;
    while i < n
        invariant
            n == visited@.len(),
            i <= n,
            forall|j: int| 0 <= j < i ==> (#[trigger] visited@[j])@ != h@,
        decreases n - i,
    {
        if visited[i].eq_bytes(h) {
            return true;
        }
        i = i + 1;
    }
    false
}

/// Walks the ledger backward from its recorded tip to its genesis anchor,
/// validating every visited block and every predecessor link on the way.
pub fn verify(store: &BlockStore, index: &ChainIndex) -> (r: VerificationOutcome)
    requires
        store.wf(),
        store.spec_len() < usize::MAX,
    ensures
        r@ == verify_outcome(store@, index@.genesis, index@.tip),
{
    proof {
        store.lemma_dom_finite();
    }
    let genesis = index.anchor();
    if !store.contains(genesis) {
        return VerificationOutcome::GenesisNotFound { genesis: genesis.clone() };
    }
    let mut cursor: HeaderHash = index.tip().clone();
    let mut visited: Vec<HeaderHash> = Vec::new();
    let mut tally: usize = 0;
    let mut first: Option<(FailureKind, HeaderHash)> = Option::None;
    let ghost mut seen: Set<Seq<u8>> = Set::empty();
    loop
        invariant
            store.wf(),
            store.spec_len() < usize::MAX,
            store@.dom().finite(),
            store@.dom().len() <= store.spec_len(),
            genesis@ == index@.genesis,
            store@.dom().contains(genesis@),
            seen.finite(),
            seen.len() == visited@.len(),
            forall|x: Seq<u8>| seen.contains(x) ==> store@.dom().contains(x),
            forall|j: int| 0 <= j < visited@.len() ==> seen.contains((#[trigger] visited@[j])@),
            forall|x: Seq<u8>| #[trigger] seen.contains(x) ==> exists|j: int|
                0 <= j < visited@.len() && (#[trigger] visited@[j])@ == x,
            tally <= seen.len(),
            (tally == 0) <==> (first is None),
            chain_walk(store@, genesis@, cursor@, seen, tally as nat, fail_view(first))
                == chain_walk(store@, genesis@, index@.tip, Set::empty(), 0, Option::None),
        decreases store@.dom().len() - seen.len(),
    {
        proof {
            lemma_len_subset(seen, store@.dom());
        }
        let ghost pre_cursor = cursor@;
        let ghost pre_seen = seen;
        let ghost pre_tally = tally as nat;
        let ghost pre_first = fail_view(first);
        if cursor.eq_bytes(genesis) {
            proof {
                assert(chain_walk(store@, genesis@, pre_cursor, pre_seen, pre_tally, pre_first)
                    == walk_result(pre_tally, pre_first));
            }
            if tally == 0 {
                return VerificationOutcome::Success;
            }
            let (k, a) = match first {
                Option::Some(p) => p,
                Option::None => vstd::pervasive::unreached(),
            };
            return VerificationOutcome::NotValid {
                invalid_count: tally,
                first_kind: k,
                first_at: a,
            };
        }
        if visited_contains(&visited, &cursor) {
            proof {
                assert(seen.contains(pre_cursor));
                assert(chain_walk(store@, genesis@, pre_cursor, pre_seen, pre_tally, pre_first)
                    == walk_result(
                    pre_tally + 1,
                    record_failure(pre_first, FailureKind::RepeatedHash, pre_cursor),
                ));
            }
            let (k, a) = match first {
                Option::Some(p) => p,
                Option::None => (FailureKind::RepeatedHash, cursor),
            };
            return VerificationOutcome::NotValid {
                invalid_count: tally + 1,
                first_kind: k,
                first_at: a,
            };
        }
        proof {
            assert(!seen.contains(pre_cursor));
        }
        match store.lookup(&cursor) {
            Option::None => {
                proof {
                    assert(chain_walk(store@, genesis@, pre_cursor, pre_seen, pre_tally, pre_first)
                        == walk_result(
                        pre_tally + 1,
                        record_failure(pre_first, FailureKind::MissingBlock, pre_cursor),
                    ));
                }
                let (k, a) = match first {
                    Option::Some(p) => p,
                    Option::None => (FailureKind::MissingBlock, cursor),
                };
                return VerificationOutcome::NotValid {
                    invalid_count: tally + 1,
                    first_kind: k,
                    first_at: a,
                };
            },
            Option::Some(summary) => match summary {
                BlockSummary::Malformed => {
                    proof {
                        assert(store@[pre_cursor] == SummaryView::Malformed);
                        assert(chain_walk(
                            store@,
                            genesis@,
                            pre_cursor,
                            pre_seen,
                            pre_tally,
                            pre_first,
                        ) == walk_result(
                            pre_tally + 1,
                            record_failure(pre_first, FailureKind::MalformedBlock, pre_cursor),
                        ));
                    }
                    let (k, a) = match first {
                        Option::Some(p) => p,
                        Option::None => (FailureKind::MalformedBlock, cursor),
                    };
                    return VerificationOutcome::NotValid {
                        invalid_count: tally + 1,
                        first_kind: k,
                        first_at: a,
                    };
                },
                BlockSummary::Decoded { valid, hash, prev } => {
                    proof {
                        assert(store@[pre_cursor] == SummaryView::Decoded {
                            valid: *valid,
                            hash: hash@,
                            prev: crate::block::link_view(*prev),
                        });
                    }
                    let good_key = hash.eq_bytes(&cursor);
                    if !*valid {
                        if first.is_none() {
                            first = Option::Some((FailureKind::InvalidBlock, cursor.clone()));
                        }
                        tally = tally + 1;
                    } else if !good_key {
                        if first.is_none() {
                            first = Option::Some((FailureKind::MismatchedHash, cursor.clone()));
                        }
                        tally = tally + 1;
                    }
                    match prev {
                        Option::None => {
                            proof {
                                assert(chain_walk(
                                    store@,
                                    genesis@,
                                    pre_cursor,
                                    pre_seen,
                                    pre_tally,
                                    pre_first,
                                ) == OutcomeView::GenesisMismatch {
                                    expected: genesis@,
                                    found: pre_cursor,
                                });
                            }
                            return VerificationOutcome::GenesisMismatch {
                                expected: genesis.clone(),
                                found: cursor,
                            };
                        },
                        Option::Some(p) => {
                            let next = p.clone();
                            let ghost pre_visited = visited@;
                            proof {
                                seen = seen.insert(cursor@);
                                assert(seen.len() == pre_seen.len() + 1);
                                lemma_len_subset(seen, store@.dom());
                            }
                            visited.push(cursor);
                            cursor = next;
                            proof {
                                assert forall|x: Seq<u8>| #[trigger] seen.contains(x) implies
                                    exists|j: int|
                                        0 <= j < visited@.len() && (#[trigger] visited@[j])@ == x by {
                                    if pre_seen.contains(x) {
                                        let j = choose|j: int|
                                            0 <= j < pre_visited.len() && (#[trigger] pre_visited[j])@
                                                == x;
                                        assert((visited@[j])@ == x);
                                    } else {
                                        assert((visited@[pre_visited.len() as int])@ == x);
                                    }
                                }
                            }
                            proof {
                                assert(chain_walk(
                                    store@,
                                    genesis@,
                                    pre_cursor,
                                    pre_seen,
                                    pre_tally,
                                    pre_first,
                                ) == chain_walk(
                                    store@,
                                    genesis@,
                                    cursor@,
                                    seen,
                                    tally as nat,
                                    fail_view(first),
                                ));
                            }
                        },
                    }
                },
            },
        }
    }
}

} // verus!
