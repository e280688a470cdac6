use chain_ledger::BlockStore;
use chain_ledger::BlockSummary;
use chain_ledger::ChainIndex;
use chain_ledger::FailureKind;
use chain_ledger::HeaderHash;
use chain_ledger::VerificationOutcome;
use chain_ledger::verify;

fn h(b: u8) -> HeaderHash {
    HeaderHash::new(vec![b; 32])
}

fn good(of: u8, prev: Option<u8>) -> BlockSummary {
    BlockSummary::Decoded { valid: true, hash: h(of), prev: prev.map(h) }
}

#[test]
fn intact_two_block_chain_verifies() {
    // Genesis G, block A with prev = G, tip = A: success, nothing invalid.
    let mut store = BlockStore::new();
    store.put(h(0x11), good(0x11, None));
    store.put(h(0x22), good(0x22, Some(0x11)));
    let index = ChainIndex::new(h(0x11), h(0x22));
    match verify(&store, &index) {
        VerificationOutcome::Success => {}
        _ => panic!("expected success"),
    }
}

#[test]
fn tip_at_genesis_verifies() {
    let mut store = BlockStore::new();
    store.put(h(0x11), good(0x11, None));
    let index = ChainIndex::new(h(0x11), h(0x11));
    match verify(&store, &index) {
        VerificationOutcome::Success => {}
        _ => panic!("expected success"),
    }
}

#[test]
fn malformed_block_counts_as_malformed() {
    // Same chain, but A's stored bytes no longer decode: one invalid block,
    // distinguished as malformed, at A.
    let mut store = BlockStore::new();
    store.put(h(0x11), good(0x11, None));
    store.put(h(0x22), BlockSummary::Malformed);
    let index = ChainIndex::new(h(0x11), h(0x22));
    match verify(&store, &index) {
        VerificationOutcome::NotValid { invalid_count, first_kind, first_at } => {
            assert_eq!(invalid_count, 1);
            assert_eq!(first_kind, FailureKind::MalformedBlock);
            assert_eq!(first_at.as_bytes(), h(0x22).as_bytes());
        }
        _ => panic!("expected not-valid"),
    }
}

#[test]
fn dangling_tip_counts_as_missing() {
    // Tip set to a hash absent from the store: linkage break at the first
    // unresolvable hash.
    let mut store = BlockStore::new();
    store.put(h(0x11), good(0x11, None));
    let index = ChainIndex::new(h(0x11), h(0x7a));
    match verify(&store, &index) {
        VerificationOutcome::NotValid { invalid_count, first_kind, first_at } => {
            assert_eq!(invalid_count, 1);
            assert_eq!(first_kind, FailureKind::MissingBlock);
            assert_eq!(first_at.as_bytes(), h(0x7a).as_bytes());
        }
        _ => panic!("expected not-valid"),
    }
}

#[test]
fn dangling_predecessor_counts_all_failures() {
    // A valid tip pointing at a missing predecessor: the walk accumulates the
    // break where the link cannot be resolved.
    let mut store = BlockStore::new();
    store.put(h(0x11), good(0x11, None));
    store.put(h(0x22), good(0x22, Some(0x33)));
    let index = ChainIndex::new(h(0x11), h(0x22));
    match verify(&store, &index) {
        VerificationOutcome::NotValid { invalid_count, first_kind, first_at } => {
            assert_eq!(invalid_count, 1);
            assert_eq!(first_kind, FailureKind::MissingBlock);
            assert_eq!(first_at.as_bytes(), h(0x33).as_bytes());
        }
        _ => panic!("expected not-valid"),
    }
}

#[test]
fn missing_genesis_is_its_own_outcome() {
    // The recorded genesis hash has no stored block at all: the distinct
    // missing-genesis outcome, not an invalid count.
    let mut store = BlockStore::new();
    store.put(h(0x22), good(0x22, Some(0x11)));
    let index = ChainIndex::new(h(0x11), h(0x22));
    match verify(&store, &index) {
        VerificationOutcome::GenesisNotFound { genesis } => {
            assert_eq!(genesis.as_bytes(), h(0x11).as_bytes());
        }
        _ => panic!("expected genesis-not-found"),
    }
}

#[test]
fn wrong_root_is_genesis_mismatch() {
    // The walk reaches a root block other than the recorded anchor: both the
    // expected and the actual hash are reported.
    let mut store = BlockStore::new();
    store.put(h(0x11), good(0x11, None));
    store.put(h(0x33), good(0x33, None));
    store.put(h(0x22), good(0x22, Some(0x33)));
    let index = ChainIndex::new(h(0x11), h(0x22));
    match verify(&store, &index) {
        VerificationOutcome::GenesisMismatch { expected, found } => {
            assert_eq!(expected.as_bytes(), h(0x11).as_bytes());
            assert_eq!(found.as_bytes(), h(0x33).as_bytes());
        }
        _ => panic!("expected genesis mismatch"),
    }
}

#[test]
fn invalid_block_is_counted_and_walk_continues() {
    // A block that decodes but fails validation is counted; the walk still
    // follows its predecessor link to the anchor.
    let mut store = BlockStore::new();
    store.put(h(0x11), good(0x11, None));
    store.put(
        h(0x22),
        BlockSummary::Decoded { valid: false, hash: h(0x22), prev: Some(h(0x11)) },
    );
    let index = ChainIndex::new(h(0x11), h(0x22));
    match verify(&store, &index) {
        VerificationOutcome::NotValid { invalid_count, first_kind, first_at } => {
            assert_eq!(invalid_count, 1);
            assert_eq!(first_kind, FailureKind::InvalidBlock);
            assert_eq!(first_at.as_bytes(), h(0x22).as_bytes());
        }
        _ => panic!("expected not-valid"),
    }
}

#[test]
fn mislabelled_block_is_counted() {
    // A block stored under a key other than its own hash is counted as a
    // mismatch; the walk continues through its link.
    let mut store = BlockStore::new();
    store.put(h(0x11), good(0x11, None));
    store.put(
        h(0x22),
        BlockSummary::Decoded { valid: true, hash: h(0x44), prev: Some(h(0x11)) },
    );
    let index = ChainIndex::new(h(0x11), h(0x22));
    match verify(&store, &index) {
        VerificationOutcome::NotValid { invalid_count, first_kind, first_at } => {
            assert_eq!(invalid_count, 1);
            assert_eq!(first_kind, FailureKind::MismatchedHash);
            assert_eq!(first_at.as_bytes(), h(0x22).as_bytes());
        }
        _ => panic!("expected not-valid"),
    }
}

#[test]
fn cyclic_links_terminate_as_repeated_hash() {
    // Two blocks referencing each other: the walk stops at the first repeated
    // hash instead of looping.
    let mut store = BlockStore::new();
    store.put(h(0x11), good(0x11, None));
    store.put(h(0x22), good(0x22, Some(0x33)));
    store.put(h(0x33), good(0x33, Some(0x22)));
    let index = ChainIndex::new(h(0x11), h(0x22));
    match verify(&store, &index) {
        VerificationOutcome::NotValid { invalid_count, first_kind, first_at } => {
            assert_eq!(invalid_count, 1);
            assert_eq!(first_kind, FailureKind::RepeatedHash);
            assert_eq!(first_at.as_bytes(), h(0x22).as_bytes());
        }
        _ => panic!("expected not-valid"),
    }
}

#[test]
fn earlier_failure_is_reported_first() {
    // An invalid block near the tip followed by a malformed block deeper in:
    // both are counted, the first failure wins the report.
    let mut store = BlockStore::new();
    store.put(h(0x11), good(0x11, None));
    store.put(h(0x33), BlockSummary::Malformed);
    store.put(
        h(0x22),
        BlockSummary::Decoded { valid: false, hash: h(0x22), prev: Some(h(0x33)) },
    );
    let index = ChainIndex::new(h(0x11), h(0x22));
    match verify(&store, &index) {
        VerificationOutcome::NotValid { invalid_count, first_kind, first_at } => {
            assert_eq!(invalid_count, 2);
            assert_eq!(first_kind, FailureKind::InvalidBlock);
            assert_eq!(first_at.as_bytes(), h(0x22).as_bytes());
        }
        _ => panic!("expected not-valid"),
    }
}

#[test]
fn outcome_maps_to_error_taxonomy() {
    let mut store = BlockStore::new();
    store.put(h(0x11), good(0x11, None));
    let ok = ChainIndex::new(h(0x11), h(0x11));
    assert!(verify(&store, &ok).to_error().is_none());
    let bad = ChainIndex::new(h(0x11), h(0x7a));
    match verify(&store, &bad).to_error() {
        Some(chain_ledger::Error::BlockchainIsNotValid(n)) => assert_eq!(n, 1),
        _ => panic!("expected the invalid-ledger error"),
    }
}
