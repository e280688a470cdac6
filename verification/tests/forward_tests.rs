use chain_ledger::BlockStore;
use chain_ledger::BlockSummary;
use chain_ledger::ChainIndex;
use chain_ledger::Error;
use chain_ledger::HeaderHash;
use chain_ledger::forward;

fn h(b: u8) -> HeaderHash {
    HeaderHash::new(vec![b; 32])
}

fn good(of: u8, prev: Option<u8>) -> BlockSummary {
    BlockSummary::Decoded { valid: true, hash: h(of), prev: prev.map(h) }
}

#[test]
fn forward_to_absent_hash_fails_and_keeps_tip() {
    let mut store = BlockStore::new();
    store.put(h(0x11), good(0x11, None));
    let mut index = ChainIndex::new(h(0x11), h(0x11));
    match forward(&store, &mut index, &h(0x7a)) {
        Err(Error::ForwardHashDoesNotExist(missing)) => {
            assert_eq!(missing.as_bytes(), h(0x7a).as_bytes());
        }
        _ => panic!("expected the forward error"),
    }
    assert_eq!(index.tip().as_bytes(), h(0x11).as_bytes());
    assert_eq!(index.anchor().as_bytes(), h(0x11).as_bytes());
}

#[test]
fn forward_to_present_hash_moves_tip_exactly() {
    // The target exists but is not reachable from genesis: forwarding is
    // decoupled from verification and still moves the tip.
    let mut store = BlockStore::new();
    store.put(h(0x11), good(0x11, None));
    store.put(h(0x55), good(0x55, Some(0x44)));
    let mut index = ChainIndex::new(h(0x11), h(0x11));
    assert!(forward(&store, &mut index, &h(0x55)).is_ok());
    assert_eq!(index.tip().as_bytes(), h(0x55).as_bytes());
    assert_eq!(index.anchor().as_bytes(), h(0x11).as_bytes());
}

#[test]
fn forward_to_genesis_and_to_stranger() {
    // Forwarding to the stored genesis works; forwarding to an absent hash
    // fails and leaves the tip where it was.
    let mut store = BlockStore::new();
    store.put(h(0x11), good(0x11, None));
    store.put(h(0x22), good(0x22, Some(0x11)));
    let mut index = ChainIndex::new(h(0x11), h(0x22));
    assert!(forward(&store, &mut index, &h(0x11)).is_ok());
    assert_eq!(index.tip().as_bytes(), h(0x11).as_bytes());
    match forward(&store, &mut index, &h(0x7a)) {
        Err(Error::ForwardHashDoesNotExist(_)) => {}
        _ => panic!("expected the forward error"),
    }
    assert_eq!(index.tip().as_bytes(), h(0x11).as_bytes());
}
