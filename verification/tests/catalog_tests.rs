use chain_ledger::Error;
use chain_ledger::LedgerName;
use chain_ledger::list_ledgers;
use chain_ledger::valid_name;

#[test]
fn naming_rules() {
    assert!(valid_name("mainnet"));
    assert!(valid_name("test-net_1"));
    assert!(valid_name("a"));
    assert!(valid_name("..."));
    assert!(!valid_name(""));
    assert!(!valid_name("."));
    assert!(!valid_name(".."));
    assert!(!valid_name("a/b"));
    assert!(!valid_name("a\\b"));
    assert!(!valid_name("/"));
}

#[test]
fn ledger_name_keeps_the_string() {
    let name = LedgerName::new(String::from("mainnet")).unwrap();
    assert_eq!(name.as_str(), "mainnet");
}

#[test]
fn rejected_name_carries_the_raw_entry() {
    match LedgerName::new(String::from("../escape")) {
        Err(Error::ListBlockchainInvalidName(raw)) => assert_eq!(raw, "../escape"),
        _ => panic!("expected the invalid-name error"),
    }
}

#[test]
fn empty_catalog_is_no_blockchains() {
    match list_ledgers(Vec::new()) {
        Err(Error::ListNoBlockchains) => {}
        _ => panic!("expected the no-blockchains error"),
    }
}

#[test]
fn listing_keeps_valid_entries_and_flags_the_rest() {
    let entries = vec![
        String::from("mainnet"),
        String::from("../escape"),
        String::from("staging"),
    ];
    let listed = list_ledgers(entries).unwrap();
    assert_eq!(listed.len(), 3);
    assert_eq!(listed[0].as_ref().unwrap().as_str(), "mainnet");
    match &listed[1] {
        Err(Error::ListBlockchainInvalidName(raw)) => assert_eq!(raw, "../escape"),
        _ => panic!("expected the invalid-name error"),
    }
    assert_eq!(listed[2].as_ref().unwrap().as_str(), "staging");
}
