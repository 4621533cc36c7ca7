use ranger::ledger::{CreateEntry, GetEntry, Ledger, LedgerError, LedgerKey};
use ranger::model::Source;

fn source(name: &str, version: &str) -> Source {
    Source { name: name.to_string(), version: version.to_string() }
}

#[test]
fn ledger_returns_what_was_recorded() {
    let mut ledger = Ledger::new();
    ledger.handle_create_entry(CreateEntry(source("debian", "1.0.0"), "template-id".to_string())).unwrap();
    assert_eq!(ledger.handle_get_entry(GetEntry(source("debian", "1.0.0"))).unwrap(), "template-id");
}

#[test]
fn ledger_refuses_unknown_keys() {
    let ledger = Ledger::new();
    let r = ledger.handle_get_entry(GetEntry("missing".to_string()));
    assert!(matches!(r, Err(LedgerError::KeyNotFound)));
}

#[test]
fn ledger_keeps_the_last_write_and_other_keys() {
    let mut ledger = Ledger::new();
    ledger.handle_create_entry(CreateEntry("a".to_string(), "1".to_string())).unwrap();
    ledger.handle_create_entry(CreateEntry("b".to_string(), "2".to_string())).unwrap();
    ledger.handle_create_entry(CreateEntry("a".to_string(), "3".to_string())).unwrap();
    assert_eq!(ledger.handle_get_entry(GetEntry("a".to_string())).unwrap(), "3");
    assert_eq!(ledger.handle_get_entry(GetEntry("b".to_string())).unwrap(), "2");
}

#[test]
fn package_key_is_name_dash_version() {
    assert_eq!(source("debian", "1.0.0").get_key(), "debian-1.0.0");
    assert_eq!("plain".to_string().get_key(), "plain");
}
