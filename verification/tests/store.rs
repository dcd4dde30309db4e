use trello_velocity_calculator::ledger::{SprintLedger, SprintRecord};
use trello_velocity_calculator::store::{
    decode_entry, last_sprint_key, load_ledger, parse_velocity_key, starts_as_velocity_key,
    transaction_writes, velocity_key, Decoded, LedgerError, StoreEntry,
};

fn entry(key: &str, value: &[u8]) -> StoreEntry {
    StoreEntry { key: String::from(key), value: value.to_vec() }
}

fn rec(sprint_number: u8, velocity: u8) -> SprintRecord {
    SprintRecord { sprint_number, velocity }
}

#[test]
fn keys_have_the_exact_wording() {
    assert_eq!(last_sprint_key(), "last_sprint_number");
    assert_eq!(velocity_key(0), "velocity.0");
    assert_eq!(velocity_key(7), "velocity.7");
    assert_eq!(velocity_key(42), "velocity.42");
    assert_eq!(velocity_key(100), "velocity.100");
    assert_eq!(velocity_key(205), "velocity.205");
    assert_eq!(velocity_key(255), "velocity.255");
}

#[test]
fn parse_velocity_key_reads_what_velocity_key_writes() {
    let mut n: u8 = 0;
    loop {
        assert_eq!(parse_velocity_key(&velocity_key(n)), Some(n));
        if n == 255 {
            break;
        }
        n += 1;
    }
}

#[test]
fn parse_velocity_key_refuses_other_keys() {
    assert_eq!(parse_velocity_key(""), None);
    assert_eq!(parse_velocity_key("velocity."), None);
    assert_eq!(parse_velocity_key("velocity.256"), None);
    assert_eq!(parse_velocity_key("velocity.999"), None);
    assert_eq!(parse_velocity_key("velocity.1000"), None);
    assert_eq!(parse_velocity_key("velocity.07"), None);
    assert_eq!(parse_velocity_key("velocity.007"), None);
    assert_eq!(parse_velocity_key("velocity.+7"), None);
    assert_eq!(parse_velocity_key("velocity.1x"), None);
    assert_eq!(parse_velocity_key("velocity.x"), None);
    assert_eq!(parse_velocity_key("velocity.12 "), None);
    assert_eq!(parse_velocity_key("Velocity.12"), None);
    assert_eq!(parse_velocity_key("velocity,12"), None);
    assert_eq!(parse_velocity_key("last_sprint_number"), None);
    assert_eq!(parse_velocity_key("velocity.é"), None);
}

#[test]
fn transaction_writes_marker_when_sprint_is_new() {
    let writes = transaction_writes(2, 3, 10);
    assert_eq!(writes.len(), 2);
    assert_eq!(writes[0].key, "last_sprint_number");
    assert_eq!(writes[0].value, vec![3]);
    assert_eq!(writes[1].key, "velocity.3");
    assert_eq!(writes[1].value, vec![10]);
}

#[test]
fn transaction_keeps_marker_when_sprint_is_old() {
    let writes = transaction_writes(5, 3, 10);
    assert_eq!(writes.len(), 1);
    assert_eq!(writes[0].key, "velocity.3");
    assert_eq!(writes[0].value, vec![10]);
    let same = transaction_writes(5, 5, 11);
    assert_eq!(same.len(), 1);
    assert_eq!(same[0].key, "velocity.5");
    assert_eq!(same[0].value, vec![11]);
}

#[test]
fn decode_entry_tells_the_kinds_apart() {
    assert_eq!(decode_entry(&entry("last_sprint_number", &[4])), Decoded::LastSprint(4));
    assert_eq!(decode_entry(&entry("velocity.4", &[30])), Decoded::Record(rec(4, 30)));
    assert_eq!(decode_entry(&entry("velocity.4", &[30, 1])), Decoded::Record(rec(4, 30)));
    assert_eq!(decode_entry(&entry("velocity.4", &[])), Decoded::Broken);
    assert_eq!(decode_entry(&entry("last_sprint_number", &[])), Decoded::Broken);
    assert_eq!(decode_entry(&entry("colour", &[1])), Decoded::Foreign);
    assert_eq!(decode_entry(&entry("velocity", &[1])), Decoded::Foreign);
    assert_eq!(decode_entry(&entry("velocity.abc", &[1])), Decoded::Broken);
    assert_eq!(decode_entry(&entry("velocity.007", &[1])), Decoded::Broken);
    assert_eq!(decode_entry(&entry("velocity.256", &[1])), Decoded::Broken);
    assert_eq!(decode_entry(&entry("velocity.", &[1])), Decoded::Broken);
}

#[test]
fn load_ledger_reads_a_store() {
    let entries = vec![
        entry("last_sprint_number", &[2]),
        entry("velocity.1", &[7]),
        entry("colour", &[]),
        entry("velocity.2", &[4]),
    ];
    let ledger = load_ledger(&entries);
    assert!(ledger.is_ok());
    let ledger = ledger.ok().unwrap();
    assert_eq!(ledger.get_last_sprint_number(), 2);
    assert_eq!(ledger.get_all_records(), vec![rec(1, 7), rec(2, 4)]);
}

#[test]
fn load_ledger_of_empty_store_is_empty() {
    let ledger = load_ledger(&Vec::new()).ok().unwrap();
    assert_eq!(ledger.get_last_sprint_number(), 0);
    assert_eq!(ledger.len(), 0);
}

#[test]
fn load_ledger_reports_unreadable_entries() {
    let entries = vec![entry("last_sprint_number", &[1]), entry("velocity.1", &[])];
    assert!(matches!(load_ledger(&entries), Err(LedgerError::UnreadableEntry)));
    let no_marker_byte = vec![entry("last_sprint_number", &[])];
    assert!(matches!(load_ledger(&no_marker_byte), Err(LedgerError::UnreadableEntry)));
    let no_sprint = vec![entry("velocity.first", &[3])];
    assert!(matches!(load_ledger(&no_sprint), Err(LedgerError::UnreadableEntry)));
}

#[test]
fn starts_as_velocity_key_looks_at_the_prefix() {
    assert!(starts_as_velocity_key("velocity."));
    assert!(starts_as_velocity_key("velocity.12"));
    assert!(starts_as_velocity_key("velocity.x"));
    assert!(!starts_as_velocity_key("velocity"));
    assert!(!starts_as_velocity_key("velocities"));
    assert!(!starts_as_velocity_key(""));
    assert!(!starts_as_velocity_key("last_sprint_number"));
}

#[test]
fn load_ledger_reports_inconsistency() {
    let no_marker = vec![entry("velocity.1", &[7])];
    assert!(matches!(load_ledger(&no_marker), Err(LedgerError::Inconsistent)));
    let high_marker = vec![entry("last_sprint_number", &[9]), entry("velocity.1", &[7])];
    assert!(matches!(load_ledger(&high_marker), Err(LedgerError::Inconsistent)));
    let twice = vec![
        entry("last_sprint_number", &[1]),
        entry("velocity.1", &[7]),
        entry("velocity.1", &[8]),
    ];
    assert!(matches!(load_ledger(&twice), Err(LedgerError::Inconsistent)));
}

#[test]
fn writes_of_a_record_load_as_the_recorded_ledger() {
    let mut ledger = SprintLedger::new();
    let mut stored: Vec<StoreEntry> = Vec::new();
    for (n, v) in [(1u8, 7u8), (2, 4), (5, 9)] {
        for write in transaction_writes(ledger.get_last_sprint_number(), n, v) {
            stored.push(write);
        }
        ledger.record(n, v);
    }
    let loaded = load_ledger(&stored).ok().unwrap();
    assert_eq!(loaded.get_last_sprint_number(), ledger.get_last_sprint_number());
    assert_eq!(loaded.get_all_records(), ledger.get_all_records());
}
