use trello_velocity_calculator::ledger::{SprintLedger, SprintRecord};
use trello_velocity_calculator::recorder::{
    confirmation_question, interpret_key, next_sprint_number, outcome_notice, prompt_line,
    record_auto, record_manual, RecordOutcome,
};

fn rec(sprint_number: u8, velocity: u8) -> SprintRecord {
    SprintRecord { sprint_number, velocity }
}

#[test]
fn new_ledger_is_empty() {
    let ledger = SprintLedger::new();
    assert_eq!(ledger.get_last_sprint_number(), 0);
    assert_eq!(ledger.get_all_records(), Vec::new());
    assert_eq!(ledger.len(), 0);
    assert_eq!(ledger.get_velocity(1), None);
}

#[test]
fn record_raises_last_sprint_number_and_stores_velocity() {
    let mut ledger = SprintLedger::new();
    ledger.record(4, 20);
    assert_eq!(ledger.get_last_sprint_number(), 4);
    assert_eq!(ledger.get_velocity(4), Some(20));
    ledger.record(9, 31);
    assert_eq!(ledger.get_last_sprint_number(), 9);
    assert_eq!(ledger.get_velocity(9), Some(31));
    assert_eq!(ledger.get_velocity(4), Some(20));
}

#[test]
fn record_of_lower_sprint_keeps_last_sprint_number() {
    let mut ledger = SprintLedger::new();
    ledger.record(5, 10);
    ledger.record(2, 8);
    assert_eq!(ledger.get_last_sprint_number(), 5);
    assert_eq!(ledger.get_velocity(2), Some(8));
    assert_eq!(ledger.get_all_records(), vec![rec(5, 10), rec(2, 8)]);
}

#[test]
fn record_overwrites_in_place() {
    let mut ledger = SprintLedger::new();
    ledger.record(1, 10);
    ledger.record(2, 20);
    ledger.record(3, 30);
    ledger.record(2, 25);
    assert_eq!(ledger.get_all_records(), vec![rec(1, 10), rec(2, 25), rec(3, 30)]);
    assert_eq!(ledger.get_last_sprint_number(), 3);
    assert_eq!(ledger.len(), 3);
}

#[test]
fn record_twice_is_record_once() {
    let mut once = SprintLedger::new();
    once.record(1, 5);
    once.record(3, 12);
    let mut twice = SprintLedger::new();
    twice.record(1, 5);
    twice.record(3, 12);
    twice.record(3, 12);
    assert_eq!(once.get_last_sprint_number(), twice.get_last_sprint_number());
    assert_eq!(once.get_all_records(), twice.get_all_records());
}

#[test]
fn ledger_holds_every_sprint_number() {
    let mut ledger = SprintLedger::new();
    let mut n: u8 = 0;
    loop {
        ledger.record(n, n / 2);
        if n == 255 {
            break;
        }
        n += 1;
    }
    assert_eq!(ledger.len(), 256);
    assert_eq!(ledger.get_last_sprint_number(), 255);
    assert_eq!(ledger.get_velocity(0), Some(0));
    assert_eq!(ledger.get_velocity(255), Some(127));
    ledger.record(200, 1);
    assert_eq!(ledger.len(), 256);
    assert_eq!(ledger.get_velocity(200), Some(1));
}

#[test]
fn from_parts_accepts_a_ledger() {
    let ledger = SprintLedger::from_parts(7, vec![rec(7, 1), rec(2, 3)]);
    assert!(ledger.is_some());
    let ledger = ledger.unwrap();
    assert_eq!(ledger.get_last_sprint_number(), 7);
    assert_eq!(ledger.get_all_records(), vec![rec(7, 1), rec(2, 3)]);
    assert!(SprintLedger::from_parts(0, Vec::new()).is_some());
    assert!(SprintLedger::from_parts(0, vec![rec(0, 9)]).is_some());
}

#[test]
fn from_parts_refuses_what_is_no_ledger() {
    assert!(SprintLedger::from_parts(1, Vec::new()).is_none());
    assert!(SprintLedger::from_parts(3, vec![rec(1, 1), rec(2, 2)]).is_none());
    assert!(SprintLedger::from_parts(1, vec![rec(1, 1), rec(2, 2)]).is_none());
    assert!(SprintLedger::from_parts(2, vec![rec(2, 1), rec(1, 5), rec(2, 2)]).is_none());
}

#[test]
fn record_auto_end_to_end() {
    let mut ledger = SprintLedger::new();
    assert_eq!(record_auto(&mut ledger, 7, true), RecordOutcome::Recorded);
    assert_eq!(ledger.get_last_sprint_number(), 1);
    assert_eq!(ledger.get_all_records(), vec![rec(1, 7)]);
    assert_eq!(record_auto(&mut ledger, 4, true), RecordOutcome::Recorded);
    assert_eq!(ledger.get_last_sprint_number(), 2);
    assert_eq!(ledger.get_all_records(), vec![rec(1, 7), rec(2, 4)]);
}

#[test]
fn record_manual_declined_changes_nothing() {
    let mut ledger = SprintLedger::new();
    ledger.record(1, 7);
    ledger.record(2, 4);
    assert_eq!(record_manual(&mut ledger, 3, 10, false), RecordOutcome::Aborted);
    assert_eq!(ledger.get_last_sprint_number(), 2);
    assert_eq!(ledger.get_all_records(), vec![rec(1, 7), rec(2, 4)]);
    assert_eq!(ledger.get_velocity(3), None);
}

#[test]
fn record_manual_confirmed_records() {
    let mut ledger = SprintLedger::new();
    assert_eq!(record_manual(&mut ledger, 3, 10, true), RecordOutcome::Recorded);
    assert_eq!(ledger.get_last_sprint_number(), 3);
    assert_eq!(ledger.get_all_records(), vec![rec(3, 10)]);
}

#[test]
fn record_auto_declined_changes_nothing() {
    let mut ledger = SprintLedger::new();
    assert_eq!(record_auto(&mut ledger, 7, false), RecordOutcome::Aborted);
    assert_eq!(ledger.get_last_sprint_number(), 0);
    assert_eq!(ledger.len(), 0);
}

#[test]
fn next_sprint_number_follows_the_last() {
    let mut ledger = SprintLedger::new();
    assert_eq!(next_sprint_number(&ledger), Some(1));
    ledger.record(41, 3);
    assert_eq!(next_sprint_number(&ledger), Some(42));
    ledger.record(254, 3);
    assert_eq!(next_sprint_number(&ledger), Some(255));
    ledger.record(255, 3);
    assert_eq!(next_sprint_number(&ledger), None);
}

#[test]
fn confirmation_question_has_the_exact_wording() {
    assert_eq!(
        confirmation_question(3, 10),
        "Is it correct that you finished 10 velocity point(s) in your 3. sprint?"
    );
    assert_eq!(
        confirmation_question(255, 0),
        "Is it correct that you finished 0 velocity point(s) in your 255. sprint?"
    );
    assert_eq!(
        confirmation_question(100, 109),
        "Is it correct that you finished 109 velocity point(s) in your 100. sprint?"
    );
}

#[test]
fn prompt_line_names_the_keys() {
    assert_eq!(prompt_line("Sure?"), "Sure? [y/n]");
}

#[test]
fn interpret_key_knows_yes_and_no() {
    assert_eq!(interpret_key(b'y'), Some(true));
    assert_eq!(interpret_key(b'Y'), Some(true));
    assert_eq!(interpret_key(b'n'), Some(false));
    assert_eq!(interpret_key(b'N'), Some(false));
    assert_eq!(interpret_key(b'x'), None);
    assert_eq!(interpret_key(b'\n'), None);
    assert_eq!(interpret_key(255), None);
}

#[test]
fn outcome_notice_announces_only_the_abort() {
    assert_eq!(outcome_notice(RecordOutcome::Aborted), Some(String::from("Aborting!")));
    assert_eq!(outcome_notice(RecordOutcome::Recorded), None);
}
