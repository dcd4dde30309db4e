//! Recording a finished sprint: which sprint number it gets, what the caller is asked to
//! confirm, and what the answer does to the ledger.
use crate::ledger::SprintLedger;
use crate::text::{append_decimal, decimal_text};
use vstd::prelude::*;
use vstd::string::*;

verus! {

/// How an attempt to record a sprint ended.
#[derive(Clone, Copy, Debug, PartialEq, Eq, Structural)]
pub enum RecordOutcome {
    /// The caller confirmed, and the ledger holds the sprint.
    Recorded,
    /// The caller declined, and the ledger is as it was.
    Aborted,
}

/// The question that the caller confirms before a sprint is recorded.
pub open spec fn question_text(sprint_number: u8, velocity: u8) -> Seq<char> {
    "Is it correct that you finished "@ + decimal_text(velocity) + " velocity point(s) in your "@
        + decimal_text(sprint_number) + ". sprint?"@
}

/// The question that the caller confirms before `velocity` is recorded for `sprint_number`.
pub fn confirmation_question(sprint_number: u8, velocity: u8) -> (question: String)
    ensures
        question@ == question_text(sprint_number, velocity),
{
    let mut question = String::from_str("Is it correct that you finished ");
    append_decimal(&mut question, velocity);
    question.append(" velocity point(s) in your ");
    append_decimal(&mut question, sprint_number);
    question.append(". sprint?");
    question
}

/// The line shown for a yes/no question: the question and the two keys that answer it.
pub fn prompt_line(question: &str) -> (line: String)
    ensures
        line@ == question@ + " [y/n]"@,
{
    let mut line = String::from_str(question);
    line.append(" [y/n]");
    line
}

/// What a key press answers: `y` and `Y` say yes, `n` and `N` say no, and after any other
/// key the question is asked again.
pub open spec fn key_answer(key: u8) -> Option<bool> {
    if key == 89 || key == 121 {
        Some(true)
    } else if key == 78 || key == 110 {
        Some(false)
    } else {
        None
    }
}

/// Interprets one key press as an answer to a yes/no question.
pub fn interpret_key(key: u8) -> (answer: Option<bool>)
    ensures
        answer == key_answer(key),
{
    if key == 89 || key == 121 {
        Some(true)
    } else if key == 78 || key == 110 {
        Some(false)
    } else {
        None
    }
}

/// What the caller is told once the attempt has ended: a declined one is announced, a
/// recorded one passes in silence.
pub fn outcome_notice(outcome: RecordOutcome) -> (notice: Option<String>)
    ensures
        outcome == RecordOutcome::Aborted ==> notice is Some && notice->0@ == "Aborting!"@,
        outcome == RecordOutcome::Recorded ==> notice is None,
{
    match outcome {
        RecordOutcome::Aborted => Some(String::from_str("Aborting!")),
        RecordOutcome::Recorded => None,
    }
}

/// Records `velocity` for `sprint_number` if the caller confirmed the question for them,
/// and leaves the ledger untouched if not.
pub fn record_manual(
    ledger: &mut SprintLedger,
    sprint_number: u8,
    velocity: u8,
    confirmed: bool,
) -> (outcome: RecordOutcome)
    requires
        old(ledger).wf(),
    ensures
        final(ledger).wf(),
        confirmed ==> outcome == RecordOutcome::Recorded && final(ledger)@ == old(
            ledger,
        )@.recorded(sprint_number, velocity),
        !confirmed ==> outcome == RecordOutcome::Aborted && final(ledger)@ == old(ledger)@,
{
    if !confirmed {
        return RecordOutcome::Aborted;
    }
    ledger.record(sprint_number, velocity);
    RecordOutcome::Recorded
}

/// The number that the next sprint gets: one more than the last; none once all 255 are used.
pub fn next_sprint_number(ledger: &SprintLedger) -> (next: Option<u8>)
    ensures
        ledger@.last_sprint_number < 255 ==> next == Some((ledger@.last_sprint_number + 1) as u8),
        ledger@.last_sprint_number == 255 ==> next is None,
{
    let last = ledger.get_last_sprint_number();
    if last < 255 {
        Some(last + 1)
    } else {
        None
    }
}

/// Records `finished_points` for the sprint after the last one, if the caller confirmed the
/// question for them, and leaves the ledger untouched if not.
pub fn record_auto(ledger: &mut SprintLedger, finished_points: u8, confirmed: bool) -> (outcome:
    RecordOutcome)
    requires
        old(ledger).wf(),
        old(ledger)@.last_sprint_number < 255,
    ensures
        final(ledger).wf(),
        confirmed ==> outcome == RecordOutcome::Recorded && final(ledger)@ == old(
            ledger,
        )@.recorded((old(ledger)@.last_sprint_number + 1) as u8, finished_points),
        confirmed ==> final(ledger)@.last_sprint_number == old(ledger)@.last_sprint_number + 1,
        !confirmed ==> outcome == RecordOutcome::Aborted && final(ledger)@ == old(ledger)@,
{
    let sprint_number: u8 = ledger.get_last_sprint_number() + 1;
    record_manual(ledger, sprint_number, finished_points, confirmed)
}

} // verus!
