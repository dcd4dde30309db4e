//! The ledger as a key-value store keeps it: under `last_sprint_number` the number of the
//! last sprint, under `velocity.` and a sprint's number that sprint's velocity, each as one
//! byte.
use crate::ledger::{LedgerState, SprintLedger, SprintRecord};
use crate::text::{
    append_decimal, decimal_text, digit_number, digit_value, is_digit, lemma_digit_round_trip,
};
use vstd::prelude::*;
use vstd::string::*;

verus! {

/// One entry of the store.
pub struct StoreEntry {
    pub key: String,
    pub value: Vec<u8>,
}

/// Why a store could not be read as a ledger.
#[derive(Clone, Copy, Debug, PartialEq, Eq, Structural)]
pub enum LedgerError {
    /// An entry of the ledger cannot be read: it holds no byte, or its key starts as the key
    /// of a sprint and names none.
    UnreadableEntry,
    /// A sprint number stands twice, or the last sprint number is not the highest recorded.
    Inconsistent,
}

/// The key under which the number of the last sprint is kept.
pub open spec fn last_sprint_key_text() -> Seq<char> {
    "last_sprint_number"@
}

/// The key under which the velocity of sprint `n` is kept.
pub open spec fn velocity_key_text(n: u8) -> Seq<char> {
    "velocity."@ + decimal_text(n)
}

/// How the key of sprint `m` is made up: nine characters of prefix, then the one to three
/// digits of `m`, the first of which is zero only where it is the only one.
pub proof fn lemma_velocity_key_shape(m: u8)
    ensures
        velocity_key_text(m).len() == 9 + decimal_text(m).len(),
        1 <= decimal_text(m).len() <= 3,
        forall|i: int| 0 <= i < 9 ==> velocity_key_text(m)[i] == "velocity."@[i],
        is_digit(velocity_key_text(m)[9]),
        decimal_text(m).len() == 1 ==> digit_value(velocity_key_text(m)[9]) == m,
        decimal_text(m).len() == 2 ==> velocity_key_text(m)[9] != '0' && is_digit(
            velocity_key_text(m)[10],
        ) && 10 * digit_value(velocity_key_text(m)[9]) + digit_value(velocity_key_text(m)[10])
            == m,
        decimal_text(m).len() == 3 ==> velocity_key_text(m)[9] != '0' && is_digit(
            velocity_key_text(m)[10],
        ) && is_digit(velocity_key_text(m)[11]) && 100 * digit_value(velocity_key_text(m)[9]) + 10
            * digit_value(velocity_key_text(m)[10]) + digit_value(velocity_key_text(m)[11]) == m,
{
    reveal_strlit("velocity.");
    lemma_digit_round_trip();
    let text = velocity_key_text(m);
    let digits = decimal_text(m);
    assert(text[9] == digits[0]);
    if m >= 10 {
        assert(text[10] == digits[1]);
    }
    if m >= 100 {
        assert(text[11] == digits[2]);
    }
}

/// Two sprints never share a key.
pub proof fn lemma_velocity_key_is_injective(m: u8, n: u8)
    requires
        velocity_key_text(m) == velocity_key_text(n),
    ensures
        m == n,
{
    lemma_velocity_key_shape(m);
    lemma_velocity_key_shape(n);
}

/// The key under which the number of the last sprint is kept.
pub fn last_sprint_key() -> (key: String)
    ensures
        key@ == last_sprint_key_text(),
{
    String::from_str("last_sprint_number")
}

/// The key under which the velocity of a sprint is kept.
pub fn velocity_key(sprint_number: u8) -> (key: String)
    ensures
        key@ == velocity_key_text(sprint_number),
{
    let mut key = String::from_str("velocity.");
    append_decimal(&mut key, sprint_number);
    key
}

/// The sprint whose velocity is kept under `key`, if `key` is the key of a sprint.
pub fn parse_velocity_key(key: &str) -> (sprint_number: Option<u8>)
    ensures
        match sprint_number {
            Some(n) => key@ == velocity_key_text(n),
            None => forall|m: u8| key@ != #[trigger] velocity_key_text(m),
        },
{
    let prefix = "velocity.";
    proof {
        reveal_strlit("velocity.");
        lemma_digit_round_trip();
    }
    let len = key.unicode_len();
    if len < 10 || len > 12 {
        assert forall|m: u8| key@ != #[trigger] velocity_key_text(m) by {
            lemma_velocity_key_shape(m);
        }
        return None;
    }
    let mut i: usize = 0;
    while i < 9
        invariant
            i <= 9,
            len == key@.len(),
            10 <= len <= 12,
            prefix@ == "velocity."@,
            prefix@.len() == 9,
            forall|j: int| 0 <= j < i ==> key@[j] == prefix@[j],
        decreases 9 - i,
    {
        if key.get_char(i) != prefix.get_char(i) {
            assert forall|m: u8| key@ != #[trigger] velocity_key_text(m) by {
                lemma_velocity_key_shape(m);
                assert(velocity_key_text(m)[i as int] == prefix@[i as int]);
            }
            return None;
        }
        i = i + 1;
    }
    let first = key.get_char(9);
    if first < '0' || first > '9' {
        assert forall|m: u8| key@ != #[trigger] velocity_key_text(m) by {
            lemma_velocity_key_shape(m);
        }
        return None;
    }
    let mut value: u16 = digit_number(first) as u16;
    if len >= 11 {
        let second = key.get_char(10);
        if first == '0' || second < '0' || second > '9' {
            assert forall|m: u8| key@ != #[trigger] velocity_key_text(m) by {
                lemma_velocity_key_shape(m);
            }
            return None;
        }
        value = value * 10 + digit_number(second) as u16;
    }
    if len == 12 {
        let third = key.get_char(11);
        if third < '0' || third > '9' {
            assert forall|m: u8| key@ != #[trigger] velocity_key_text(m) by {
                lemma_velocity_key_shape(m);
            }
            return None;
        }
        value = value * 10 + digit_number(third) as u16;
    }
    if value > 255 {
        assert forall|m: u8| key@ != #[trigger] velocity_key_text(m) by {
            lemma_velocity_key_shape(m);
        }
        return None;
    }
    let sprint_number: u8 = value as u8;
    proof {
        lemma_velocity_key_shape(sprint_number);
        let digits = decimal_text(sprint_number);
        if len == 10 {
            assert(sprint_number < 10);
        } else if len == 11 {
            assert(10 <= sprint_number < 100);
        } else {
            assert(sprint_number >= 100);
        }
        assert(digits.len() == len - 9);
        assert(digits[0] == key@[9]);
        if len >= 11 {
            assert(digits[1] == key@[10]);
        }
        if len == 12 {
            assert(digits[2] == key@[11]);
        }
        assert forall|j: int| 0 <= j < len implies key@[j] == velocity_key_text(sprint_number)[j] by {
            if j < 9 {
            } else if j == 9 {
            } else if j == 10 {
            } else {
            }
        }
        assert(key@ =~= velocity_key_text(sprint_number));
    }
    Some(sprint_number)
}

/// What one transaction writes to record `velocity` for `sprint_number` in a store whose
/// last sprint number is `last_sprint_number`: the new last sprint number, where it rises,
/// and then the velocity under the sprint's key.
pub open spec fn transaction_of(last_sprint_number: u8, sprint_number: u8, velocity: u8) -> Seq<
    (Seq<char>, Seq<u8>),
> {
    let velocity_write = (velocity_key_text(sprint_number), seq![velocity]);
    if last_sprint_number < sprint_number {
        seq![(last_sprint_key_text(), seq![sprint_number]), velocity_write]
    } else {
        seq![velocity_write]
    }
}

/// The writes of the one transaction that records a sprint. Either all of them reach the
/// store or none does: that is for whoever carries them out.
pub fn transaction_writes(last_sprint_number: u8, sprint_number: u8, velocity: u8) -> (writes: Vec<
    StoreEntry,
>)
    ensures
        writes@.len() == transaction_of(last_sprint_number, sprint_number, velocity).len(),
        forall|i: int|
            0 <= i < writes@.len() ==> (#[trigger] writes@[i]).key@ == transaction_of(
                last_sprint_number,
                sprint_number,
                velocity,
            )[i].0 && writes@[i].value@ == transaction_of(
                last_sprint_number,
                sprint_number,
                velocity,
            )[i].1,
{
    let mut writes: Vec<StoreEntry> = Vec::new();
    if last_sprint_number < sprint_number {
        let mut marker: Vec<u8> = Vec::new();
        marker.push(sprint_number);
        assert(marker@ =~= seq![sprint_number]);
        writes.push(StoreEntry { key: last_sprint_key(), value: marker });
    }
    let mut value: Vec<u8> = Vec::new();
    value.push(velocity);
    assert(value@ =~= seq![velocity]);
    writes.push(StoreEntry { key: velocity_key(sprint_number), value });
    writes
}

/// What an entry of the store means to the ledger.
#[derive(Clone, Copy, Debug, PartialEq, Eq, Structural)]
pub enum Decoded {
    /// The number of the last sprint.
    LastSprint(u8),
    /// The velocity of one sprint.
    Record(SprintRecord),
    /// Nothing: the key is not one of the ledger's.
    Foreign,
    /// An entry of the ledger that cannot be read: it holds no byte, or its key starts as the
    /// key of a sprint and names none.
    Broken,
}

/// Whether `key` starts as the key of a sprint does.
pub open spec fn has_velocity_prefix(key: Seq<char>) -> bool {
    "velocity."@.is_prefix_of(key)
}

/// Whether `key` is the key of some sprint.
pub open spec fn is_velocity_key(key: Seq<char>) -> bool {
    exists|n: u8| key == #[trigger] velocity_key_text(n)
}

/// What the entry with this key and value means. Of a value only the first byte counts.
pub open spec fn decoded(key: Seq<char>, value: Seq<u8>) -> Decoded {
    if key == last_sprint_key_text() {
        if value.len() == 0 {
            Decoded::Broken
        } else {
            Decoded::LastSprint(value[0])
        }
    } else if is_velocity_key(key) {
        if value.len() == 0 {
            Decoded::Broken
        } else {
            Decoded::Record(
                SprintRecord {
                    sprint_number: choose|n: u8| key == #[trigger] velocity_key_text(n),
                    velocity: value[0],
                },
            )
        }
    } else if has_velocity_prefix(key) {
        Decoded::Broken
    } else {
        Decoded::Foreign
    }
}

/// Whether a key starts as the key of a sprint does.
pub fn starts_as_velocity_key(key: &str) -> (starts: bool)
    ensures
        starts == has_velocity_prefix(key@),
{
    let prefix = "velocity.";
    proof {
        reveal_strlit("velocity.");
    }
    if key.unicode_len() < 9 {
        return false;
    }
    let mut i: usize = 0;
    while i < 9
        invariant
            i <= 9,
            key@.len() >= 9,
            prefix@ == "velocity."@,
            prefix@.len() == 9,
            forall|j: int| 0 <= j < i ==> key@[j] == prefix@[j],
        decreases 9 - i,
    {
        if key.get_char(i) != prefix.get_char(i) {
            assert(key@.subrange(0, 9)[i as int] != prefix@[i as int]);
            return false;
        }
        i = i + 1;
    }
    assert(prefix@ =~= key@.subrange(0, 9));
    true
}

/// What a transaction writes reads back as what was recorded: its last entry as the record
/// of the sprint, and, where the last sprint number rises, its first entry as that number.
pub proof fn lemma_transaction_reads_back(last_sprint_number: u8, sprint_number: u8, velocity: u8)
    ensures
        ({
            let writes = transaction_of(last_sprint_number, sprint_number, velocity);
            &&& decoded(writes.last().0, writes.last().1) == Decoded::Record(
                SprintRecord { sprint_number, velocity },
            )
            &&& last_sprint_number < sprint_number ==> writes.len() == 2 && decoded(
                writes[0].0,
                writes[0].1,
            ) == Decoded::LastSprint(sprint_number)
            &&& last_sprint_number >= sprint_number ==> writes.len() == 1
        }),
{
    reveal_strlit("last_sprint_number");
    reveal_strlit("velocity.");
    lemma_velocity_key_shape(sprint_number);
    let key = velocity_key_text(sprint_number);
    assert(key[0] != last_sprint_key_text()[0]);
    assert(is_velocity_key(key));
    let chosen = choose|n: u8| key == #[trigger] velocity_key_text(n);
    lemma_velocity_key_is_injective(chosen, sprint_number);
}

/// Says what an entry of the store means to the ledger.
pub fn decode_entry(entry: &StoreEntry) -> (meaning: Decoded)
    ensures
        meaning == decoded(entry.key@, entry.value@),
{
    let marker = last_sprint_key();
    if entry.key == marker {
        if entry.value.len() == 0 {
            return Decoded::Broken;
        }
        return Decoded::LastSprint(entry.value[0]);
    }
    match parse_velocity_key(entry.key.as_str()) {
        Some(sprint_number) => {
            proof {
                let chosen = choose|n: u8| entry.key@ == #[trigger] velocity_key_text(n);
                lemma_velocity_key_is_injective(chosen, sprint_number);
            }
            if entry.value.len() == 0 {
                return Decoded::Broken;
            }
            Decoded::Record(SprintRecord { sprint_number, velocity: entry.value[0] })
        },
        None => {
            if starts_as_velocity_key(entry.key.as_str()) {
                Decoded::Broken
            } else {
                Decoded::Foreign
            }
        },
    }
}

/// Whether one of the entries is an entry of the ledger that cannot be read.
pub open spec fn any_broken(entries: Seq<StoreEntry>) -> bool {
    exists|i: int|
        0 <= i < entries.len() && decoded(
            (#[trigger] entries[i]).key@,
            entries[i].value@,
        ) == Decoded::Broken
}

/// The state that the entries describe, read in the order in which the store enumerates
/// them: the last sprint number is the one written last, zero where there is none, and the
/// records stand in the order of their entries.
pub open spec fn stored_state(entries: Seq<StoreEntry>) -> LedgerState
    decreases entries.len(),
{
    if entries.len() == 0 {
        LedgerState::empty()
    } else {
        let before = stored_state(entries.drop_last());
        match decoded(entries.last().key@, entries.last().value@) {
            Decoded::LastSprint(n) => LedgerState { last_sprint_number: n, records: before.records },
            Decoded::Record(record) => LedgerState {
                last_sprint_number: before.last_sprint_number,
                records: before.records.push(record),
            },
            _ => before,
        }
    }
}

/// In a store that enumerates its entries in the order in which they were written, the
/// transaction that records a sprint without a record yet turns what the store reads as
/// into the ledger after that recording.
pub proof fn lemma_appended_transaction_reads_as_recorded(
    store: Seq<StoreEntry>,
    writes: Seq<StoreEntry>,
    sprint_number: u8,
    velocity: u8,
)
    requires
        !stored_state(store).holds(sprint_number),
        writes.len() == transaction_of(
            stored_state(store).last_sprint_number,
            sprint_number,
            velocity,
        ).len(),
        forall|i: int|
            0 <= i < writes.len() ==> (#[trigger] writes[i]).key@ == transaction_of(
                stored_state(store).last_sprint_number,
                sprint_number,
                velocity,
            )[i].0 && writes[i].value@ == transaction_of(
                stored_state(store).last_sprint_number,
                sprint_number,
                velocity,
            )[i].1,
    ensures
        stored_state(store + writes) == stored_state(store).recorded(sprint_number, velocity),
{
    let before = stored_state(store);
    lemma_transaction_reads_back(before.last_sprint_number, sprint_number, velocity);
    if before.last_sprint_number < sprint_number {
        let marked = store.push(writes[0]);
        assert(marked.drop_last() =~= store);
        assert(stored_state(marked) == (LedgerState {
            last_sprint_number: sprint_number,
            records: before.records,
        }));
        assert(store + writes =~= marked.push(writes[1]));
        assert(marked.push(writes[1]).drop_last() =~= marked);
    } else {
        assert(store + writes =~= store.push(writes[0]));
        assert(store.push(writes[0]).drop_last() =~= store);
    }
}

/// Reads the entries of a store as a ledger. An empty store is an empty ledger; entries
/// under other keys are passed over.
pub fn load_ledger(entries: &Vec<StoreEntry>) -> (loaded: Result<SprintLedger, LedgerError>)
    ensures
        match loaded {
            Ok(ledger) => !any_broken(entries@) && ledger@ == stored_state(entries@)
                && ledger.wf(),
            Err(LedgerError::UnreadableEntry) => any_broken(entries@),
            Err(LedgerError::Inconsistent) => !any_broken(entries@) && !stored_state(
                entries@,
            ).wf(),
        },
{
    let mut last_sprint_number: u8 = 0;
    let mut records: Vec<SprintRecord> = Vec::new();
    let mut i: usize = 0;
    while i < entries.len()
        invariant
            i <= entries.len(),
            !any_broken(entries@.take(i as int)),
            stored_state(entries@.take(i as int)) == (LedgerState {
                last_sprint_number,
                records: records@,
            }),
        decreases entries.len() - i,
    {
        let ghost before = entries@.take(i as int);
        let ghost now = entries@.take(i + 1);
        proof {
            assert(now.drop_last() =~= before);
            assert(now.last() == entries@[i as int]);
        }
        match decode_entry(&entries[i]) {
            Decoded::LastSprint(n) => {
                last_sprint_number = n;
            },
            Decoded::Record(record) => {
                records.push(record);
            },
            Decoded::Foreign => {},
            Decoded::Broken => {
                assert(any_broken(entries@));
                return Err(LedgerError::UnreadableEntry);
            },
        }
        proof {
            assert forall|j: int| 0 <= j < now.len() implies decoded(
                (#[trigger] now[j]).key@,
                now[j].value@,
            ) != Decoded::Broken by {
                if j < i {
                    assert(now[j] == before[j]);
                }
            }
        }
        i = i + 1;
    }
    proof {
        assert(entries@.take(entries.len() as int) =~= entries@);
    }
    match SprintLedger::from_parts(last_sprint_number, records) {
        Some(ledger) => Ok(ledger),
        None => Err(LedgerError::Inconsistent),
    }
}

} // verus!
