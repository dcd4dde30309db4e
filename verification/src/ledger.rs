//! The ledger of finished sprints: one velocity per sprint number, and the number of the
//! last sprint.
use vstd::prelude::*;
use vstd::set_lib::{lemma_int_range, lemma_len_subset, set_int_range};

verus! {

/// The velocity that a team reached in one sprint.
#[derive(Clone, Copy, Debug, PartialEq, Eq, Structural)]
pub struct SprintRecord {
    pub sprint_number: u8,
    pub velocity: u8,
}

/// What a ledger holds: the highest sprint number recorded so far, and the records in the
/// order in which the ledger enumerates them.
pub ghost struct LedgerState {
    pub last_sprint_number: u8,
    pub records: Seq<SprintRecord>,
}

impl LedgerState {
    /// The state of a ledger that was never written.
    pub open spec fn empty() -> LedgerState {
        LedgerState { last_sprint_number: 0, records: Seq::empty() }
    }

    /// Whether a record for sprint `n` exists.
    pub open spec fn holds(self, n: u8) -> bool {
        exists|i: int| 0 <= i < self.records.len() && self.records[i].sprint_number == n
    }

    /// Where the record for sprint `n` stands, if there is one.
    pub open spec fn position(self, n: u8) -> Option<int> {
        if self.holds(n) {
            Some(choose|i: int| 0 <= i < self.records.len() && self.records[i].sprint_number == n)
        } else {
            None
        }
    }

    /// The velocity recorded for sprint `n`, if any.
    pub open spec fn velocity_of(self, n: u8) -> Option<u8> {
        match self.position(n) {
            Some(i) => Some(self.records[i].velocity),
            None => None,
        }
    }

    /// No sprint number has two records.
    pub open spec fn distinct(self) -> bool {
        forall|i: int, j: int|
            0 <= i < j < self.records.len() ==> self.records[i].sprint_number
                != self.records[j].sprint_number
    }

    /// The last sprint number is the highest one recorded, and zero for an empty ledger.
    pub open spec fn last_is_highest(self) -> bool {
        if self.records.len() == 0 {
            self.last_sprint_number == 0
        } else {
            &&& self.holds(self.last_sprint_number)
            &&& forall|i: int|
                0 <= i < self.records.len() ==> (#[trigger] self.records[i]).sprint_number
                    <= self.last_sprint_number
        }
    }

    /// The invariant of a ledger.
    pub open spec fn wf(self) -> bool {
        self.distinct() && self.last_is_highest()
    }

    /// The state after the velocity `velocity` was recorded for sprint `n`: the last sprint
    /// number never falls, a record for `n` is overwritten where it stands, and a new one is
    /// enumerated last.
    pub open spec fn recorded(self, n: u8, velocity: u8) -> LedgerState {
        let record = SprintRecord { sprint_number: n, velocity };
        LedgerState {
            last_sprint_number: if self.last_sprint_number < n {
                n
            } else {
                self.last_sprint_number
            },
            records: match self.position(n) {
                Some(i) => self.records.update(i, record),
                None => self.records.push(record),
            },
        }
    }
}

/// In a ledger without double records, the record found for a sprint is the only one.
pub proof fn lemma_position_is_unique(state: LedgerState, n: u8, i: int)
    requires
        state.distinct(),
        0 <= i < state.records.len(),
        state.records[i].sprint_number == n,
    ensures
        state.position(n) == Some(i),
        state.velocity_of(n) == Some(state.records[i].velocity),
{
    let j = choose|j: int| 0 <= j < state.records.len() && state.records[j].sprint_number == n;
    if j < i {
        assert(state.records[j].sprint_number != state.records[i].sprint_number);
    } else if i < j {
        assert(state.records[i].sprint_number != state.records[j].sprint_number);
    }
}

/// Recording keeps the invariant of the ledger.
pub proof fn lemma_recorded_is_wf(state: LedgerState, n: u8, velocity: u8)
    requires
        state.wf(),
    ensures
        state.recorded(n, velocity).wf(),
{
    let after = state.recorded(n, velocity);
    match state.position(n) {
        Some(i) => {
            assert(forall|k: int|
                0 <= k < after.records.len() ==> (#[trigger] after.records[k]).sprint_number
                    == state.records[k].sprint_number);
            assert(state.records[i].sprint_number <= state.last_sprint_number);
            let h = choose|h: int|
                0 <= h < state.records.len() && state.records[h].sprint_number
                    == state.last_sprint_number;
            assert(after.records[h].sprint_number == after.last_sprint_number);
        },
        None => {
            let end = state.records.len() as int;
            assert(after.records[end].sprint_number == n);
            assert(forall|k: int|
                0 <= k < end ==> (#[trigger] after.records[k]) == state.records[k]);
            if state.last_sprint_number < n {
                assert(after.holds(n));
            } else {
                if state.records.len() == 0 {
                    assert(n == 0);
                    assert(after.holds(0));
                } else {
                    let h = choose|h: int|
                        0 <= h < state.records.len() && state.records[h].sprint_number
                            == state.last_sprint_number;
                    assert(after.records[h].sprint_number == after.last_sprint_number);
                }
            }
        },
    }
}

/// After recording `velocity` for sprint `n`, the last sprint number is the larger of `n` and
/// what it was before, so it never falls; the velocity read for `n` is `velocity`; and every
/// other sprint reads as it did.
pub proof fn lemma_record_then_read(state: LedgerState, n: u8, velocity: u8)
    requires
        state.wf(),
    ensures
        state.recorded(n, velocity).last_sprint_number == if state.last_sprint_number < n {
            n
        } else {
            state.last_sprint_number
        },
        state.recorded(n, velocity).last_sprint_number >= state.last_sprint_number,
        state.recorded(n, velocity).velocity_of(n) == Some(velocity),
        forall|m: u8|
            m != n ==> #[trigger] state.recorded(n, velocity).velocity_of(m) == state.velocity_of(
                m,
            ),
{
    let after = state.recorded(n, velocity);
    lemma_recorded_is_wf(state, n, velocity);
    match state.position(n) {
        Some(i) => {
            lemma_position_is_unique(after, n, i);
        },
        None => {
            lemma_position_is_unique(after, n, state.records.len() as int);
        },
    }
    assert forall|m: u8| m != n implies #[trigger] after.velocity_of(m) == state.velocity_of(
        m,
    ) by {
        if state.holds(m) {
            let j = state.position(m)->0;
            assert(after.records[j] == state.records[j]);
            lemma_position_is_unique(after, m, j);
        } else {
            if after.holds(m) {
                let j = after.position(m)->0;
                assert(state.records[j].sprint_number == m);
            }
        }
    }
}

/// Recording the same velocity for the same sprint a second time changes nothing.
pub proof fn lemma_record_is_idempotent(state: LedgerState, n: u8, velocity: u8)
    requires
        state.wf(),
    ensures
        state.recorded(n, velocity).recorded(n, velocity) == state.recorded(n, velocity),
{
    let once = state.recorded(n, velocity);
    let twice = once.recorded(n, velocity);
    lemma_recorded_is_wf(state, n, velocity);
    let at = match state.position(n) {
        Some(i) => i,
        None => state.records.len() as int,
    };
    lemma_position_is_unique(once, n, at);
    assert(twice.records =~= once.records);
}

/// A ledger without double records holds at most 256 of them, one for each sprint number.
pub proof fn lemma_distinct_is_bounded(state: LedgerState)
    requires
        state.distinct(),
    ensures
        state.records.len() <= 256,
{
    let numbers = Seq::new(state.records.len(), |i: int| state.records[i].sprint_number as int);
    assert(numbers.no_duplicates()) by {
        assert forall|i: int, j: int|
            0 <= i < numbers.len() && 0 <= j < numbers.len() && i != j implies numbers[i]
            != numbers[j] by {
            if i < j {
                assert(state.records[i].sprint_number != state.records[j].sprint_number);
            } else {
                assert(state.records[j].sprint_number != state.records[i].sprint_number);
            }
        }
    }
    numbers.unique_seq_to_set();
    lemma_int_range(0, 256);
    assert(numbers.to_set().subset_of(set_int_range(0, 256))) by {
        assert forall|x: int| numbers.to_set().contains(x) implies set_int_range(0, 256).contains(
            x,
        ) by {
            let i = choose|i: int| 0 <= i < numbers.len() && numbers[i] == x;
            assert(numbers[i] == state.records[i].sprint_number as int);
        }
    }
    lemma_len_subset(numbers.to_set(), set_int_range(0, 256));
}

/// The ledger of finished sprints.
pub struct SprintLedger {
    last_sprint_number: u8,
    records: Vec<SprintRecord>,
}

impl View for SprintLedger {
    type V = LedgerState;

    closed spec fn view(&self) -> LedgerState {
        LedgerState { last_sprint_number: self.last_sprint_number, records: self.records@ }
    }
}

impl SprintLedger {
    /// The invariant of the ledger: that of its state.
    pub open spec fn wf(&self) -> bool {
        self@.wf()
    }

    /// A ledger that was never written.
    pub fn new() -> (ledger: SprintLedger)
        ensures
            ledger@ == LedgerState::empty(),
            ledger.wf(),
    {
        SprintLedger { last_sprint_number: 0, records: Vec::new() }
    }

    /// The ledger that holds `records` in their order and `last_sprint_number` as the number
    /// of its last sprint, if these make a ledger: no sprint number may stand twice, and the
    /// last sprint number must be the highest of them, or zero where there is no record.
    pub fn from_parts(last_sprint_number: u8, records: Vec<SprintRecord>) -> (ledger: Option<
        SprintLedger,
    >)
        ensures
            ledger is Some <==> (LedgerState { last_sprint_number, records: records@ }).wf(),
            ledger is Some ==> ledger->0@ == (LedgerState { last_sprint_number, records: records@ }),
    {
        let ghost state = LedgerState { last_sprint_number, records: records@ };
        if records.len() == 0 {
            if last_sprint_number != 0 {
                return None;
            }
            return Some(SprintLedger { last_sprint_number, records });
        }
        let mut seen_last = false;
        let mut i: usize = 0;
        while i < records.len()
            invariant
                i <= records.len(),
                state == (LedgerState { last_sprint_number, records: records@ }),
                forall|a: int, b: int|
                    0 <= a < b < i ==> records@[a].sprint_number != records@[b].sprint_number,
                forall|a: int|
                    0 <= a < i ==> (#[trigger] records@[a]).sprint_number <= last_sprint_number,
                seen_last <==> exists|a: int|
                    0 <= a < i && records@[a].sprint_number == last_sprint_number,
            decreases records.len() - i,
        {
            let number: u8 = records[i].sprint_number;
            if number > last_sprint_number {
                assert(!state.last_is_highest());
                return None;
            }
            let mut j: usize = 0;
            while j < i
                invariant
                    j <= i,
                    i < records.len(),
                    number == records@[i as int].sprint_number,
                    state == (LedgerState { last_sprint_number, records: records@ }),
                    forall|a: int| 0 <= a < j ==> records@[a].sprint_number != number,
                decreases i - j,
            {
                if records[j].sprint_number == number {
                    assert(state.records[j as int].sprint_number
                        == state.records[i as int].sprint_number);
                    assert(!state.distinct());
                    return None;
                }
                j = j + 1;
            }
            if number == last_sprint_number {
                seen_last = true;
            }
            i = i + 1;
        }
        if !seen_last {
            assert(!state.holds(last_sprint_number));
            return None;
        }
        proof {
            let a = choose|a: int| 0 <= a < i && records@[a].sprint_number == last_sprint_number;
            assert(state.records[a].sprint_number == last_sprint_number);
        }
        Some(SprintLedger { last_sprint_number, records })
    }

    /// The highest sprint number recorded so far; zero if the ledger was never written.
    pub fn get_last_sprint_number(&self) -> (last: u8)
        ensures
            last == self@.last_sprint_number,
    {
        self.last_sprint_number
    }

    /// All records, in the order in which the ledger enumerates them.
    pub fn get_all_records(&self) -> (records: Vec<SprintRecord>)
        ensures
            records@ == self@.records,
    {
        let mut records: Vec<SprintRecord> = Vec::new();
        let mut i: usize = 0;
        while i < self.records.len()
            invariant
                i <= self.records.len(),
                records@ == self.records@.take(i as int),
            decreases self.records.len() - i,
        {
            records.push(self.records[i]);
            proof {
                assert(self.records@.take(i + 1) =~= self.records@.take(i as int).push(
                    self.records@[i as int],
                ));
            }
            i = i + 1;
        }
        proof {
            assert(self.records@.take(self.records.len() as int) =~= self.records@);
        }
        records
    }

    /// The number of records.
    pub fn len(&self) -> (count: usize)
        requires
            self.wf(),
        ensures
            count == self@.records.len(),
            count <= 256,
    {
        proof {
            lemma_distinct_is_bounded(self@);
        }
        self.records.len()
    }

    /// The velocity recorded for a sprint, if any.
    pub fn get_velocity(&self, sprint_number: u8) -> (velocity: Option<u8>)
        requires
            self.wf(),
        ensures
            velocity == self@.velocity_of(sprint_number),
    {
        let mut i: usize = 0;
        while i < self.records.len()
            invariant
                self.wf(),
                i <= self.records.len(),
                forall|j: int| 0 <= j < i ==> self.records@[j].sprint_number != sprint_number,
            decreases self.records.len() - i,
        {
            if self.records[i].sprint_number == sprint_number {
                proof {
                    lemma_position_is_unique(self@, sprint_number, i as int);
                }
                return Some(self.records[i].velocity);
            }
            i = i + 1;
        }
        None
    }

    /// Records the velocity of a sprint. The last sprint number rises to `sprint_number` where
    /// that is higher; a velocity recorded earlier for the same sprint is overwritten.
    pub fn record(&mut self, sprint_number: u8, velocity: u8)
        requires
            old(self).wf(),
        ensures
            final(self)@ == old(self)@.recorded(sprint_number, velocity),
            final(self).wf(),
            final(self)@.last_sprint_number == if old(self)@.last_sprint_number < sprint_number {
                sprint_number
            } else {
                old(self)@.last_sprint_number
            },
            final(self)@.velocity_of(sprint_number) == Some(velocity),
    {
        let ghost before = self@;
        let ghost after = before.recorded(sprint_number, velocity);
        proof {
            lemma_recorded_is_wf(before, sprint_number, velocity);
            lemma_record_then_read(before, sprint_number, velocity);
        }
        let record = SprintRecord { sprint_number, velocity };
        if self.last_sprint_number < sprint_number {
            self.last_sprint_number = sprint_number;
        }
        let mut i: usize = 0;
        while i < self.records.len()
            invariant
                before == old(self)@,
                before.wf(),
                after == before.recorded(sprint_number, velocity),
                after.wf(),
                after.velocity_of(sprint_number) == Some(velocity),
                record == (SprintRecord { sprint_number, velocity }),
                i <= self.records.len(),
                self.records@ == before.records,
                self.last_sprint_number == after.last_sprint_number,
                forall|j: int| 0 <= j < i ==> self.records@[j].sprint_number != sprint_number,
            decreases self.records.len() - i,
        {
            if self.records[i].sprint_number == sprint_number {
                proof {
                    lemma_position_is_unique(before, sprint_number, i as int);
                }
                self.records[i] = record;
                assert(self@.records =~= after.records);
                return ;
            }
            i = i + 1;
        }
        self.records.push(record);
        assert(self@.records =~= after.records);
    }
}

} // verus!
