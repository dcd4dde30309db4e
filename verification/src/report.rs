//! What is shown of the board and of the ledger: the points per list, the history of
//! sprints with its running velocity, and the figures that a chart of it needs.
use crate::ledger::{SprintLedger, SprintRecord};
use crate::points::{aggregate, total_points, Card};
use crate::text::{append_decimal, decimal_text};
use vstd::prelude::*;
use vstd::string::*;

verus! {

/// Why a report could not be made.
#[derive(Clone, Copy, Debug, PartialEq, Eq, Structural)]
pub enum ReportError {
    /// The history holds no sprint, so it has no highest velocity and no running velocity.
    EmptyHistory,
}

/// The story points of the three lists of the board.
#[derive(Clone, Copy, Debug, PartialEq, Eq, Structural)]
pub struct VelocityInformation {
    pub points_todo: u8,
    pub points_doing: u8,
    pub points_done: u8,
}

/// A sum of points as a list shows it: held at 255.
pub open spec fn capped(total: nat) -> u8 {
    if total > 255 {
        255u8
    } else {
        total as u8
    }
}

/// The points of the backlog, of the cards in work and of the finished cards, each list
/// summed by itself.
pub fn current_snapshot(backlog_cards: &Vec<Card>, doing_cards: &Vec<Card>, done_cards: &Vec<Card>)
    -> (snapshot: VelocityInformation)
    ensures
        snapshot.points_todo == capped(total_points(backlog_cards@)),
        snapshot.points_doing == capped(total_points(doing_cards@)),
        snapshot.points_done == capped(total_points(done_cards@)),
{
    VelocityInformation {
        points_todo: aggregate(backlog_cards),
        points_doing: aggregate(doing_cards),
        points_done: aggregate(done_cards),
    }
}

/// One sprint of the history. Its running velocity is the mean of the velocities up to and
/// including it, kept as the exact fraction `cumulative_velocity / sprint_count`.
#[derive(Clone, Copy, Debug, PartialEq, Eq, Structural)]
pub struct SprintVelocityInformation {
    pub sprint_number: u8,
    pub current_velocity: u8,
    pub cumulative_velocity: u32,
    pub sprint_count: u32,
}

impl SprintVelocityInformation {
    /// The fraction is one of `sprint_count` velocities: it has a denominator, and its
    /// numerator is at most 255 for each of them.
    pub open spec fn wf(self) -> bool {
        1 <= self.sprint_count && self.cumulative_velocity <= 255 * self.sprint_count
    }

    /// Whether the fraction is one of `sprint_count` velocities.
    pub fn is_well_formed(&self) -> (valid: bool)
        ensures
            valid == self.wf(),
    {
        1 <= self.sprint_count && self.cumulative_velocity as u64 <= 255 * (
        self.sprint_count as u64)
    }

    /// The running velocity without its fractional part.
    pub open spec fn whole_running_velocity(self) -> int {
        self.cumulative_velocity as int / self.sprint_count as int
    }

    /// The running velocity without its fractional part.
    pub fn running_velocity_floor(&self) -> (whole: u8)
        requires
            self.wf(),
        ensures
            whole == self.whole_running_velocity(),
    {
        let whole: u32 = self.cumulative_velocity / self.sprint_count;
        assert(whole <= 255) by (nonlinear_arith)
            requires
                whole == self.cumulative_velocity / self.sprint_count,
                1 <= self.sprint_count,
                self.cumulative_velocity <= 255 * self.sprint_count,
        ;
        whole as u8
    }
}

/// Every point of the history is well formed.
pub open spec fn history_wf(history: Seq<SprintVelocityInformation>) -> bool {
    forall|i: int| 0 <= i < history.len() ==> (#[trigger] history[i]).wf()
}

/// The sum of the velocities of all records.
pub open spec fn velocity_sum(records: Seq<SprintRecord>) -> nat
    decreases records.len(),
{
    if records.len() == 0 {
        0
    } else {
        velocity_sum(records.drop_last()) + records.last().velocity as nat
    }
}

/// The history point of the record at position `i`: the record itself, the sum of the
/// velocities up to and including it, and how many those are.
pub open spec fn running_point(records: Seq<SprintRecord>, i: int) -> SprintVelocityInformation {
    SprintVelocityInformation {
        sprint_number: records[i].sprint_number,
        current_velocity: records[i].velocity,
        cumulative_velocity: velocity_sum(records.take(i + 1)) as u32,
        sprint_count: (i + 1) as u32,
    }
}

/// The history of the ledger, in the order in which it enumerates its records, each sprint
/// with the running velocity up to it.
pub fn history_with_running_average(ledger: &SprintLedger) -> (history: Vec<
    SprintVelocityInformation,
>)
    requires
        ledger.wf(),
    ensures
        history@.len() == ledger@.records.len(),
        forall|i: int|
            0 <= i < history@.len() ==> #[trigger] history@[i] == running_point(ledger@.records, i),
        history_wf(history@),
{
    let count = ledger.len();
    let records = ledger.get_all_records();
    let mut history: Vec<SprintVelocityInformation> = Vec::new();
    let mut sum: u32 = 0;
    let mut i: usize = 0;
    while i < count
        invariant
            count == records@.len(),
            count <= 256,
            i <= count,
            history@.len() == i,
            sum == velocity_sum(records@.take(i as int)),
            sum <= 255 * i,
            forall|j: int| 0 <= j < i ==> #[trigger] history@[j] == running_point(records@, j),
            history_wf(history@),
        decreases count - i,
    {
        let record = records[i];
        proof {
            assert(records@.take(i + 1).drop_last() =~= records@.take(i as int));
        }
        sum = sum + record.velocity as u32;
        history.push(
            SprintVelocityInformation {
                sprint_number: record.sprint_number,
                current_velocity: record.velocity,
                cumulative_velocity: sum,
                sprint_count: (i + 1) as u32,
            },
        );
        i = i + 1;
    }
    history
}

/// Whether `end` is one more than the highest velocity of the history: above every velocity,
/// and just above one of them.
pub open spec fn is_one_above_highest(history: Seq<SprintVelocityInformation>, end: u32) -> bool {
    &&& forall|i: int| 0 <= i < history.len() ==> (#[trigger] history[i]).current_velocity < end
    &&& exists|i: int| 0 <= i < history.len() && history[i].current_velocity + 1 == end
}

/// One more than the highest velocity of the history: the end of a chart's velocity axis.
/// An empty history has no highest velocity.
pub fn max_velocity_plus_one(history: &Vec<SprintVelocityInformation>) -> (end: Result<
    u32,
    ReportError,
>)
    ensures
        history@.len() == 0 <==> end == Err::<u32, ReportError>(ReportError::EmptyHistory),
        history@.len() > 0 ==> end is Ok && is_one_above_highest(history@, end->Ok_0),
{
    if history.len() == 0 {
        return Err(ReportError::EmptyHistory);
    }
    let mut highest: u8 = history[0].current_velocity;
    let mut i: usize = 1;
    while i < history.len()
        invariant
            1 <= i <= history.len(),
            forall|j: int| 0 <= j < i ==> (#[trigger] history@[j]).current_velocity <= highest,
            exists|j: int| 0 <= j < i && history@[j].current_velocity == highest,
        decreases history.len() - i,
    {
        if history[i].current_velocity > highest {
            highest = history[i].current_velocity;
        }
        i = i + 1;
    }
    Ok(highest as u32 + 1)
}

/// Each sprint's number with its velocity: the bars of a chart.
pub fn get_current_velocities_as_array(history: &Vec<SprintVelocityInformation>) -> (pairs: Vec<
    (u32, u32),
>)
    ensures
        pairs@.len() == history@.len(),
        forall|i: int|
            0 <= i < pairs@.len() ==> #[trigger] pairs@[i] == (
                history@[i].sprint_number as u32,
                history@[i].current_velocity as u32,
            ),
{
    let mut pairs: Vec<(u32, u32)> = Vec::new();
    let mut i: usize = 0;
    while i < history.len()
        invariant
            i <= history.len(),
            pairs@.len() == i,
            forall|j: int|
                0 <= j < i ==> #[trigger] pairs@[j] == (
                    history@[j].sprint_number as u32,
                    history@[j].current_velocity as u32,
                ),
        decreases history.len() - i,
    {
        pairs.push((history[i].sprint_number as u32, history[i].current_velocity as u32));
        i = i + 1;
    }
    pairs
}

/// Each sprint's number with the running velocity up to it, without its fractional part.
pub fn get_running_velocities_as_array(history: &Vec<SprintVelocityInformation>) -> (pairs: Vec<
    (u32, u32),
>)
    requires
        history_wf(history@),
    ensures
        pairs@.len() == history@.len(),
        forall|i: int|
            0 <= i < pairs@.len() ==> #[trigger] pairs@[i] == (
                history@[i].sprint_number as u32,
                history@[i].whole_running_velocity() as u32,
            ),
{
    let mut pairs: Vec<(u32, u32)> = Vec::new();
    let mut i: usize = 0;
    while i < history.len()
        invariant
            history_wf(history@),
            i <= history.len(),
            pairs@.len() == i,
            forall|j: int|
                0 <= j < i ==> #[trigger] pairs@[j] == (
                    history@[j].sprint_number as u32,
                    history@[j].whole_running_velocity() as u32,
                ),
        decreases history.len() - i,
    {
        let whole: u8 = history[i].running_velocity_floor();
        pairs.push((history[i].sprint_number as u32, whole as u32));
        i = i + 1;
    }
    pairs
}

/// The running velocity over the whole history, without its fractional part. An empty
/// history has none.
pub fn get_current_running_velocity(history: &Vec<SprintVelocityInformation>) -> (velocity: Result<
    u32,
    ReportError,
>)
    requires
        history_wf(history@),
    ensures
        history@.len() == 0 ==> velocity == Err::<u32, ReportError>(ReportError::EmptyHistory),
        history@.len() > 0 ==> velocity == Ok::<u32, ReportError>(
            history@.last().whole_running_velocity() as u32,
        ),
{
    if history.len() == 0 {
        return Err(ReportError::EmptyHistory);
    }
    let whole: u8 = history[history.len() - 1].running_velocity_floor();
    Ok(whole as u32)
}

/// The title of the chart of a history whose running velocity is `velocity`.
pub fn chart_title(velocity: u8) -> (title: String)
    ensures
        title@ == "Team velocity ("@ + decimal_text(velocity) + ")"@,
{
    let mut title = String::from_str("Team velocity (");
    append_decimal(&mut title, velocity);
    title.append(")");
    title
}

/// What a chart of the history shows.
pub struct ChartPlan {
    /// The title, which names the running velocity over the whole history.
    pub title: String,
    /// The small print below the title.
    pub caption: String,
    /// The sprint axis starts at 1 and ends before this.
    pub sprint_axis_end: u32,
    /// The velocity axis starts at 0 and ends before this.
    pub velocity_axis_end: u32,
    /// One bar for each sprint: its number and its velocity.
    pub bars: Vec<(u32, u32)>,
}

/// The figures of the chart of a history. An empty history has no chart.
pub fn plan_chart(history: &Vec<SprintVelocityInformation>, caption: String) -> (plan: Result<
    ChartPlan,
    ReportError,
>)
    requires
        history_wf(history@),
        history@.len() <= u32::MAX,
    ensures
        history@.len() == 0 ==> plan is Err && plan->Err_0 == ReportError::EmptyHistory,
        history@.len() > 0 ==> plan is Ok && {
            let chart = plan->Ok_0;
            &&& chart.title@ == "Team velocity ("@ + decimal_text(
                history@.last().whole_running_velocity() as u8,
            ) + ")"@
            &&& chart.caption == caption
            &&& chart.sprint_axis_end == history@.len()
            &&& is_one_above_highest(history@, chart.velocity_axis_end)
            &&& chart.bars@.len() == history@.len()
            &&& forall|i: int|
                0 <= i < history@.len() ==> #[trigger] chart.bars@[i] == (
                    history@[i].sprint_number as u32,
                    history@[i].current_velocity as u32,
                )
        },
{
    let velocity_axis_end: u32 = match max_velocity_plus_one(history) {
        Ok(end) => end,
        Err(error) => {
            return Err(error);
        },
    };
    let running: u8 = history[history.len() - 1].running_velocity_floor();
    Ok(
        ChartPlan {
            title: chart_title(running),
            caption,
            sprint_axis_end: history.len() as u32,
            velocity_axis_end,
            bars: get_current_velocities_as_array(history),
        },
    )
}

/// The line that says which program, in which version, made a chart. The version comes in
/// its parts: major, minor, patch, and what follows the patch.
pub fn get_docu_text(major: &str, minor: &str, patch: &str, pre_release: &str) -> (text: String)
    ensures
        text@ == "Generated by https://github.com/flying7eleven/trello-velocity-calculator ("@
            + major@ + "."@ + minor@ + "."@ + patch@ + pre_release@ + ")"@,
{
    let mut text = String::from_str(
        "Generated by https://github.com/flying7eleven/trello-velocity-calculator (",
    );
    text.append(major);
    text.append(".");
    text.append(minor);
    text.append(".");
    text.append(patch);
    text.append(pre_release);
    text.append(")");
    text
}

} // verus!
