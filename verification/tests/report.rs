use trello_velocity_calculator::ledger::SprintLedger;
use trello_velocity_calculator::points::Card;
use trello_velocity_calculator::recorder::record_auto;
use trello_velocity_calculator::report::{
    chart_title, current_snapshot, get_current_running_velocity, get_current_velocities_as_array,
    get_docu_text, get_running_velocities_as_array, history_with_running_average,
    max_velocity_plus_one, plan_chart, ReportError, SprintVelocityInformation,
    VelocityInformation,
};

fn card(title: &str) -> Card {
    Card { id: String::from("c"), title: String::from(title) }
}

fn ledger_of(velocities: &[u8]) -> SprintLedger {
    let mut ledger = SprintLedger::new();
    let mut n: u8 = 1;
    for v in velocities {
        ledger.record(n, *v);
        n += 1;
    }
    ledger
}

fn running(point: &SprintVelocityInformation) -> f32 {
    point.cumulative_velocity as f32 / point.sprint_count as f32
}

#[test]
fn running_velocity_is_the_mean_so_far() {
    let history = history_with_running_average(&ledger_of(&[5, 3, 8]));
    assert_eq!(history.len(), 3);
    assert_eq!(
        history[0],
        SprintVelocityInformation {
            sprint_number: 1,
            current_velocity: 5,
            cumulative_velocity: 5,
            sprint_count: 1
        }
    );
    assert_eq!(
        history[1],
        SprintVelocityInformation {
            sprint_number: 2,
            current_velocity: 3,
            cumulative_velocity: 8,
            sprint_count: 2
        }
    );
    assert_eq!(
        history[2],
        SprintVelocityInformation {
            sprint_number: 3,
            current_velocity: 8,
            cumulative_velocity: 16,
            sprint_count: 3
        }
    );
    assert_eq!(running(&history[0]), 5.0);
    assert_eq!(running(&history[1]), 4.0);
    assert_eq!(running(&history[2]), 16.0f32 / 3.0f32);
    assert!((running(&history[2]) - 5.33).abs() < 0.01);
}

#[test]
fn running_velocity_follows_enumeration_order() {
    let mut ledger = SprintLedger::new();
    ledger.record(3, 10);
    ledger.record(1, 20);
    let history = history_with_running_average(&ledger);
    assert_eq!(history[0].sprint_number, 3);
    assert_eq!(history[0].cumulative_velocity, 10);
    assert_eq!(history[1].sprint_number, 1);
    assert_eq!(history[1].cumulative_velocity, 30);
    assert_eq!(history[1].sprint_count, 2);
}

#[test]
fn history_of_empty_ledger_is_empty() {
    assert_eq!(history_with_running_average(&SprintLedger::new()), Vec::new());
}

#[test]
fn history_of_full_ledger_does_not_overflow() {
    let mut ledger = SprintLedger::new();
    let mut n: u8 = 0;
    loop {
        ledger.record(n, 255);
        if n == 255 {
            break;
        }
        n += 1;
    }
    let history = history_with_running_average(&ledger);
    assert_eq!(history.len(), 256);
    assert_eq!(history[255].cumulative_velocity, 65280);
    assert_eq!(history[255].sprint_count, 256);
    assert_eq!(history[255].running_velocity_floor(), 255);
}

#[test]
fn end_to_end_running_velocities() {
    let mut ledger = SprintLedger::new();
    record_auto(&mut ledger, 7, true);
    record_auto(&mut ledger, 4, true);
    let history = history_with_running_average(&ledger);
    assert_eq!(history.len(), 2);
    assert_eq!(running(&history[0]), 7.0);
    assert_eq!(running(&history[1]), 5.5);
}

#[test]
fn max_velocity_plus_one_of_history() {
    let history = history_with_running_average(&ledger_of(&[5, 3, 8]));
    assert_eq!(max_velocity_plus_one(&history), Ok(9));
    let top = history_with_running_average(&ledger_of(&[255]));
    assert_eq!(max_velocity_plus_one(&top), Ok(256));
    let zero = history_with_running_average(&ledger_of(&[0, 0]));
    assert_eq!(max_velocity_plus_one(&zero), Ok(1));
}

#[test]
fn max_velocity_plus_one_of_empty_history_fails() {
    assert_eq!(max_velocity_plus_one(&Vec::new()), Err(ReportError::EmptyHistory));
}

#[test]
fn velocities_as_arrays() {
    let history = history_with_running_average(&ledger_of(&[5, 3, 8]));
    assert_eq!(get_current_velocities_as_array(&history), vec![(1, 5), (2, 3), (3, 8)]);
    assert_eq!(get_running_velocities_as_array(&history), vec![(1, 5), (2, 4), (3, 5)]);
    assert_eq!(get_current_velocities_as_array(&Vec::new()), Vec::new());
}

#[test]
fn current_running_velocity_is_the_last_one() {
    let history = history_with_running_average(&ledger_of(&[5, 3, 8]));
    assert_eq!(get_current_running_velocity(&history), Ok(5));
    let other = history_with_running_average(&ledger_of(&[7, 4]));
    assert_eq!(get_current_running_velocity(&other), Ok(5));
    assert_eq!(get_current_running_velocity(&Vec::new()), Err(ReportError::EmptyHistory));
}

#[test]
fn current_snapshot_sums_each_list() {
    let backlog = vec![card("(8) a"), card("(13*) b"), card("later")];
    let doing = vec![card("(3) c")];
    let done: Vec<Card> = Vec::new();
    assert_eq!(
        current_snapshot(&backlog, &doing, &done),
        VelocityInformation { points_todo: 21, points_doing: 3, points_done: 0 }
    );
}

#[test]
fn chart_title_names_the_velocity() {
    assert_eq!(chart_title(5), "Team velocity (5)");
    assert_eq!(chart_title(42), "Team velocity (42)");
    assert_eq!(chart_title(250), "Team velocity (250)");
}

#[test]
fn plan_chart_of_history() {
    let history = history_with_running_average(&ledger_of(&[5, 3, 8]));
    let plan = plan_chart(&history, String::from("small print")).unwrap();
    assert_eq!(plan.title, "Team velocity (5)");
    assert_eq!(plan.caption, "small print");
    assert_eq!(plan.sprint_axis_end, 3);
    assert_eq!(plan.velocity_axis_end, 9);
    assert_eq!(plan.bars, vec![(1, 5), (2, 3), (3, 8)]);
}

#[test]
fn plan_chart_of_empty_history_fails() {
    assert!(matches!(plan_chart(&Vec::new(), String::new()), Err(ReportError::EmptyHistory)));
}

#[test]
fn docu_text_names_the_version() {
    assert_eq!(
        get_docu_text("1", "2", "3", ""),
        "Generated by https://github.com/flying7eleven/trello-velocity-calculator (1.2.3)"
    );
    assert_eq!(
        get_docu_text("0", "10", "0", "-beta.1"),
        "Generated by https://github.com/flying7eleven/trello-velocity-calculator (0.10.0-beta.1)"
    );
}

#[test]
fn well_formed_points_are_recognised() {
    let good = SprintVelocityInformation {
        sprint_number: 1,
        current_velocity: 255,
        cumulative_velocity: 510,
        sprint_count: 2,
    };
    assert!(good.is_well_formed());
    assert_eq!(good.running_velocity_floor(), 255);
    let no_count = SprintVelocityInformation { sprint_count: 0, cumulative_velocity: 0, ..good };
    assert!(!no_count.is_well_formed());
    let too_much = SprintVelocityInformation { cumulative_velocity: 511, ..good };
    assert!(!too_much.is_well_formed());
    for point in history_with_running_average(&ledger_of(&[5, 3, 8, 255, 0])) {
        assert!(point.is_well_formed());
    }
}
