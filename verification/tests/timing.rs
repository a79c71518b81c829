use growntrol::{seconds_until_minute, SECONDS_PER_DAY};

#[test]
fn calculates_transition_later_the_same_day() {
    assert_eq!(seconds_until_minute(10, 30, 0, 14 * 60), 3 * 3600 + 30 * 60);
}

#[test]
fn calculates_transition_across_midnight() {
    assert_eq!(seconds_until_minute(23, 0, 0, 2 * 60), 3 * 3600);
}

#[test]
fn exact_transition_schedules_the_next_day_not_immediate_repetition() {
    assert_eq!(seconds_until_minute(14, 0, 0, 14 * 60), SECONDS_PER_DAY);
}

#[test]
fn out_of_range_fields_are_reduced_and_seconds_count() {
    assert_eq!(seconds_until_minute(25, 61, 30, 2 * 60), 7200 - 3690);
    assert_eq!(seconds_until_minute(0, 0, 1, 1440), SECONDS_PER_DAY - 1);
    assert_eq!(SECONDS_PER_DAY, 86_400);
}
