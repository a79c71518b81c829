use growntrol::{evaluate_lighting, LightingConfig};

fn schedule() -> LightingConfig {
    LightingConfig {
        start_minute: 20 * 60,
        duration_minutes: 18 * 60,
    }
}

#[test]
fn cycle_crosses_midnight() {
    assert!(evaluate_lighting(23 * 60, schedule()).lights_on);
    assert!(evaluate_lighting(8 * 60, schedule()).lights_on);
    assert!(!evaluate_lighting(15 * 60, schedule()).lights_on);
}

#[test]
fn turns_off_exactly_at_cycle_end() {
    assert!(evaluate_lighting(13 * 60 + 59, schedule()).lights_on);
    assert!(!evaluate_lighting(14 * 60, schedule()).lights_on);
}

#[test]
fn schedules_only_the_next_transition() {
    let decision = evaluate_lighting(10 * 60 + 30, schedule());
    assert!(decision.lights_on);
    assert_eq!(decision.next_transition_minute, 14 * 60);
}

#[test]
fn off_period_announces_the_start_and_full_day_window_never_ends() {
    let off = evaluate_lighting(15 * 60, schedule());
    assert_eq!(off.next_transition_minute, 20 * 60);
    let all_day = LightingConfig { start_minute: 6 * 60, duration_minutes: 2000 };
    assert!(evaluate_lighting(5 * 60, all_day).lights_on);
    assert!(evaluate_lighting(6 * 60, all_day).lights_on);
    let never = LightingConfig { start_minute: 6 * 60, duration_minutes: 0 };
    assert!(!evaluate_lighting(6 * 60, never).lights_on);
    assert!(evaluate_lighting(20 * 60 + 1440, schedule()).lights_on);
}
