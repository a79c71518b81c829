use growntrol::{evaluate_fan, ClimateReading, FanConfig, FanState};

fn config() -> FanConfig {
    FanConfig {
        temperature_on_tenths_c: 290,
        temperature_off_tenths_c: 270,
        humidity_on_tenths_pct: 750,
        humidity_off_tenths_pct: 680,
        normal_sample_minutes: 5,
        alert_sample_minutes: 1,
    }
}

fn reading(temperature_tenths_c: i16, humidity_tenths_pct: u16) -> ClimateReading {
    ClimateReading { temperature_tenths_c, humidity_tenths_pct }
}

#[test]
fn repeated_high_readings_do_not_repeat_relay_writes() {
    let first = evaluate_fan(FanState::Off, reading(291, 600), config());
    assert_eq!(first.desired_state, FanState::On);
    assert!(first.write_relay);

    let second = evaluate_fan(FanState::On, reading(300, 600), config());
    assert_eq!(second.desired_state, FanState::On);
    assert!(!second.write_relay);
}

#[test]
fn hysteresis_preserves_state_between_thresholds() {
    let decision = evaluate_fan(FanState::On, reading(280, 600), config());
    assert_eq!(decision.desired_state, FanState::On);
    assert!(!decision.write_relay);
}

#[test]
fn uses_one_minute_sampling_near_threshold_or_while_on() {
    let near = evaluate_fan(FanState::Off, reading(275, 600), config());
    assert_eq!(near.next_sample_minutes, 1);

    let stable = evaluate_fan(FanState::Off, reading(240, 550), config());
    assert_eq!(stable.next_sample_minutes, 5);
}

#[test]
fn humidity_alone_switches_fans_on_and_both_values_must_drop_to_switch_off() {
    let humid = evaluate_fan(FanState::Off, reading(200, 750), config());
    assert_eq!(humid.desired_state, FanState::On);
    assert!(humid.write_relay);
    assert_eq!(humid.next_sample_minutes, 1);

    let only_cool = evaluate_fan(FanState::On, reading(260, 700), config());
    assert_eq!(only_cool.desired_state, FanState::On);

    let both_low = evaluate_fan(FanState::On, reading(270, 680), config());
    assert_eq!(both_low.desired_state, FanState::Off);
    assert!(both_low.write_relay);
    assert_eq!(both_low.next_sample_minutes, 1);
}

#[test]
fn off_decision_repeated_writes_nothing() {
    let first = evaluate_fan(FanState::On, reading(200, 500), config());
    assert_eq!(first.desired_state, FanState::Off);
    assert!(first.write_relay);
    assert_eq!(first.next_sample_minutes, 5);
    let second = evaluate_fan(first.desired_state, reading(200, 500), config());
    assert!(!second.write_relay);
}
