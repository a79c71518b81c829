//! Ventilation control with hysteresis.
use vstd::prelude::*;

use crate::config::FanConfig;
use crate::state::{ClimateReading, FanState};

verus! {

/// The fan state wanted after a reading, whether the relay must be written,
/// and the minutes until the next climate sample.
#[derive(Debug, Clone, Copy, PartialEq, Eq, Structural)]
pub struct FanDecision {
    pub desired_state: FanState,
    pub write_relay: bool,
    pub next_sample_minutes: u16,
}

/// The reading reaches a switch-on threshold.
pub open spec fn above_on_threshold(reading: ClimateReading, config: FanConfig) -> bool {
    reading.temperature_tenths_c >= config.temperature_on_tenths_c
        || reading.humidity_tenths_pct >= config.humidity_on_tenths_pct
}

/// The reading is at or below both switch-off thresholds.
pub open spec fn below_off_thresholds(reading: ClimateReading, config: FanConfig) -> bool {
    reading.temperature_tenths_c <= config.temperature_off_tenths_c
        && reading.humidity_tenths_pct <= config.humidity_off_tenths_pct
}

/// The reading is at or above a switch-off threshold, so a change may be
/// near.
pub open spec fn near_threshold(reading: ClimateReading, config: FanConfig) -> bool {
    reading.temperature_tenths_c >= config.temperature_off_tenths_c
        || reading.humidity_tenths_pct >= config.humidity_off_tenths_pct
}

/// The minutes until the next climate sample: the alert interval while the
/// fans run or a value is near a threshold, the normal interval otherwise.
pub open spec fn sample_interval(desired: FanState, reading: ClimateReading, config: FanConfig) -> u16 {
    if desired == FanState::On || near_threshold(reading, config) {
        config.alert_sample_minutes
    } else {
        config.normal_sample_minutes
    }
}

/// Hysteresis: fans switch on at an on-threshold, switch off once both
/// values fall to their off-thresholds, and otherwise keep their state.
pub open spec fn desired_fan_state(current: FanState, reading: ClimateReading, config: FanConfig) -> FanState {
    match current {
        FanState::Off => if above_on_threshold(reading, config) {
            FanState::On
        } else {
            FanState::Off
        },
        FanState::On => if below_off_thresholds(reading, config) {
            FanState::Off
        } else {
            FanState::On
        },
    }
}

/// Decides the fan state for a valid climate reading: the relay is written
/// only when the state changes, and the next sample comes after the alert
/// interval while fans run or a value is near a threshold, after the normal
/// interval otherwise.
pub fn evaluate_fan(current: FanState, reading: ClimateReading, config: FanConfig) -> (decision: FanDecision)
    ensures
        decision.desired_state == desired_fan_state(current, reading, config),
        decision.write_relay == (decision.desired_state != current),
        decision.next_sample_minutes == sample_interval(decision.desired_state, reading, config),
        reading.temperature_tenths_c >= config.temperature_off_tenths_c
            || reading.humidity_tenths_pct >= config.humidity_off_tenths_pct
            ==> decision.next_sample_minutes == config.alert_sample_minutes,
{
    let desired_state = match current {
        FanState::Off => {
            if reading.temperature_tenths_c >= config.temperature_on_tenths_c
                || reading.humidity_tenths_pct >= config.humidity_on_tenths_pct {
                FanState::On
            } else {
                current
            }
        },
        FanState::On => {
            if reading.temperature_tenths_c <= config.temperature_off_tenths_c
                && reading.humidity_tenths_pct <= config.humidity_off_tenths_pct {
                FanState::Off
            } else {
                current
            }
        },
    };
    let near_threshold = reading.temperature_tenths_c >= config.temperature_off_tenths_c
        || reading.humidity_tenths_pct >= config.humidity_off_tenths_pct;
    let next_sample_minutes = if desired_state == FanState::On || near_threshold {
        config.alert_sample_minutes
    } else {
        config.normal_sample_minutes
    };
    FanDecision { desired_state, write_relay: desired_state != current, next_sample_minutes }
}

/// INV-003 for the fans: with proper hysteresis (each off-threshold below its
/// on-threshold), deciding again on the same reading from the state just
/// decided keeps that state, so a repeated reading never writes the relay
/// a second time.
pub proof fn lemma_repeated_reading_writes_once(
    current: FanState,
    reading: ClimateReading,
    config: FanConfig,
)
    requires
        config.temperature_off_tenths_c < config.temperature_on_tenths_c,
        config.humidity_off_tenths_pct < config.humidity_on_tenths_pct,
    ensures
        desired_fan_state(desired_fan_state(current, reading, config), reading, config)
            == desired_fan_state(current, reading, config),
{
}

/// A reading inside the hysteresis band (below both on-thresholds, above an
/// off-threshold) keeps whatever state the fans are in.
pub proof fn lemma_band_preserves_state(current: FanState, reading: ClimateReading, config: FanConfig)
    requires
        !above_on_threshold(reading, config),
        !below_off_thresholds(reading, config),
    ensures
        desired_fan_state(current, reading, config) == current,
{
}

/// The sampling rule over every reading: a temperature or a humidity at or
/// above its off-threshold, or running fans, select the alert interval; the
/// normal interval comes exactly when the fans stay off and both values are
/// below their off-thresholds.
pub proof fn lemma_sampling_follows_thresholds(
    current: FanState,
    reading: ClimateReading,
    config: FanConfig,
)
    ensures
        reading.temperature_tenths_c >= config.temperature_off_tenths_c
            || reading.humidity_tenths_pct >= config.humidity_off_tenths_pct
            ==> sample_interval(desired_fan_state(current, reading, config), reading, config)
            == config.alert_sample_minutes,
        desired_fan_state(current, reading, config) == FanState::On ==> sample_interval(
            FanState::On,
            reading,
            config,
        ) == config.alert_sample_minutes,
        desired_fan_state(current, reading, config) == FanState::Off
            && reading.temperature_tenths_c < config.temperature_off_tenths_c
            && reading.humidity_tenths_pct < config.humidity_off_tenths_pct ==> sample_interval(
            FanState::Off,
            reading,
            config,
        ) == config.normal_sample_minutes,
{
}

/// The fan switching rule over every reading: fans that are off switch on
/// exactly when the temperature or the humidity reaches its on-threshold;
/// fans that run switch off exactly when both values are at or below their
/// off-thresholds.
pub proof fn lemma_fan_switching_follows_thresholds(reading: ClimateReading, config: FanConfig)
    ensures
        (desired_fan_state(FanState::Off, reading, config) == FanState::On) <==> (
        reading.temperature_tenths_c >= config.temperature_on_tenths_c
            || reading.humidity_tenths_pct >= config.humidity_on_tenths_pct),
        (desired_fan_state(FanState::On, reading, config) == FanState::Off) <==> (
        reading.temperature_tenths_c <= config.temperature_off_tenths_c
            && reading.humidity_tenths_pct <= config.humidity_off_tenths_pct),
{
}

} // verus!
