use growntrol::{
    inactive_level, output_drive_high, plan_output_write, pump_on_after_watchdog,
    pump_watchdog_response, tank_state_from_float, tank_state_or_fault, PumpWatchdogResponse,
    TankState,
};

#[test]
fn active_low_relays_are_driven_low_to_switch_on() {
    assert!(!output_drive_high(true, true));
    assert!(output_drive_high(false, true));
    assert!(output_drive_high(true, false));
    assert_eq!(inactive_level(true), 1);
    assert_eq!(inactive_level(false), 0);
}

#[test]
fn repeated_output_requests_write_nothing() {
    assert_eq!(plan_output_write(true, true, true), None);
    assert_eq!(plan_output_write(false, false, false), None);
    assert_eq!(plan_output_write(false, true, true), Some(false));
    assert_eq!(plan_output_write(true, false, true), Some(true));
    assert_eq!(plan_output_write(false, true, false), Some(true));
}

#[test]
fn float_closed_to_ground_means_water() {
    assert_eq!(tank_state_from_float(true, true), TankState::WaterAvailable);
    assert_eq!(tank_state_from_float(false, true), TankState::WaterLow);
    assert_eq!(tank_state_from_float(false, false), TankState::WaterAvailable);
    assert_eq!(tank_state_from_float(true, false), TankState::WaterLow);
}

#[test]
fn default_outputs_are_all_off() {
    let outputs = growntrol::OutputState::default();
    assert!(!outputs.lights_on);
    assert!(!outputs.pump_on);
    assert_eq!(outputs.fans, growntrol::FanState::Off);
}

#[test]
fn pump_watchdog_skips_when_pump_is_off() {
    assert_eq!(pump_watchdog_response(false, true), None);
    assert_eq!(pump_watchdog_response(false, false), None);
}

#[test]
fn pump_watchdog_drives_inactive_level_and_notifies() {
    assert_eq!(
        pump_watchdog_response(true, true),
        Some(PumpWatchdogResponse {
            drive_level: 1,
            notify_runtime: true
        })
    );
    assert_eq!(
        pump_watchdog_response(true, false),
        Some(PumpWatchdogResponse {
            drive_level: 0,
            notify_runtime: true
        })
    );
}

#[test]
fn pump_is_marked_off_only_after_a_successful_watchdog_write() {
    assert!(!pump_on_after_watchdog(true, true));
    assert!(pump_on_after_watchdog(true, false));
    assert!(!pump_on_after_watchdog(false, true));
    assert!(!pump_on_after_watchdog(false, false));
}

#[test]
fn failed_tank_read_counts_as_sensor_fault() {
    assert_eq!(tank_state_or_fault(None), TankState::SensorFault);
    assert_eq!(
        tank_state_or_fault(Some(TankState::WaterAvailable)),
        TankState::WaterAvailable
    );
    assert_eq!(tank_state_or_fault(Some(TankState::WaterLow)), TankState::WaterLow);
}
