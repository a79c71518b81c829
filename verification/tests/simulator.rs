use growntrol::{
    CommandEnvelope, CommandRejection, DeviceCommand, IrrigationStatus, OverrideMode, OverrideTarget,
    SimulatorState,
};

#[test]
fn simulator_applies_commands() {
    let mut state = SimulatorState::default();
    assert!(state.lights_on);
    state.apply(&DeviceCommand::SetOverride {
        target: OverrideTarget::Fans,
        mode: OverrideMode::On,
        duration_seconds: Some(1800),
    });
    assert!(state.fans_on);
    state.apply(&DeviceCommand::SetOverride {
        target: OverrideTarget::Lights,
        mode: OverrideMode::Auto,
        duration_seconds: None,
    });
    assert!(!state.lights_on);
    state.apply(&DeviceCommand::StartIrrigationCycle);
    assert_eq!(state.irrigation, IrrigationStatus::Pumping);
    state.apply(&DeviceCommand::RequestSnapshot);
    assert_eq!(state.irrigation, IrrigationStatus::Pumping);
    state.apply(&DeviceCommand::CancelIrrigation);
    assert_eq!(state.irrigation, IrrigationStatus::Idle);
}

#[test]
fn simulator_refuses_other_schema_versions() {
    let mut state = SimulatorState::default();
    let envelope = CommandEnvelope {
        schema_version: 2,
        command_id: "cmd-1".to_owned(),
        issued_at_unix_ms: 1_700_000_000_000,
        command: DeviceCommand::StartIrrigationCycle,
    };
    assert_eq!(state.accept(&envelope), Err(CommandRejection::UnsupportedSchemaVersion));
    assert_eq!(state.irrigation, IrrigationStatus::Idle);
    let envelope = CommandEnvelope { schema_version: 1, ..envelope };
    assert_eq!(state.accept(&envelope), Ok(()));
    assert_eq!(state.irrigation, IrrigationStatus::Pumping);
}

#[test]
fn simulator_samples_count_up() {
    let mut state = SimulatorState::default();
    let first = state.next_sample();
    assert_eq!(first.sequence, 1);
    assert_eq!(first.uptime_seconds, 5);
    assert_eq!(first.phase, 1);
    assert_eq!(first.soil_moisture_pct, 39);
    assert!(!first.pump_on);
    for _ in 0..10 {
        state.next_sample();
    }
    let twelfth = state.next_sample();
    assert_eq!(twelfth.sequence, 12);
    assert_eq!(twelfth.phase, 2);
    assert_eq!(twelfth.soil_moisture_pct, 40);
    assert_eq!(twelfth.uptime_seconds, 60);
}
