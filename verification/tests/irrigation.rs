use growntrol::{
    IrrigationAction, IrrigationBlockReason, IrrigationConfig, IrrigationEvent, IrrigationMachine,
    IrrigationState, ScheduledEventKind, TankState,
};

fn config() -> IrrigationConfig {
    IrrigationConfig {
        start_below_pct: 30,
        target_pct: 42,
        pump_pulse_seconds: 8,
        pump_maximum_seconds: 15,
        absorption_minutes: 5,
        max_pulses_per_cycle: 3,
        only_when_lights_off: true,
    }
}

#[test]
fn dry_soil_after_lights_off_requests_tank_measurement() {
    let mut machine = IrrigationMachine::default();
    let decision = machine.handle(
        IrrigationEvent::LightsTurnedOff {
            soil_moisture_pct: Some(20),
        },
        config(),
    );

    assert_eq!(decision.state, IrrigationState::CheckingTank);
    assert_eq!(decision.actions, vec![IrrigationAction::MeasureTank]);
}

#[test]
fn tank_low_never_starts_pump() {
    let mut machine = IrrigationMachine::default();
    machine.handle(
        IrrigationEvent::LightsTurnedOff {
            soil_moisture_pct: Some(20),
        },
        config(),
    );
    let decision = machine.handle(
        IrrigationEvent::TankChecked(TankState::WaterLow),
        config(),
    );

    assert_eq!(
        decision.state,
        IrrigationState::Blocked(IrrigationBlockReason::TankLow)
    );
    assert!(!decision.actions.contains(&IrrigationAction::SetPump(true)));
}

#[test]
fn pump_pulse_is_bounded_and_absorption_is_five_minutes() {
    let mut machine = IrrigationMachine::default();
    machine.handle(
        IrrigationEvent::LightsTurnedOff {
            soil_moisture_pct: Some(20),
        },
        config(),
    );
    let start = machine.handle(
        IrrigationEvent::TankChecked(TankState::WaterAvailable),
        config(),
    );
    assert!(start.actions.contains(&IrrigationAction::SetPump(true)));
    assert!(start.actions.contains(&IrrigationAction::Schedule {
        after_seconds: 8,
        kind: ScheduledEventKind::PumpPulseFinished,
    }));

    let finish = machine.handle(IrrigationEvent::PumpPulseFinished, config());
    assert!(finish.actions.contains(&IrrigationAction::SetPump(false)));
    assert!(finish.actions.contains(&IrrigationAction::MeasureTank));
    assert!(finish.actions.contains(&IrrigationAction::Schedule {
        after_seconds: 300,
        kind: ScheduledEventKind::AbsorptionFinished,
    }));
}

#[test]
fn lights_turning_on_stops_active_pump() {
    let mut machine = IrrigationMachine::default();
    machine.handle(
        IrrigationEvent::LightsTurnedOff {
            soil_moisture_pct: Some(20),
        },
        config(),
    );
    machine.handle(
        IrrigationEvent::TankChecked(TankState::WaterAvailable),
        config(),
    );

    let decision = machine.handle(IrrigationEvent::LightsTurnedOn, config());
    assert_eq!(decision.state, IrrigationState::Idle);
    assert_eq!(decision.actions, vec![IrrigationAction::SetPump(false)]);
}

fn start_cycle(machine: &mut IrrigationMachine) {
    machine.handle(IrrigationEvent::LightsTurnedOff { soil_moisture_pct: Some(10) }, config());
}

#[test]
fn watchdog_is_armed_before_the_pump_and_disarmed_after_the_pulse() {
    let mut machine = IrrigationMachine::default();
    start_cycle(&mut machine);
    let start = machine.handle(IrrigationEvent::TankChecked(TankState::WaterAvailable), config());
    assert_eq!(start.state, IrrigationState::Pumping { pulse: 1 });
    assert_eq!(
        start.actions,
        vec![
            IrrigationAction::ArmPumpSafety { after_seconds: 15 },
            IrrigationAction::SetPump(true),
            IrrigationAction::Schedule { after_seconds: 8, kind: ScheduledEventKind::PumpPulseFinished },
        ]
    );
    let finish = machine.handle(IrrigationEvent::PumpPulseFinished, config());
    assert_eq!(finish.state, IrrigationState::Absorbing { pulse: 1 });
    assert_eq!(
        finish.actions,
        vec![
            IrrigationAction::SetPump(false),
            IrrigationAction::DisarmPumpSafety,
            IrrigationAction::MeasureTank,
            IrrigationAction::Schedule { after_seconds: 300, kind: ScheduledEventKind::AbsorptionFinished },
        ]
    );
    assert_eq!(machine.completed_pulses(), 1);
}

#[test]
fn pulse_limit_blocks_further_watering() {
    let mut machine = IrrigationMachine::default();
    start_cycle(&mut machine);
    for pulse in 1..=3u8 {
        let start = machine.handle(IrrigationEvent::TankChecked(TankState::WaterAvailable), config());
        assert_eq!(start.state, IrrigationState::Pumping { pulse });
        machine.handle(IrrigationEvent::PumpPulseFinished, config());
        // The post-pulse tank check is ignored while absorbing.
        let ignored = machine.handle(IrrigationEvent::TankChecked(TankState::WaterAvailable), config());
        assert!(ignored.actions.is_empty());
        assert_eq!(machine.state(), IrrigationState::Absorbing { pulse });
        let after = machine.handle(IrrigationEvent::AbsorptionFinished { soil_moisture_pct: Some(20) }, config());
        if pulse < 3 {
            assert_eq!(after.state, IrrigationState::CheckingTank);
            assert_eq!(after.actions, vec![IrrigationAction::MeasureTank]);
        } else {
            assert_eq!(after.state, IrrigationState::Blocked(IrrigationBlockReason::PulseLimitReached));
            assert!(after.actions.is_empty());
        }
    }
    assert_eq!(machine.completed_pulses(), 3);
}

#[test]
fn moist_soil_completes_and_missing_readings_block() {
    let mut machine = IrrigationMachine::default();
    let moist = machine.handle(IrrigationEvent::LightsTurnedOff { soil_moisture_pct: Some(30) }, config());
    assert_eq!(moist.state, IrrigationState::Completed);
    assert!(moist.actions.is_empty());
    let missing = machine.handle(IrrigationEvent::LightsTurnedOff { soil_moisture_pct: None }, config());
    assert_eq!(missing.state, IrrigationState::Blocked(IrrigationBlockReason::SoilSensorFault));
    let mut machine = IrrigationMachine::default();
    start_cycle(&mut machine);
    machine.handle(IrrigationEvent::TankChecked(TankState::WaterAvailable), config());
    machine.handle(IrrigationEvent::PumpPulseFinished, config());
    let target = machine.handle(IrrigationEvent::AbsorptionFinished { soil_moisture_pct: Some(42) }, config());
    assert_eq!(target.state, IrrigationState::Completed);
    let mut machine = IrrigationMachine::default();
    start_cycle(&mut machine);
    machine.handle(IrrigationEvent::TankChecked(TankState::WaterAvailable), config());
    machine.handle(IrrigationEvent::PumpPulseFinished, config());
    let lost = machine.handle(IrrigationEvent::AbsorptionFinished { soil_moisture_pct: None }, config());
    assert_eq!(lost.state, IrrigationState::Blocked(IrrigationBlockReason::SoilSensorFault));
    assert!(lost.actions.is_empty());
}

#[test]
fn cycle_cancelled_by_lights_on_is_not_restarted_by_a_stale_absorption() {
    let mut machine = IrrigationMachine::default();
    machine.handle(IrrigationEvent::LightsTurnedOff { soil_moisture_pct: Some(20) }, config());
    machine.handle(IrrigationEvent::TankChecked(TankState::WaterAvailable), config());
    machine.handle(IrrigationEvent::PumpPulseFinished, config());
    assert_eq!(machine.state(), IrrigationState::Absorbing { pulse: 1 });
    let lights_on = machine.handle(IrrigationEvent::LightsTurnedOn, config());
    assert_eq!(lights_on.state, IrrigationState::Idle);
    assert!(lights_on.actions.is_empty());
    let stale = machine.handle(IrrigationEvent::AbsorptionFinished { soil_moisture_pct: Some(20) }, config());
    assert_eq!(stale.state, IrrigationState::Idle);
    assert!(stale.actions.is_empty());
    let mut completed = IrrigationMachine::default();
    completed.handle(IrrigationEvent::LightsTurnedOff { soil_moisture_pct: Some(35) }, config());
    let ignored = completed.handle(IrrigationEvent::AbsorptionFinished { soil_moisture_pct: None }, config());
    assert_eq!(ignored.state, IrrigationState::Completed);
}

#[test]
fn tank_sensor_fault_blocks_and_pulse_limit_reached_at_tank_check() {
    let mut machine = IrrigationMachine::default();
    start_cycle(&mut machine);
    let fault = machine.handle(IrrigationEvent::TankChecked(TankState::SensorFault), config());
    assert_eq!(fault.state, IrrigationState::Blocked(IrrigationBlockReason::TankSensorFault));
    assert!(fault.actions.is_empty());
    let limited = IrrigationConfig { max_pulses_per_cycle: 0, ..config() };
    let mut machine = IrrigationMachine::default();
    machine.handle(IrrigationEvent::LightsTurnedOff { soil_moisture_pct: Some(10) }, limited);
    let refused = machine.handle(IrrigationEvent::TankChecked(TankState::WaterAvailable), limited);
    assert_eq!(refused.state, IrrigationState::Blocked(IrrigationBlockReason::PulseLimitReached));
    assert!(refused.actions.is_empty());
}

#[test]
fn pump_timeout_and_abort_are_terminal_and_stop_the_pump() {
    let mut machine = IrrigationMachine::default();
    start_cycle(&mut machine);
    machine.handle(IrrigationEvent::TankChecked(TankState::WaterAvailable), config());
    let timeout = machine.handle(IrrigationEvent::PumpSafetyTimeout, config());
    assert_eq!(timeout.state, IrrigationState::Blocked(IrrigationBlockReason::PumpTimeout));
    assert_eq!(
        timeout.actions,
        vec![
            IrrigationAction::SetPump(false),
            IrrigationAction::CancelScheduled(ScheduledEventKind::PumpPulseFinished),
        ]
    );
    let stale = machine.handle(IrrigationEvent::PumpPulseFinished, config());
    assert!(stale.actions.is_empty());

    let mut machine = IrrigationMachine::default();
    start_cycle(&mut machine);
    let abort = machine.handle(IrrigationEvent::Abort(IrrigationBlockReason::ClockFault), config());
    assert_eq!(abort.state, IrrigationState::Blocked(IrrigationBlockReason::ClockFault));
    assert_eq!(
        abort.actions,
        vec![
            IrrigationAction::SetPump(false),
            IrrigationAction::DisarmPumpSafety,
            IrrigationAction::CancelScheduled(ScheduledEventKind::PumpPulseFinished),
            IrrigationAction::CancelScheduled(ScheduledEventKind::AbsorptionFinished),
        ]
    );
}

#[test]
fn lights_on_while_idle_does_nothing_and_resets_pulses() {
    let mut machine = IrrigationMachine::default();
    let decision = machine.handle(IrrigationEvent::LightsTurnedOn, config());
    assert_eq!(decision.state, IrrigationState::Idle);
    assert!(decision.actions.is_empty());
    assert_eq!(machine.completed_pulses(), 0);
}

#[test]
fn pulse_numbers_stay_between_one_and_the_limit_over_a_full_cycle() {
    let mut machine = IrrigationMachine::default();
    let limit = config().max_pulses_per_cycle;
    machine.handle(
        IrrigationEvent::LightsTurnedOff {
            soil_moisture_pct: Some(10),
        },
        config(),
    );
    for expected in 1..=limit {
        machine.handle(IrrigationEvent::TankChecked(TankState::WaterAvailable), config());
        assert_eq!(machine.state(), IrrigationState::Pumping { pulse: expected });
        assert_eq!(machine.completed_pulses(), expected - 1);
        machine.handle(IrrigationEvent::PumpPulseFinished, config());
        assert_eq!(machine.state(), IrrigationState::Absorbing { pulse: expected });
        assert_eq!(machine.completed_pulses(), expected);
        machine.handle(
            IrrigationEvent::AbsorptionFinished {
                soil_moisture_pct: Some(10),
            },
            config(),
        );
        assert!(machine.completed_pulses() <= limit);
    }
    assert_eq!(
        machine.state(),
        IrrigationState::Blocked(IrrigationBlockReason::PulseLimitReached)
    );
    let decision = machine.handle(IrrigationEvent::TankChecked(TankState::WaterAvailable), config());
    assert!(decision.actions.is_empty());
    assert_eq!(machine.completed_pulses(), limit);
}
