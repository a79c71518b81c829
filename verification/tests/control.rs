use growntrol::{
    admit_irrigation_actions, event_after_failed_work, light_switch, plan_climate_sample,
    plan_lighting, wait_seconds, work_for_deadline, ClimateReading, DueWork, IrrigationAction,
    IrrigationBlockReason, IrrigationEvent, LightSwitch, LightingPlan, RtcDateTime,
    ScheduledEventKind, SystemConfig,
};

fn at(hour: u8, minute: u8, second: u8) -> Option<RtcDateTime> {
    Some(RtcDateTime { year: 2024, month: 5, day: 1, hour, minute, second })
}

#[test]
fn lighting_plan_follows_the_window_and_the_clock() {
    let lighting = SystemConfig::default().lighting;
    assert_eq!(
        plan_lighting(lighting, at(10, 30, 0)),
        LightingPlan::Apply { lights_on: true, next_transition_after_seconds: 3 * 3600 + 1800 }
    );
    assert_eq!(
        plan_lighting(lighting, at(14, 0, 0)),
        LightingPlan::Apply { lights_on: false, next_transition_after_seconds: 6 * 3600 }
    );
    assert_eq!(
        plan_lighting(lighting, None),
        LightingPlan::ClockFault {
            lights_on: false,
            irrigation_event: IrrigationEvent::Abort(IrrigationBlockReason::ClockFault),
            retry_after_seconds: 60,
        }
    );
}

#[test]
fn climate_plan_writes_only_on_change_and_retries_failed_samples() {
    let fan = SystemConfig::default().fan;
    let hot = Some(ClimateReading { temperature_tenths_c: 300, humidity_tenths_pct: 500 });
    let first = plan_climate_sample(fan, false, hot);
    assert_eq!(first.fan_write, Some(true));
    assert_eq!(first.next_sample_after_seconds, 60);
    let again = plan_climate_sample(fan, true, hot);
    assert_eq!(again.fan_write, None);
    let cool = Some(ClimateReading { temperature_tenths_c: 220, humidity_tenths_pct: 500 });
    assert_eq!(plan_climate_sample(fan, false, cool).next_sample_after_seconds, 300);
    let failed = plan_climate_sample(fan, true, None);
    assert_eq!(failed.fan_write, None);
    assert_eq!(failed.next_sample_after_seconds, 60);
}

#[test]
fn only_real_scheduled_transitions_reach_irrigation() {
    assert_eq!(light_switch(true, true, true, false), Some(LightSwitch::TurnedOff));
    assert_eq!(light_switch(true, true, false, true), Some(LightSwitch::TurnedOn));
    assert_eq!(light_switch(false, true, true, false), None);
    assert_eq!(light_switch(true, false, true, false), None);
    assert_eq!(light_switch(true, true, true, true), None);
}

#[test]
fn pump_start_is_refused_while_lights_are_on() {
    let actions = vec![
        IrrigationAction::ArmPumpSafety { after_seconds: 15 },
        IrrigationAction::SetPump(true),
        IrrigationAction::Schedule { after_seconds: 8, kind: ScheduledEventKind::PumpPulseFinished },
    ];
    let refused = admit_irrigation_actions(&actions, true);
    assert!(refused.pump_start_refused);
    assert_eq!(
        refused.actions,
        vec![
            IrrigationAction::ArmPumpSafety { after_seconds: 15 },
            IrrigationAction::DisarmPumpSafety,
        ]
    );
    assert_eq!(
        refused.follow_up,
        Some(IrrigationEvent::Abort(IrrigationBlockReason::LightsOn))
    );
    let allowed = admit_irrigation_actions(&actions, false);
    assert!(!allowed.pump_start_refused);
    assert_eq!(allowed.follow_up, None);
    assert_eq!(allowed.actions, actions);
    let stop = vec![IrrigationAction::SetPump(false), IrrigationAction::MeasureTank];
    let kept = admit_irrigation_actions(&stop, true);
    assert!(!kept.pump_start_refused);
    assert_eq!(kept.actions, stop);
    assert_eq!(kept.follow_up, None);
}

#[test]
fn failed_deadline_work_aborts_for_a_hardware_fault() {
    assert_eq!(
        event_after_failed_work(),
        IrrigationEvent::Abort(IrrigationBlockReason::HardwareFault)
    );
}

#[test]
fn deadlines_map_to_runtime_work_and_waits_follow_the_nearest_deadline() {
    assert_eq!(work_for_deadline(ScheduledEventKind::LightTransition), DueWork::ReconcileLighting);
    assert_eq!(work_for_deadline(ScheduledEventKind::ClimateSample), DueWork::SampleClimate);
    assert_eq!(
        work_for_deadline(ScheduledEventKind::PumpPulseFinished),
        DueWork::Irrigation(IrrigationEvent::PumpPulseFinished)
    );
    assert_eq!(work_for_deadline(ScheduledEventKind::AbsorptionFinished), DueWork::FinishAbsorption);
    assert_eq!(
        work_for_deadline(ScheduledEventKind::PumpSafetyTimeout),
        DueWork::Irrigation(IrrigationEvent::PumpSafetyTimeout)
    );
    assert_eq!(wait_seconds(Some(130), 100), 30);
    assert_eq!(wait_seconds(Some(90), 100), 0);
    assert_eq!(wait_seconds(None, 100), 60);
}
