//! Decisions of the control runtime.
//!
//! The runtime alternates hardware work with decisions; every decision is a
//! function here from what was observed to what must happen next, and the
//! runtime only carries out the result.
use vstd::prelude::*;

use crate::climate::{desired_fan_state, evaluate_fan, near_threshold};
use crate::config::{FanConfig, LightingConfig};
use crate::event::ScheduledEventKind;
use crate::irrigation::{IrrigationAction, IrrigationEvent};
use crate::lighting::{evaluate_lighting, lights_should_be_on, window_end, window_start};
use crate::rtc::RtcDateTime;
use crate::state::{ClimateReading, FanState, IrrigationBlockReason};
use crate::timing::{delay_until, lands_on_target, seconds_until_minute};

verus! {

/// Seconds before the lighting is reconciled again after the clock failed.
pub const CLOCK_RETRY_SECONDS: u32 = 60;

/// Seconds the runtime waits for hardware events when nothing is scheduled.
pub const IDLE_WAIT_SECONDS: u64 = 60;

/// Seconds until the first climate sample after start-up.
pub const FIRST_CLIMATE_SAMPLE_SECONDS: u32 = 1;

/// What the runtime does when a deadline falls due.
#[derive(Debug, Clone, Copy, PartialEq, Eq, Structural)]
pub enum DueWork {
    /// Re-read the clock and apply the lighting window, reacting to a real
    /// on/off transition.
    ReconcileLighting,
    /// Read the climate sensor and apply the fan decision.
    SampleClimate,
    /// Feed this event to the irrigation machine.
    Irrigation(IrrigationEvent),
    /// Read the soil sensor, then feed `AbsorptionFinished` with the reading.
    FinishAbsorption,
}

/// The work for each kind of deadline.
pub fn work_for_deadline(kind: ScheduledEventKind) -> (work: DueWork)
    ensures
        work == (match kind {
            ScheduledEventKind::LightTransition => DueWork::ReconcileLighting,
            ScheduledEventKind::ClimateSample => DueWork::SampleClimate,
            ScheduledEventKind::PumpPulseFinished => DueWork::Irrigation(
                IrrigationEvent::PumpPulseFinished,
            ),
            ScheduledEventKind::AbsorptionFinished => DueWork::FinishAbsorption,
            ScheduledEventKind::PumpSafetyTimeout => DueWork::Irrigation(
                IrrigationEvent::PumpSafetyTimeout,
            ),
        }),
{
    match kind {
        ScheduledEventKind::LightTransition => DueWork::ReconcileLighting,
        ScheduledEventKind::ClimateSample => DueWork::SampleClimate,
        ScheduledEventKind::PumpPulseFinished => DueWork::Irrigation(
            IrrigationEvent::PumpPulseFinished,
        ),
        ScheduledEventKind::AbsorptionFinished => DueWork::FinishAbsorption,
        ScheduledEventKind::PumpSafetyTimeout => DueWork::Irrigation(
            IrrigationEvent::PumpSafetyTimeout,
        ),
    }
}

/// The irrigation event that follows a deadline whose work failed (a
/// runtime or adapter fault): the cycle is aborted for a hardware fault.
pub fn event_after_failed_work() -> (event: IrrigationEvent)
    ensures
        event == IrrigationEvent::Abort(IrrigationBlockReason::HardwareFault),
{
    IrrigationEvent::Abort(IrrigationBlockReason::HardwareFault)
}

/// How long to block for hardware events: until the nearest deadline, or
/// the idle wait when nothing is pending.
pub fn wait_seconds(next_due_at: Option<u64>, now_seconds: u64) -> (wait: u64)
    ensures
        wait == (match next_due_at {
            Some(deadline) => if deadline > now_seconds {
                (deadline - now_seconds) as u64
            } else {
                0
            },
            None => IDLE_WAIT_SECONDS,
        }),
{
    match next_due_at {
        Some(deadline) => deadline.saturating_sub(now_seconds),
        None => IDLE_WAIT_SECONDS,
    }
}

/// The outcome of a climate sample: the fan relay state to write, if it
/// must change, and the delay before the next sample.
#[derive(Debug, Clone, Copy, PartialEq, Eq, Structural)]
pub struct ClimatePlan {
    pub fan_write: Option<bool>,
    pub next_sample_after_seconds: u32,
}

/// Plans a climate sample from the applied fan state and the sensor result
/// (`None` when the sensor failed): a valid reading goes through the fan
/// hysteresis, a failed one keeps the fans and retries after the alert
/// interval.
pub fn plan_climate_sample(fan: FanConfig, fans_on: bool, reading: Option<ClimateReading>) -> (plan: ClimatePlan)
    ensures
        ({
            let current = if fans_on {
                FanState::On
            } else {
                FanState::Off
            };
            match reading {
                Some(r) => {
                    let desired = desired_fan_state(current, r, fan);
                    &&& plan.fan_write == (if desired != current {
                        Some(desired == FanState::On)
                    } else {
                        None
                    })
                    &&& plan.next_sample_after_seconds == 60 * (if desired == FanState::On
                        || near_threshold(r, fan) {
                        fan.alert_sample_minutes
                    } else {
                        fan.normal_sample_minutes
                    })
                },
                None => {
                    &&& plan.fan_write is None
                    &&& plan.next_sample_after_seconds == 60 * fan.alert_sample_minutes
                },
            }
        }),
{
    match reading {
        Some(r) => {
            let current = if fans_on {
                FanState::On
            } else {
                FanState::Off
            };
            let decision = evaluate_fan(current, r, fan);
            let fan_write = if decision.write_relay {
                Some(decision.desired_state == FanState::On)
            } else {
                None
            };
            ClimatePlan {
                fan_write,
                next_sample_after_seconds: decision.next_sample_minutes as u32 * 60,
            }
        },
        None => ClimatePlan {
            fan_write: None,
            next_sample_after_seconds: fan.alert_sample_minutes as u32 * 60,
        },
    }
}

/// What to do with the lights after reading the clock.
#[derive(Debug, Clone, Copy, PartialEq, Eq, Structural)]
pub enum LightingPlan {
    /// The clock is unusable: switch the lights to `lights_on` (off), feed
    /// `irrigation_event` (an abort for a clock fault) to irrigation, and
    /// reconcile again after `retry_after_seconds`.
    ClockFault { lights_on: bool, irrigation_event: IrrigationEvent, retry_after_seconds: u32 },
    /// Apply `lights_on` and reconcile again at the next transition.
    Apply { lights_on: bool, next_transition_after_seconds: u32 },
}

/// Plans the lighting from the clock reading (`None` when the clock failed).
pub fn plan_lighting(lighting: LightingConfig, clock: Option<RtcDateTime>) -> (plan: LightingPlan)
    ensures
        match clock {
            None => plan == (LightingPlan::ClockFault {
                lights_on: false,
                irrigation_event: IrrigationEvent::Abort(IrrigationBlockReason::ClockFault),
                retry_after_seconds: CLOCK_RETRY_SECONDS,
            }),
            Some(t) => {
                let minute = (t.hour * 60 + t.minute) as u16;
                let on = lights_should_be_on(minute, lighting);
                let next = if on {
                    window_end(lighting)
                } else {
                    window_start(lighting)
                };
                plan matches LightingPlan::Apply { lights_on, next_transition_after_seconds }
                    && lights_on == on
                    && next_transition_after_seconds == delay_until(t.hour, t.minute, t.second, next as u16)
                    && 0 < next_transition_after_seconds <= 86400
                    && lands_on_target(t.hour, t.minute, t.second, next as u16, next_transition_after_seconds as int)
                    && forall|d: int| 0 < d < next_transition_after_seconds ==> !#[trigger] lands_on_target(
                        t.hour,
                        t.minute,
                        t.second,
                        next as u16,
                        d,
                    )
            },
        },
{
    match clock {
        None => LightingPlan::ClockFault {
            lights_on: false,
            irrigation_event: IrrigationEvent::Abort(IrrigationBlockReason::ClockFault),
            retry_after_seconds: CLOCK_RETRY_SECONDS,
        },
        Some(t) => {
            let decision = evaluate_lighting(t.minute_of_day(), lighting);
            let after = seconds_until_minute(t.hour, t.minute, t.second, decision.next_transition_minute);
            LightingPlan::Apply { lights_on: decision.lights_on, next_transition_after_seconds: after }
        },
    }
}

/// A real change of the light state seen by irrigation.
#[derive(Debug, Clone, Copy, PartialEq, Eq, Structural)]
pub enum LightSwitch {
    TurnedOff,
    TurnedOn,
}

/// The light change irrigation must hear about: only when reconciliation
/// was triggered by a scheduled transition and the relay really changed.
pub fn light_switch(trigger_irrigation: bool, changed: bool, was_on: bool, lights_on: bool) -> (switch: Option<LightSwitch>)
    ensures
        switch == (if !trigger_irrigation || !changed {
            None
        } else if was_on && !lights_on {
            Some(LightSwitch::TurnedOff)
        } else if !was_on && lights_on {
            Some(LightSwitch::TurnedOn)
        } else {
            None
        }),
{
    if !trigger_irrigation || !changed {
        return None;
    }
    if was_on && !lights_on {
        Some(LightSwitch::TurnedOff)
    } else if !was_on && lights_on {
        Some(LightSwitch::TurnedOn)
    } else {
        None
    }
}

/// The actions of one irrigation decision that the runtime carries out, in
/// order, whether a pump start was refused, and the event to feed back to
/// the irrigation machine afterwards.
#[derive(Debug, Clone, PartialEq, Eq)]
pub struct AdmittedActions {
    pub actions: Vec<IrrigationAction>,
    pub pump_start_refused: bool,
    pub follow_up: Option<IrrigationEvent>,
}

/// Index of the first pump-on action, or the length when there is none.
pub open spec fn first_pump_start(actions: Seq<IrrigationAction>) -> int
    decreases actions.len(),
{
    if actions.len() == 0 {
        0
    } else if actions[0] == IrrigationAction::SetPump(true) {
        0
    } else {
        1 + first_pump_start(actions.drop_first())
    }
}

proof fn lemma_first_pump_start_at(actions: Seq<IrrigationAction>, p: int)
    requires
        0 <= p <= actions.len(),
        forall|i: int| 0 <= i < p ==> #[trigger] actions[i] != IrrigationAction::SetPump(true),
        p < actions.len() ==> actions[p] == IrrigationAction::SetPump(true),
    ensures
        first_pump_start(actions) == p,
    decreases actions.len(),
{
    if actions.len() > 0 && p > 0 {
        let t = actions.drop_first();
        assert forall|i: int| 0 <= i < p - 1 implies #[trigger] t[i] != IrrigationAction::SetPump(
            true,
        ) by {
            assert(t[i] == actions[i + 1]);
        }
        lemma_first_pump_start_at(t, p - 1);
    }
}

/// The actions carried out for a decision while the lights are on: those
/// before the first pump-on; when there is one, it and everything after it
/// are dropped and the watchdog armed for it is disarmed.
pub open spec fn actions_with_lights_on(actions: Seq<IrrigationAction>) -> Seq<IrrigationAction> {
    if first_pump_start(actions) < actions.len() {
        actions.take(first_pump_start(actions)).push(IrrigationAction::DisarmPumpSafety)
    } else {
        actions
    }
}

/// INV-002 at the runtime: while the lights are on, a decision is carried
/// out only up to its first pump-on action, which is refused: the watchdog
/// is disarmed instead and the cycle is then aborted because the lights are
/// on. With the lights off every action is carried out.
pub fn admit_irrigation_actions(actions: &Vec<IrrigationAction>, lights_on: bool) -> (admitted: AdmittedActions)
    ensures
        lights_on ==> admitted.actions@ == actions_with_lights_on(actions@),
        lights_on ==> admitted.pump_start_refused == (first_pump_start(actions@) < actions@.len()),
        admitted.follow_up == (if admitted.pump_start_refused {
            Some(IrrigationEvent::Abort(IrrigationBlockReason::LightsOn))
        } else {
            None
        }),
        !lights_on ==> admitted.actions@ == actions@ && !admitted.pump_start_refused,
{
    let mut admitted: Vec<IrrigationAction> = Vec::new();
    let mut index: usize = 0;
    while index < actions.len()
        invariant
            index <= actions@.len(),
            admitted@ == actions@.take(index as int),
            lights_on ==> forall|i: int| 0 <= i < index ==> #[trigger] actions@[i]
                != IrrigationAction::SetPump(true),
        decreases actions@.len() - index,
    {
        let action = actions[index];
        if lights_on && action == IrrigationAction::SetPump(true) {
            proof {
                lemma_first_pump_start_at(actions@, index as int);
            }
            admitted.push(IrrigationAction::DisarmPumpSafety);
            return AdmittedActions {
                actions: admitted,
                pump_start_refused: true,
                follow_up: Some(IrrigationEvent::Abort(IrrigationBlockReason::LightsOn)),
            };
        }
        admitted.push(action);
        proof {
            assert(actions@.take(index + 1) =~= actions@.take(index as int).push(action));
        }
        index += 1;
    }
    proof {
        assert(actions@.take(actions@.len() as int) =~= actions@);
        if lights_on {
            lemma_first_pump_start_at(actions@, actions@.len() as int);
        }
    }
    AdmittedActions { actions: admitted, pump_start_refused: false, follow_up: None }
}

/// No admitted action switches the pump on while the lights are on.
pub proof fn lemma_no_pump_start_with_lights_on(actions: Seq<IrrigationAction>)
    ensures
        forall|i: int|
            0 <= i < actions_with_lights_on(actions).len() ==> #[trigger] actions_with_lights_on(
                actions,
            )[i] != IrrigationAction::SetPump(true),
{
    lemma_prefix_has_no_pump_start(actions);
    let p = first_pump_start(actions);
    if p < actions.len() {
        let r = actions_with_lights_on(actions);
        assert forall|i: int| 0 <= i < r.len() implies #[trigger] r[i] != IrrigationAction::SetPump(
            true,
        ) by {
            if i < p {
                assert(r[i] == actions.take(p)[i]);
            }
        }
    } else {
        assert(actions.take(p) =~= actions);
    }
}

/// The actions before the first pump-on hold no pump-on.
proof fn lemma_prefix_has_no_pump_start(actions: Seq<IrrigationAction>)
    ensures
        forall|i: int|
            0 <= i < actions.take(first_pump_start(actions)).len() ==> #[trigger] actions.take(
                first_pump_start(actions),
            )[i] != IrrigationAction::SetPump(true),
        0 <= first_pump_start(actions) <= actions.len(),
    decreases actions.len(),
{
    if actions.len() > 0 && actions[0] != IrrigationAction::SetPump(true) {
        let t = actions.drop_first();
        lemma_prefix_has_no_pump_start(t);
        assert forall|i: int|
            0 <= i < actions.take(first_pump_start(actions)).len() implies #[trigger] actions.take(
            first_pump_start(actions),
        )[i] != IrrigationAction::SetPump(true) by {
            if i > 0 {
                assert(actions.take(first_pump_start(actions))[i] == t.take(first_pump_start(t))[i
                    - 1]);
            }
        }
    }
}

} // verus!
