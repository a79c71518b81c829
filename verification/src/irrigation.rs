//! The irrigation cycle as a finite-state machine.
//!
//! The machine never touches hardware: each event yields the next state and a
//! list of actions that the runtime carries out in order.
use vstd::prelude::*;

use crate::config::IrrigationConfig;
use crate::event::ScheduledEventKind;
use crate::state::{IrrigationBlockReason, IrrigationState, TankState};

verus! {

/// What the runtime reports to the irrigation machine.
#[derive(Debug, Clone, Copy, PartialEq, Eq, Structural)]
pub enum IrrigationEvent {
    /// Lights switched off; carries the soil reading taken at that moment.
    LightsTurnedOff { soil_moisture_pct: Option<u8> },
    LightsTurnedOn,
    TankChecked(TankState),
    PumpPulseFinished,
    /// The absorption wait ended; carries a fresh soil reading.
    AbsorptionFinished { soil_moisture_pct: Option<u8> },
    /// The independent maximum-runtime watchdog cut the pump.
    PumpSafetyTimeout,
    /// A runtime or hardware fault ends the cycle.
    Abort(IrrigationBlockReason),
}

/// A step the runtime must perform for the irrigation machine.
#[derive(Debug, Clone, Copy, PartialEq, Eq, Structural)]
pub enum IrrigationAction {
    SetPump(bool),
    MeasureTank,
    Schedule { after_seconds: u32, kind: ScheduledEventKind },
    /// Arm the independent pump watchdog; always issued before the pump is
    /// switched on.
    ArmPumpSafety { after_seconds: u32 },
    DisarmPumpSafety,
    CancelScheduled(ScheduledEventKind),
}

/// The outcome of one event: the new state and the actions, in order.
#[derive(Debug, Clone, PartialEq, Eq)]
pub struct IrrigationDecision {
    pub state: IrrigationState,
    pub actions: Vec<IrrigationAction>,
}

/// The irrigation machine: the current phase and the pulses completed in the
/// current cycle.
#[derive(Debug, Clone, Copy, PartialEq, Eq)]
pub struct IrrigationMachine {
    state: IrrigationState,
    completed_pulses: u8,
}

/// Mathematical model of an [`IrrigationMachine`].
pub struct IrrigationModel {
    pub state: IrrigationState,
    pub completed_pulses: u8,
}

impl View for IrrigationMachine {
    type V = IrrigationModel;

    closed spec fn view(&self) -> IrrigationModel {
        IrrigationModel { state: self.state, completed_pulses: self.completed_pulses }
    }
}

/// The model after a cycle restart in state `state`: no pulse completed yet.
pub open spec fn restarted(state: IrrigationState) -> IrrigationModel {
    IrrigationModel { state, completed_pulses: 0 }
}

/// The model with a new phase and an unchanged pulse count.
pub open spec fn with_state(m: IrrigationModel, state: IrrigationState) -> IrrigationModel {
    IrrigationModel { state, completed_pulses: m.completed_pulses }
}

/// The actions that start one pump pulse: arm the watchdog with the maximum
/// runtime, energize the pump, and set the one-shot pulse deadline.
pub open spec fn pulse_start_actions(config: IrrigationConfig) -> Seq<IrrigationAction> {
    seq![
        IrrigationAction::ArmPumpSafety { after_seconds: config.pump_maximum_seconds as u32 },
        IrrigationAction::SetPump(true),
        IrrigationAction::Schedule {
            after_seconds: config.pump_pulse_seconds as u32,
            kind: ScheduledEventKind::PumpPulseFinished,
        },
    ]
}

/// The actions that end one pump pulse: de-energize, disarm the watchdog,
/// re-check the tank and wait for absorption.
pub open spec fn pulse_end_actions(config: IrrigationConfig) -> Seq<IrrigationAction> {
    seq![
        IrrigationAction::SetPump(false),
        IrrigationAction::DisarmPumpSafety,
        IrrigationAction::MeasureTank,
        IrrigationAction::Schedule {
            after_seconds: (config.absorption_minutes as u32 * 60) as u32,
            kind: ScheduledEventKind::AbsorptionFinished,
        },
    ]
}

/// The actions of an aborted cycle: pump off, watchdog disarmed, pulse and
/// absorption deadlines cancelled.
pub open spec fn abort_actions() -> Seq<IrrigationAction> {
    seq![
        IrrigationAction::SetPump(false),
        IrrigationAction::DisarmPumpSafety,
        IrrigationAction::CancelScheduled(ScheduledEventKind::PumpPulseFinished),
        IrrigationAction::CancelScheduled(ScheduledEventKind::AbsorptionFinished),
    ]
}

/// The transition table of the irrigation cycle: the model after `event` and
/// the actions the runtime must perform, in order.
pub open spec fn irrigation_step(
    m: IrrigationModel,
    event: IrrigationEvent,
    config: IrrigationConfig,
) -> (IrrigationModel, Seq<IrrigationAction>) {
    match event {
        IrrigationEvent::LightsTurnedOn => (
            restarted(IrrigationState::Idle),
            if m.state is Pumping {
                seq![IrrigationAction::SetPump(false)]
            } else {
                Seq::empty()
            },
        ),
        IrrigationEvent::LightsTurnedOff { soil_moisture_pct } => match soil_moisture_pct {
            None => (
                restarted(IrrigationState::Blocked(IrrigationBlockReason::SoilSensorFault)),
                Seq::empty(),
            ),
            Some(value) => if value < config.start_below_pct {
                (restarted(IrrigationState::CheckingTank), seq![IrrigationAction::MeasureTank])
            } else {
                (restarted(IrrigationState::Completed), Seq::empty())
            },
        },
        IrrigationEvent::TankChecked(tank) => if m.state is CheckingTank {
            match tank {
                TankState::WaterAvailable => if m.completed_pulses < config.max_pulses_per_cycle {
                    (
                        with_state(
                            m,
                            IrrigationState::Pumping { pulse: (m.completed_pulses + 1) as u8 },
                        ),
                        pulse_start_actions(config),
                    )
                } else {
                    (
                        with_state(
                            m,
                            IrrigationState::Blocked(IrrigationBlockReason::PulseLimitReached),
                        ),
                        Seq::empty(),
                    )
                },
                TankState::WaterLow => (
                    with_state(m, IrrigationState::Blocked(IrrigationBlockReason::TankLow)),
                    Seq::empty(),
                ),
                TankState::SensorFault => (
                    with_state(m, IrrigationState::Blocked(IrrigationBlockReason::TankSensorFault)),
                    Seq::empty(),
                ),
            }
        } else {
            (m, Seq::empty())
        },
        IrrigationEvent::PumpPulseFinished => match m.state {
            IrrigationState::Pumping { pulse } => (
                IrrigationModel {
                    state: IrrigationState::Absorbing { pulse },
                    completed_pulses: pulse,
                },
                pulse_end_actions(config),
            ),
            _ => (m, Seq::empty()),
        },
        IrrigationEvent::AbsorptionFinished { soil_moisture_pct } => if m.state is Absorbing {
            match soil_moisture_pct {
                None => (
                    with_state(m, IrrigationState::Blocked(IrrigationBlockReason::SoilSensorFault)),
                    Seq::empty(),
                ),
                Some(value) => if value >= config.target_pct {
                    (with_state(m, IrrigationState::Completed), Seq::empty())
                } else if m.completed_pulses >= config.max_pulses_per_cycle {
                    (
                        with_state(
                            m,
                            IrrigationState::Blocked(IrrigationBlockReason::PulseLimitReached),
                        ),
                        Seq::empty(),
                    )
                } else {
                    (
                        with_state(m, IrrigationState::CheckingTank),
                        seq![IrrigationAction::MeasureTank],
                    )
                },
            }
        } else {
            (m, Seq::empty())
        },
        IrrigationEvent::PumpSafetyTimeout => (
            with_state(m, IrrigationState::Blocked(IrrigationBlockReason::PumpTimeout)),
            seq![
                IrrigationAction::SetPump(false),
                IrrigationAction::CancelScheduled(ScheduledEventKind::PumpPulseFinished),
            ],
        ),
        IrrigationEvent::Abort(reason) => (
            with_state(m, IrrigationState::Blocked(reason)),
            abort_actions(),
        ),
    }
}

impl Default for IrrigationMachine {
    /// An idle machine with no pulse counted.
    fn default() -> (machine: Self)
        ensures
            machine@ == restarted(IrrigationState::Idle),
    {
        IrrigationMachine { state: IrrigationState::Idle, completed_pulses: 0 }
    }
}

impl IrrigationMachine {
    /// The current phase of the cycle.
    pub fn state(&self) -> (state: IrrigationState)
        ensures
            state == self@.state,
    {
        self.state
    }

    /// The pulses completed in the current cycle.
    pub fn completed_pulses(&self) -> (pulses: u8)
        ensures
            pulses == self@.completed_pulses,
    {
        self.completed_pulses
    }

    /// Feeds one event to the machine: the machine moves to the next state
    /// of [`irrigation_step`] and returns that state with the actions to
    /// perform, in order.
    pub fn handle(&mut self, event: IrrigationEvent, config: IrrigationConfig) -> (decision: IrrigationDecision)
        ensures
            final(self)@ == irrigation_step(old(self)@, event, config).0,
            decision.state == final(self)@.state,
            decision.actions@ == irrigation_step(old(self)@, event, config).1,
            pulse_invariant(old(self)@, config) ==> pulse_invariant(final(self)@, config),
    {
        let mut actions: Vec<IrrigationAction> = Vec::new();
        let next = match event {
            IrrigationEvent::LightsTurnedOn => {
                if matches!(self.state, IrrigationState::Pumping { .. }) {
                    actions.push(IrrigationAction::SetPump(false));
                }
                self.completed_pulses = 0;
                IrrigationState::Idle
            },
            IrrigationEvent::LightsTurnedOff { soil_moisture_pct } => {
                self.completed_pulses = 0;
                match soil_moisture_pct {
                    None => IrrigationState::Blocked(IrrigationBlockReason::SoilSensorFault),
                    Some(value) => {
                        if value < config.start_below_pct {
                            actions.push(IrrigationAction::MeasureTank);
                            IrrigationState::CheckingTank
                        } else {
                            IrrigationState::Completed
                        }
                    },
                }
            },
            IrrigationEvent::TankChecked(tank) => {
                match (self.state, tank) {
                    (IrrigationState::CheckingTank, TankState::WaterAvailable) => {
                        if self.completed_pulses < config.max_pulses_per_cycle {
                            let pulse = self.completed_pulses + 1;
                            actions.push(
                                IrrigationAction::ArmPumpSafety {
                                    after_seconds: config.pump_maximum_seconds as u32,
                                },
                            );
                            actions.push(IrrigationAction::SetPump(true));
                            actions.push(
                                IrrigationAction::Schedule {
                                    after_seconds: config.pump_pulse_seconds as u32,
                                    kind: ScheduledEventKind::PumpPulseFinished,
                                },
                            );
                            IrrigationState::Pumping { pulse }
                        } else {
                            IrrigationState::Blocked(IrrigationBlockReason::PulseLimitReached)
                        }
                    },
                    (IrrigationState::CheckingTank, TankState::WaterLow) => {
                        IrrigationState::Blocked(IrrigationBlockReason::TankLow)
                    },
                    (IrrigationState::CheckingTank, TankState::SensorFault) => {
                        IrrigationState::Blocked(IrrigationBlockReason::TankSensorFault)
                    },
                    (state, _) => state,
                }
            },
            IrrigationEvent::PumpPulseFinished => {
                match self.state {
                    IrrigationState::Pumping { pulse } => {
                        self.completed_pulses = pulse;
                        actions.push(IrrigationAction::SetPump(false));
                        actions.push(IrrigationAction::DisarmPumpSafety);
                        actions.push(IrrigationAction::MeasureTank);
                        actions.push(
                            IrrigationAction::Schedule {
                                after_seconds: (config.absorption_minutes as u32 * 60) as u32,
                                kind: ScheduledEventKind::AbsorptionFinished,
                            },
                        );
                        IrrigationState::Absorbing { pulse }
                    },
                    state => state,
                }
            },
            IrrigationEvent::AbsorptionFinished { soil_moisture_pct } => {
                if matches!(self.state, IrrigationState::Absorbing { .. }) {
                    match soil_moisture_pct {
                        None => IrrigationState::Blocked(IrrigationBlockReason::SoilSensorFault),
                        Some(value) => {
                            if value >= config.target_pct {
                                IrrigationState::Completed
                            } else if self.completed_pulses >= config.max_pulses_per_cycle {
                                IrrigationState::Blocked(IrrigationBlockReason::PulseLimitReached)
                            } else {
                                actions.push(IrrigationAction::MeasureTank);
                                IrrigationState::CheckingTank
                            }
                        },
                    }
                } else {
                    self.state
                }
            },
            IrrigationEvent::PumpSafetyTimeout => {
                actions.push(IrrigationAction::SetPump(false));
                actions.push(
                    IrrigationAction::CancelScheduled(ScheduledEventKind::PumpPulseFinished),
                );
                IrrigationState::Blocked(IrrigationBlockReason::PumpTimeout)
            },
            IrrigationEvent::Abort(reason) => {
                actions.push(IrrigationAction::SetPump(false));
                actions.push(IrrigationAction::DisarmPumpSafety);
                actions.push(
                    IrrigationAction::CancelScheduled(ScheduledEventKind::PumpPulseFinished),
                );
                actions.push(
                    IrrigationAction::CancelScheduled(ScheduledEventKind::AbsorptionFinished),
                );
                IrrigationState::Blocked(reason)
            },
        };
        self.state = next;
        IrrigationDecision { state: self.state, actions }
    }
}

/// Pulse bookkeeping that every reachable machine satisfies for a fixed
/// configuration: the count never exceeds the per-cycle limit, a running
/// pulse is the next one, and an absorbing pulse is the last one counted;
/// both are numbered from 1 up to the limit.
pub open spec fn pulse_invariant(m: IrrigationModel, config: IrrigationConfig) -> bool {
    &&& m.completed_pulses <= config.max_pulses_per_cycle
    &&& (m.state matches IrrigationState::Pumping { pulse } ==> pulse == m.completed_pulses + 1
        && 1 <= pulse <= config.max_pulses_per_cycle)
    &&& (m.state matches IrrigationState::Absorbing { pulse } ==> pulse == m.completed_pulses
        && 1 <= pulse <= config.max_pulses_per_cycle)
}

/// The model reached from `m` by feeding `events` in order, all with the
/// same configuration.
pub open spec fn irrigation_run(
    m: IrrigationModel,
    events: Seq<IrrigationEvent>,
    config: IrrigationConfig,
) -> IrrigationModel
    decreases events.len(),
{
    if events.len() == 0 {
        m
    } else {
        irrigation_run(irrigation_step(m, events[0], config).0, events.drop_first(), config)
    }
}

/// INV-001 and the pulse limit: the pump is switched on only when the tank
/// check of a running cycle confirms water and the cycle still has pulses
/// left; the switch-on is then exactly "arm watchdog, energize, set the
/// one-shot pulse deadline".
pub proof fn lemma_pump_starts_only_on_confirmed_water(
    m: IrrigationModel,
    event: IrrigationEvent,
    config: IrrigationConfig,
)
    ensures
        irrigation_step(m, event, config).1.contains(IrrigationAction::SetPump(true)) ==> {
            &&& event == IrrigationEvent::TankChecked(TankState::WaterAvailable)
            &&& m.state == IrrigationState::CheckingTank
            &&& m.completed_pulses < config.max_pulses_per_cycle
            &&& irrigation_step(m, event, config).1 == pulse_start_actions(config)
        },
{
    let actions = irrigation_step(m, event, config).1;
    if actions.contains(IrrigationAction::SetPump(true)) {
        let i = choose|i: int| 0 <= i < actions.len() && actions[i] == IrrigationAction::SetPump(true);
        assert(actions[i] == IrrigationAction::SetPump(true));
    }
}

/// A low or faulty tank never starts the pump and blocks the cycle it
/// interrupts.
pub proof fn lemma_tank_fault_blocks_pump(m: IrrigationModel, tank: TankState, config: IrrigationConfig)
    requires
        tank != TankState::WaterAvailable,
    ensures
        !irrigation_step(m, IrrigationEvent::TankChecked(tank), config).1.contains(
            IrrigationAction::SetPump(true),
        ),
        m.state == IrrigationState::CheckingTank ==> irrigation_step(
            m,
            IrrigationEvent::TankChecked(tank),
            config,
        ).0.state == IrrigationState::Blocked(
            if tank == TankState::WaterLow {
                IrrigationBlockReason::TankLow
            } else {
                IrrigationBlockReason::TankSensorFault
            },
        ),
{
}

/// Every pump start arms the independent watchdog before the pump is
/// energized and sets the one-shot pulse deadline.
pub proof fn lemma_pulse_start_is_guarded(config: IrrigationConfig)
    ensures
        pulse_start_actions(config).len() == 3,
        pulse_start_actions(config)[0] == (IrrigationAction::ArmPumpSafety {
            after_seconds: config.pump_maximum_seconds as u32,
        }),
        pulse_start_actions(config)[1] == IrrigationAction::SetPump(true),
        pulse_start_actions(config)[2] == (IrrigationAction::Schedule {
            after_seconds: config.pump_pulse_seconds as u32,
            kind: ScheduledEventKind::PumpPulseFinished,
        }),
{
}

/// The idle machine satisfies the pulse bookkeeping.
pub proof fn lemma_pulse_invariant_initially(config: IrrigationConfig)
    ensures
        pulse_invariant(restarted(IrrigationState::Idle), config),
{
}

/// Every event preserves the pulse bookkeeping, so no cycle ever runs more
/// pulses than `max_pulses_per_cycle`.
pub proof fn lemma_pulse_invariant_preserved(
    m: IrrigationModel,
    event: IrrigationEvent,
    config: IrrigationConfig,
)
    requires
        pulse_invariant(m, config),
    ensures
        pulse_invariant(irrigation_step(m, event, config).0, config),
{
}

/// Every machine reached from the idle machine by any sequence of events
/// under one configuration keeps the pulse bookkeeping: at most
/// `max_pulses_per_cycle` pulses are counted, a running pulse is the next
/// one and an absorbing pulse the last one counted, each between 1 and the
/// limit, so the pulse counter never overflows.
pub proof fn lemma_reachable_machines_keep_pulse_invariant(
    events: Seq<IrrigationEvent>,
    config: IrrigationConfig,
)
    ensures
        pulse_invariant(irrigation_run(restarted(IrrigationState::Idle), events, config), config),
{
    lemma_pulse_invariant_initially(config);
    lemma_run_preserves_pulse_invariant(restarted(IrrigationState::Idle), events, config);
}

/// Running any sequence of events from a machine that keeps the pulse
/// bookkeeping ends in one that keeps it.
pub proof fn lemma_run_preserves_pulse_invariant(
    m: IrrigationModel,
    events: Seq<IrrigationEvent>,
    config: IrrigationConfig,
)
    requires
        pulse_invariant(m, config),
    ensures
        pulse_invariant(irrigation_run(m, events, config), config),
    decreases events.len(),
{
    if events.len() > 0 {
        lemma_pulse_invariant_preserved(m, events[0], config);
        lemma_run_preserves_pulse_invariant(
            irrigation_step(m, events[0], config).0,
            events.drop_first(),
            config,
        );
    }
}

/// Lights switching on end the cycle: the machine becomes idle and the only
/// action is one pump-off, issued exactly when a pulse was running.
pub proof fn lemma_lights_on_stops_cycle(m: IrrigationModel, config: IrrigationConfig)
    ensures
        irrigation_step(m, IrrigationEvent::LightsTurnedOn, config).0 == restarted(
            IrrigationState::Idle,
        ),
        m.state is Pumping ==> irrigation_step(m, IrrigationEvent::LightsTurnedOn, config).1
            == seq![IrrigationAction::SetPump(false)],
        !(m.state is Pumping) ==> irrigation_step(
            m,
            IrrigationEvent::LightsTurnedOn,
            config,
        ).1.len() == 0,
{
}

/// A missing soil reading, at lights-off or at the end of an absorption
/// wait, blocks irrigation and asks for nothing.
pub proof fn lemma_missing_soil_reading_blocks(m: IrrigationModel, config: IrrigationConfig)
    ensures
        irrigation_step(m, IrrigationEvent::LightsTurnedOff { soil_moisture_pct: None }, config).0.state
            == IrrigationState::Blocked(IrrigationBlockReason::SoilSensorFault),
        irrigation_step(m, IrrigationEvent::LightsTurnedOff { soil_moisture_pct: None }, config).1.len()
            == 0,
        m.state is Absorbing ==> irrigation_step(
            m,
            IrrigationEvent::AbsorptionFinished { soil_moisture_pct: None },
            config,
        ).0.state == IrrigationState::Blocked(IrrigationBlockReason::SoilSensorFault),
        irrigation_step(
            m,
            IrrigationEvent::AbsorptionFinished { soil_moisture_pct: None },
            config,
        ).1.len() == 0,
{
}

/// A cycle cancelled by lights-on stays cancelled: an absorption deadline
/// that fires outside an absorption wait (for instance after the lights
/// switched on) changes nothing and asks for nothing, so no stale deadline
/// restarts irrigation while the lights are on.
pub proof fn lemma_stale_absorption_ignored(
    m: IrrigationModel,
    soil_moisture_pct: Option<u8>,
    config: IrrigationConfig,
)
    ensures
        !(m.state is Absorbing) ==> irrigation_step(
            m,
            IrrigationEvent::AbsorptionFinished { soil_moisture_pct },
            config,
        ) == (m, Seq::<IrrigationAction>::empty()),
        irrigation_step(
            irrigation_step(m, IrrigationEvent::LightsTurnedOn, config).0,
            IrrigationEvent::AbsorptionFinished { soil_moisture_pct },
            config,
        ) == (restarted(IrrigationState::Idle), Seq::<IrrigationAction>::empty()),
{
}

/// Dry soil at lights-off asks for a tank measurement and never starts the
/// pump directly.
pub proof fn lemma_dry_soil_checks_tank_first(m: IrrigationModel, moisture: u8, config: IrrigationConfig)
    requires
        moisture < config.start_below_pct,
    ensures
        irrigation_step(
            m,
            IrrigationEvent::LightsTurnedOff { soil_moisture_pct: Some(moisture) },
            config,
        ).0 == restarted(IrrigationState::CheckingTank),
        irrigation_step(
            m,
            IrrigationEvent::LightsTurnedOff { soil_moisture_pct: Some(moisture) },
            config,
        ).1 == seq![IrrigationAction::MeasureTank],
{
}

/// The end of an absorption wait decides the cycle by the fresh reading: it
/// completes exactly when the soil reached `target_pct`; below the target
/// with pulses left it asks for one tank measurement and keeps the pulse
/// count; below the target with every pulse spent it blocks on the pulse
/// limit.
pub proof fn lemma_absorption_continues_below_target(
    m: IrrigationModel,
    moisture: u8,
    config: IrrigationConfig,
)
    requires
        m.state is Absorbing,
    ensures
        (irrigation_step(
            m,
            IrrigationEvent::AbsorptionFinished { soil_moisture_pct: Some(moisture) },
            config,
        ).0.state == IrrigationState::Completed) <==> moisture >= config.target_pct,
        moisture >= config.target_pct ==> irrigation_step(
            m,
            IrrigationEvent::AbsorptionFinished { soil_moisture_pct: Some(moisture) },
            config,
        ).1.len() == 0,
        moisture < config.target_pct && m.completed_pulses < config.max_pulses_per_cycle ==> {
            let (next, actions) = irrigation_step(
                m,
                IrrigationEvent::AbsorptionFinished { soil_moisture_pct: Some(moisture) },
                config,
            );
            &&& next.state == IrrigationState::CheckingTank
            &&& next.completed_pulses == m.completed_pulses
            &&& actions == seq![IrrigationAction::MeasureTank]
        },
        moisture < config.target_pct && m.completed_pulses >= config.max_pulses_per_cycle ==> {
            let (next, actions) = irrigation_step(
                m,
                IrrigationEvent::AbsorptionFinished { soil_moisture_pct: Some(moisture) },
                config,
            );
            &&& next.state == IrrigationState::Blocked(IrrigationBlockReason::PulseLimitReached)
            &&& actions.len() == 0
        },
{
}

/// Lights-off decides by the soil reading: dry soil (below
/// `start_below_pct`) starts a cycle with a tank check, moist soil completes
/// the cycle at once with nothing to do; either way no pulse is counted.
pub proof fn lemma_lights_off_decides_by_start_threshold(
    m: IrrigationModel,
    moisture: u8,
    config: IrrigationConfig,
)
    ensures
        ({
            let (next, actions) = irrigation_step(
                m,
                IrrigationEvent::LightsTurnedOff { soil_moisture_pct: Some(moisture) },
                config,
            );
            &&& next.completed_pulses == 0
            &&& moisture < config.start_below_pct ==> next.state == IrrigationState::CheckingTank
                && actions == seq![IrrigationAction::MeasureTank]
            &&& moisture >= config.start_below_pct ==> next.state == IrrigationState::Completed
                && actions.len() == 0
        }),
{
}

/// Finishing a pulse switches the pump off, disarms the watchdog, asks for a
/// second tank measurement and sets the absorption deadline.
pub proof fn lemma_pulse_end(m: IrrigationModel, config: IrrigationConfig)
    requires
        m.state is Pumping,
    ensures
        irrigation_step(m, IrrigationEvent::PumpPulseFinished, config).1 == pulse_end_actions(config),
        irrigation_step(m, IrrigationEvent::PumpPulseFinished, config).0.state is Absorbing,
{
}

/// A watchdog timeout blocks the cycle, switches the pump off and cancels
/// the pending pulse deadline, whatever the phase.
pub proof fn lemma_pump_timeout_blocks(m: IrrigationModel, config: IrrigationConfig)
    ensures
        irrigation_step(m, IrrigationEvent::PumpSafetyTimeout, config).0.state
            == IrrigationState::Blocked(IrrigationBlockReason::PumpTimeout),
        irrigation_step(m, IrrigationEvent::PumpSafetyTimeout, config).1[0]
            == IrrigationAction::SetPump(false),
        irrigation_step(m, IrrigationEvent::PumpSafetyTimeout, config).1.contains(
            IrrigationAction::CancelScheduled(ScheduledEventKind::PumpPulseFinished),
        ),
{
    assert(irrigation_step(m, IrrigationEvent::PumpSafetyTimeout, config).1[1]
        == IrrigationAction::CancelScheduled(ScheduledEventKind::PumpPulseFinished));
}

/// An abort blocks the cycle with its reason, switches the pump off and
/// cancels the pending pump and absorption work.
pub proof fn lemma_abort_cancels_pending_work(
    m: IrrigationModel,
    reason: IrrigationBlockReason,
    config: IrrigationConfig,
)
    ensures
        irrigation_step(m, IrrigationEvent::Abort(reason), config).0.state
            == IrrigationState::Blocked(reason),
        irrigation_step(m, IrrigationEvent::Abort(reason), config).1 == abort_actions(),
{
}

} // verus!
