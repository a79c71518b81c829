//! Events consumed by the controller and deadlines it keeps.
use vstd::prelude::*;

use crate::state::{ClimateReading, TankState};

verus! {

/// An observation or transition that the control runtime reacts to.
#[derive(Debug, Clone, Copy, PartialEq, Eq, Structural)]
pub enum ControlEvent {
    Boot,
    LightTransition { minute_of_day: u16 },
    ClimateMeasured(ClimateReading),
    SoilMeasured { moisture_pct: u8 },
    TankMeasured(TankState),
    PumpPulseFinished,
    AbsorptionFinished,
    ConfigurationChanged,
}

/// The kinds of one-shot deadline the runtime can have pending.
#[derive(Debug, Clone, Copy, PartialEq, Eq, Structural)]
pub enum ScheduledEventKind {
    LightTransition,
    ClimateSample,
    PumpPulseFinished,
    AbsorptionFinished,
    PumpSafetyTimeout,
}

/// A pending deadline: `kind` fires once the monotonic clock reaches
/// `due_at_seconds`.
#[derive(Debug, Clone, Copy, PartialEq, Eq, Structural)]
pub struct ScheduledEvent {
    pub due_at_seconds: u64,
    pub kind: ScheduledEventKind,
}

} // verus!
