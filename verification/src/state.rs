//! Physical states observed or commanded by the controller.
use vstd::prelude::*;

verus! {

/// Logical state of the ventilation relay.
#[derive(Debug, Clone, Copy, PartialEq, Eq, Structural)]
pub enum FanState {
    Off,
    On,
}

/// Reading of the water-tank float switch.
#[derive(Debug, Clone, Copy, PartialEq, Eq, Structural)]
pub enum TankState {
    WaterAvailable,
    WaterLow,
    SensorFault,
}

/// Phase of the irrigation cycle.
#[derive(Debug, Clone, Copy, PartialEq, Eq, Structural)]
pub enum IrrigationState {
    Idle,
    CheckingSoil,
    CheckingTank,
    Pumping { pulse: u8 },
    Absorbing { pulse: u8 },
    Completed,
    Blocked(IrrigationBlockReason),
}

/// Why an irrigation cycle stopped before reaching its moisture target.
#[derive(Debug, Clone, Copy, PartialEq, Eq, Structural)]
pub enum IrrigationBlockReason {
    TankLow,
    TankSensorFault,
    SoilSensorFault,
    LightsOn,
    PulseLimitReached,
    PumpTimeout,
    HardwareFault,
    ClockFault,
}

/// One climate measurement in the DHT22's native resolution: tenths of a
/// degree Celsius and tenths of a percent of relative humidity.
#[derive(Debug, Clone, Copy, PartialEq, Eq, Structural)]
pub struct ClimateReading {
    pub temperature_tenths_c: i16,
    pub humidity_tenths_pct: u16,
}

/// The commanded state of every actuator.
#[derive(Debug, Clone, Copy, PartialEq, Eq, Structural)]
pub struct OutputState {
    pub lights_on: bool,
    pub fans: FanState,
    pub pump_on: bool,
}

impl Default for OutputState {
    /// Every actuator off: the fail-safe state.
    fn default() -> (outputs: Self)
        ensures
            outputs == (OutputState { lights_on: false, fans: FanState::Off, pump_on: false }),
    {
        OutputState { lights_on: false, fans: FanState::Off, pump_on: false }
    }
}

} // verus!
