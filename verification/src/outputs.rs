//! Logical-to-electrical mapping of relays and switches.
use vstd::prelude::*;

use crate::state::TankState;

verus! {

/// Whether the pin must be driven high to put an output in logical state
/// `on`; an active-low output is on when its pin is low.
pub fn output_drive_high(on: bool, active_low: bool) -> (high: bool)
    ensures
        high == (on != active_low),
{
    on != active_low
}

/// The pin level (1 high, 0 low) that keeps an output inactive.
pub fn inactive_level(active_low: bool) -> (level: u32)
    ensures
        level == (if active_low {
            1u32
        } else {
            0u32
        }),
{
    if active_low {
        1
    } else {
        0
    }
}

/// The pin write that moves an output from `current_on` to `requested_on`:
/// none when the logical state does not change, otherwise whether the pin
/// is driven high.
pub open spec fn required_write(current_on: bool, requested_on: bool, active_low: bool) -> Option<bool> {
    if current_on == requested_on {
        None
    } else {
        Some(requested_on != active_low)
    }
}

/// Plans the pin write for a requested output state (see
/// [`required_write`]).
pub fn plan_output_write(current_on: bool, requested_on: bool, active_low: bool) -> (write: Option<bool>)
    ensures
        write == required_write(current_on, requested_on, active_low),
{
    if current_on == requested_on {
        return None;
    }
    Some(output_drive_high(requested_on, active_low))
}

/// The tank state read from the float switch: water is available when the
/// pin level matches the wired polarity; otherwise the tank is reported
/// low, which also covers a disconnected float.
pub fn tank_state_from_float(pin_low: bool, available_when_low: bool) -> (tank: TankState)
    ensures
        tank == (if pin_low == available_when_low {
            TankState::WaterAvailable
        } else {
            TankState::WaterLow
        }),
{
    let available = if available_when_low {
        pin_low
    } else {
        !pin_low
    };
    if available {
        TankState::WaterAvailable
    } else {
        TankState::WaterLow
    }
}

/// What the pump watchdog does when its maximum-runtime timer fires while
/// the pump is on: drive the pin to this level and tell the control runtime.
#[derive(Debug, Clone, Copy, PartialEq, Eq, Structural)]
pub struct PumpWatchdogResponse {
    /// The pin level that switches the pump off.
    pub drive_level: u32,
    /// Whether the control runtime must be told of the timeout.
    pub notify_runtime: bool,
}

/// The watchdog's response when its timer fires: nothing when the pump is
/// already off; otherwise drive the pin to the inactive level and notify
/// the runtime.
pub fn pump_watchdog_response(pump_on: bool, active_low: bool) -> (response: Option<
    PumpWatchdogResponse,
>)
    ensures
        response is Some <==> pump_on,
        response matches Some(r) ==> r.drive_level == (if active_low {
            1u32
        } else {
            0u32
        }) && r.notify_runtime,
{
    if !pump_on {
        return None;
    }
    Some(PumpWatchdogResponse { drive_level: inactive_level(active_low), notify_runtime: true })
}

/// The pump's logical state after the watchdog fired: off when the pin
/// write succeeded, unchanged when it failed (and off when it was off).
pub fn pump_on_after_watchdog(pump_on: bool, write_succeeded: bool) -> (on: bool)
    ensures
        on == (pump_on && !write_succeeded),
{
    pump_on && !write_succeeded
}

/// The tank state used when a tank measurement was asked for: the reading
/// when there is one, a sensor fault when the read failed.
pub fn tank_state_or_fault(reading: Option<TankState>) -> (tank: TankState)
    ensures
        tank == (match reading {
            Some(state) => state,
            None => TankState::SensorFault,
        }),
{
    match reading {
        Some(state) => state,
        None => TankState::SensorFault,
    }
}

/// INV-003 for every actuator: asking again for the state just applied
/// writes nothing;
/// after a write the output is in the requested state, and the pin level
/// written puts it there.
pub proof fn lemma_repeated_request_writes_nothing(current_on: bool, requested_on: bool, active_low: bool)
    ensures
        required_write(requested_on, requested_on, active_low) is None,
        required_write(current_on, requested_on, active_low) matches Some(high) ==> (high
            != active_low) == requested_on,
{
}

} // verus!
