//! State of the demonstration device that speaks the MQTT contract without
//! physical hardware.
use vstd::prelude::*;

use crate::protocol::{
    CommandEnvelope, DeviceCommand, IrrigationStatus, OverrideMode, OverrideTarget, SCHEMA_VERSION,
};

verus! {

/// Actuator and irrigation state of the simulated device.
#[derive(Debug, Clone, Copy, PartialEq, Eq, Structural)]
pub struct SimulatorState {
    pub sequence: u64,
    pub lights_on: bool,
    pub fans_on: bool,
    pub irrigation: IrrigationStatus,
}

/// The integer part of one simulated telemetry snapshot; the simulated
/// climate values are derived from `phase`.
#[derive(Debug, Clone, Copy, PartialEq, Eq, Structural)]
pub struct SimulatedSample {
    pub sequence: u64,
    pub uptime_seconds: u64,
    pub phase: u8,
    pub soil_moisture_pct: u8,
    pub lights_on: bool,
    pub fans_on: bool,
    pub pump_on: bool,
    pub irrigation: IrrigationStatus,
}

/// Why the simulated device refuses a command.
#[derive(Debug, Clone, Copy, PartialEq, Eq, Structural)]
pub enum CommandRejection {
    UnsupportedSchemaVersion,
}

/// The state after applying `command`: an override forces its target on
/// for `on` and off for `off` and `auto`; irrigation start pumps, cancel
/// idles, and a snapshot request changes nothing.
pub open spec fn applied(state: SimulatorState, command: DeviceCommand) -> SimulatorState {
    match command {
        DeviceCommand::SetOverride { target, mode, .. } => {
            let value = mode == OverrideMode::On;
            match target {
                OverrideTarget::Lights => SimulatorState { lights_on: value, ..state },
                OverrideTarget::Fans => SimulatorState { fans_on: value, ..state },
            }
        },
        DeviceCommand::StartIrrigationCycle => SimulatorState {
            irrigation: IrrigationStatus::Pumping,
            ..state
        },
        DeviceCommand::CancelIrrigation => SimulatorState { irrigation: IrrigationStatus::Idle, ..state },
        DeviceCommand::RequestSnapshot => state,
    }
}

impl Default for SimulatorState {
    /// Lights on, fans off, irrigation idle, nothing published yet.
    fn default() -> (state: Self)
        ensures
            state == (SimulatorState {
                sequence: 0,
                lights_on: true,
                fans_on: false,
                irrigation: IrrigationStatus::Idle,
            }),
    {
        SimulatorState {
            sequence: 0,
            lights_on: true,
            fans_on: false,
            irrigation: IrrigationStatus::Idle,
        }
    }
}

impl SimulatorState {
    /// Applies a command (see [`applied`]).
    pub fn apply(&mut self, command: &DeviceCommand)
        ensures
            *final(self) == applied(*old(self), *command),
    {
        match command {
            DeviceCommand::SetOverride { target, mode, .. } => {
                let value = match mode {
                    OverrideMode::Auto => false,
                    OverrideMode::On => true,
                    OverrideMode::Off => false,
                };
                match target {
                    OverrideTarget::Lights => self.lights_on = value,
                    OverrideTarget::Fans => self.fans_on = value,
                }
            },
            DeviceCommand::StartIrrigationCycle => {
                self.irrigation = IrrigationStatus::Pumping;
            },
            DeviceCommand::CancelIrrigation => {
                self.irrigation = IrrigationStatus::Idle;
            },
            DeviceCommand::RequestSnapshot => {},
        }
    }

    /// Accepts and applies a command envelope of the supported schema
    /// version; any other version is refused and changes nothing.
    pub fn accept(&mut self, envelope: &CommandEnvelope) -> (result: Result<(), CommandRejection>)
        ensures
            envelope.schema_version == SCHEMA_VERSION ==> result is Ok && *final(self) == applied(
                *old(self),
                envelope.command,
            ),
            envelope.schema_version != SCHEMA_VERSION ==> result == Err::<(), CommandRejection>(
                CommandRejection::UnsupportedSchemaVersion,
            ) && *final(self) == *old(self),
    {
        if envelope.schema_version != SCHEMA_VERSION {
            return Err(CommandRejection::UnsupportedSchemaVersion);
        }
        self.apply(&envelope.command);
        Ok(())
    }

    /// Advances the publication counter and describes the next snapshot:
    /// uptime grows by five seconds per snapshot, the climate phase cycles
    /// through ten steps and soil moisture through 38-42 %.
    pub fn next_sample(&mut self) -> (sample: SimulatedSample)
        requires
            old(self).sequence < u64::MAX / 5,
        ensures
            *final(self) == (SimulatorState { sequence: (old(self).sequence + 1) as u64, ..*old(self) }),
            sample == (SimulatedSample {
                sequence: final(self).sequence,
                uptime_seconds: (final(self).sequence * 5) as u64,
                phase: (final(self).sequence % 10) as u8,
                soil_moisture_pct: (38 + final(self).sequence % 5) as u8,
                lights_on: old(self).lights_on,
                fans_on: old(self).fans_on,
                pump_on: old(self).irrigation == IrrigationStatus::Pumping,
                irrigation: old(self).irrigation,
            }),
    {
        self.sequence = self.sequence + 1;
        SimulatedSample {
            sequence: self.sequence,
            uptime_seconds: self.sequence * 5,
            phase: (self.sequence % 10) as u8,
            soil_moisture_pct: 38 + (self.sequence % 5) as u8,
            lights_on: self.lights_on,
            fans_on: self.fans_on,
            pump_on: self.irrigation == IrrigationStatus::Pumping,
            irrigation: self.irrigation,
        }
    }
}

/// Cancelling irrigation after starting it leaves the simulated device
/// idle, and an `auto` override switches its target off.
pub proof fn lemma_simulator_commands(state: SimulatorState, target: OverrideTarget, duration: Option<u32>)
    ensures
        applied(applied(state, DeviceCommand::StartIrrigationCycle), DeviceCommand::CancelIrrigation).irrigation
            == IrrigationStatus::Idle,
        applied(
            state,
            DeviceCommand::SetOverride { target, mode: OverrideMode::Auto, duration_seconds: duration },
        ) == applied(
            state,
            DeviceCommand::SetOverride { target, mode: OverrideMode::Off, duration_seconds: duration },
        ),
{
}

} // verus!
