//! Operator-tunable configuration and its validation rules.
use vstd::prelude::*;

verus! {

/// Daily lighting window: lights switch on at `start_minute` (minute of the
/// day) and stay on for `duration_minutes`.
#[derive(Debug, Clone, Copy, PartialEq, Eq, Structural)]
pub struct LightingConfig {
    pub start_minute: u16,
    pub duration_minutes: u16,
}

/// Ventilation thresholds with separate switch-on and switch-off levels
/// (hysteresis), in tenths of a degree Celsius and tenths of a percent of
/// relative humidity, and the climate sampling intervals in minutes.
#[derive(Debug, Clone, Copy, PartialEq, Eq, Structural)]
pub struct FanConfig {
    pub temperature_on_tenths_c: i16,
    pub temperature_off_tenths_c: i16,
    pub humidity_on_tenths_pct: u16,
    pub humidity_off_tenths_pct: u16,
    pub normal_sample_minutes: u16,
    pub alert_sample_minutes: u16,
}

/// Soil-moisture thresholds and pump limits of one irrigation cycle.
#[derive(Debug, Clone, Copy, PartialEq, Eq, Structural)]
pub struct IrrigationConfig {
    pub start_below_pct: u8,
    pub target_pct: u8,
    pub pump_pulse_seconds: u16,
    pub pump_maximum_seconds: u16,
    pub absorption_minutes: u16,
    pub max_pulses_per_cycle: u8,
    pub only_when_lights_off: bool,
}

/// The complete configuration of the controller.
#[derive(Debug, Clone, Copy, PartialEq, Eq, Structural)]
pub struct SystemConfig {
    pub lighting: LightingConfig,
    pub fan: FanConfig,
    pub irrigation: IrrigationConfig,
}

/// The factory configuration: an 18-hour light cycle from 20:00, fans on at
/// 29.0 °C or 75.0 % and off below 27.0 °C and 68.0 %, irrigation below 30 %
/// up to 42 % with 8-second pulses.
pub open spec fn default_system_config() -> SystemConfig {
    SystemConfig {
        lighting: LightingConfig { start_minute: 1200, duration_minutes: 1080 },
        fan: FanConfig {
            temperature_on_tenths_c: 290,
            temperature_off_tenths_c: 270,
            humidity_on_tenths_pct: 750,
            humidity_off_tenths_pct: 680,
            normal_sample_minutes: 5,
            alert_sample_minutes: 1,
        },
        irrigation: IrrigationConfig {
            start_below_pct: 30,
            target_pct: 42,
            pump_pulse_seconds: 8,
            pump_maximum_seconds: 15,
            absorption_minutes: 5,
            max_pulses_per_cycle: 3,
            only_when_lights_off: true,
        },
    }
}

impl Default for SystemConfig {
    fn default() -> (config: Self)
        ensures
            config == default_system_config(),
    {
        SystemConfig {
            lighting: LightingConfig { start_minute: 20 * 60, duration_minutes: 18 * 60 },
            fan: FanConfig {
                temperature_on_tenths_c: 290,
                temperature_off_tenths_c: 270,
                humidity_on_tenths_pct: 750,
                humidity_off_tenths_pct: 680,
                normal_sample_minutes: 5,
                alert_sample_minutes: 1,
            },
            irrigation: IrrigationConfig {
                start_below_pct: 30,
                target_pct: 42,
                pump_pulse_seconds: 8,
                pump_maximum_seconds: 15,
                absorption_minutes: 5,
                max_pulses_per_cycle: 3,
                only_when_lights_off: true,
            },
        }
    }
}

/// The rule of the configuration that a check found broken.
#[derive(Debug, Clone, Copy, PartialEq, Eq, Structural)]
pub enum ConfigError {
    InvalidLightingDuration,
    InvalidFanTemperatureHysteresis,
    InvalidFanHumidityHysteresis,
    InvalidSamplingInterval,
    InvalidSoilThresholds,
    InvalidPumpPulse,
    InvalidPumpMaximum,
    InvalidAbsorptionTime,
    InvalidPulseLimit,
}

/// Every rule a configuration must satisfy before it may become active.
pub open spec fn valid_config(c: SystemConfig) -> bool {
    &&& 0 < c.lighting.duration_minutes <= 1440
    &&& c.fan.temperature_off_tenths_c < c.fan.temperature_on_tenths_c
    &&& c.fan.humidity_off_tenths_pct < c.fan.humidity_on_tenths_pct
    &&& c.fan.normal_sample_minutes != 0
    &&& c.fan.alert_sample_minutes != 0
    &&& c.irrigation.start_below_pct < c.irrigation.target_pct <= 100
    &&& c.irrigation.pump_pulse_seconds != 0
    &&& c.irrigation.pump_pulse_seconds <= c.irrigation.pump_maximum_seconds
    &&& c.irrigation.absorption_minutes != 0
    &&& c.irrigation.max_pulses_per_cycle != 0
}

/// The first broken rule, in the order the rules are checked, or `None` when
/// the configuration is valid.
pub open spec fn first_config_error(c: SystemConfig) -> Option<ConfigError> {
    if c.lighting.duration_minutes == 0 || c.lighting.duration_minutes > 1440 {
        Some(ConfigError::InvalidLightingDuration)
    } else if c.fan.temperature_off_tenths_c >= c.fan.temperature_on_tenths_c {
        Some(ConfigError::InvalidFanTemperatureHysteresis)
    } else if c.fan.humidity_off_tenths_pct >= c.fan.humidity_on_tenths_pct {
        Some(ConfigError::InvalidFanHumidityHysteresis)
    } else if c.fan.normal_sample_minutes == 0 || c.fan.alert_sample_minutes == 0 {
        Some(ConfigError::InvalidSamplingInterval)
    } else if c.irrigation.start_below_pct >= c.irrigation.target_pct || c.irrigation.target_pct
        > 100 {
        Some(ConfigError::InvalidSoilThresholds)
    } else if c.irrigation.pump_pulse_seconds == 0 {
        Some(ConfigError::InvalidPumpPulse)
    } else if c.irrigation.pump_maximum_seconds < c.irrigation.pump_pulse_seconds {
        Some(ConfigError::InvalidPumpMaximum)
    } else if c.irrigation.absorption_minutes == 0 {
        Some(ConfigError::InvalidAbsorptionTime)
    } else if c.irrigation.max_pulses_per_cycle == 0 {
        Some(ConfigError::InvalidPulseLimit)
    } else {
        None
    }
}

impl SystemConfig {
    /// Checks every rule; the error names the first rule found broken.
    pub fn validate(&self) -> (result: Result<(), ConfigError>)
        ensures
            result is Ok <==> valid_config(*self),
            result == (match first_config_error(*self) {
                Some(e) => Err(e),
                None => Ok(()),
            }),
    {
        if self.lighting.duration_minutes == 0 || self.lighting.duration_minutes > 24 * 60 {
            return Err(ConfigError::InvalidLightingDuration);
        }
        if self.fan.temperature_off_tenths_c >= self.fan.temperature_on_tenths_c {
            return Err(ConfigError::InvalidFanTemperatureHysteresis);
        }
        if self.fan.humidity_off_tenths_pct >= self.fan.humidity_on_tenths_pct {
            return Err(ConfigError::InvalidFanHumidityHysteresis);
        }
        if self.fan.normal_sample_minutes == 0 || self.fan.alert_sample_minutes == 0 {
            return Err(ConfigError::InvalidSamplingInterval);
        }
        if self.irrigation.start_below_pct >= self.irrigation.target_pct
            || self.irrigation.target_pct > 100 {
            return Err(ConfigError::InvalidSoilThresholds);
        }
        if self.irrigation.pump_pulse_seconds == 0 {
            return Err(ConfigError::InvalidPumpPulse);
        }
        if self.irrigation.pump_maximum_seconds < self.irrigation.pump_pulse_seconds {
            return Err(ConfigError::InvalidPumpMaximum);
        }
        if self.irrigation.absorption_minutes == 0 {
            return Err(ConfigError::InvalidAbsorptionTime);
        }
        if self.irrigation.max_pulses_per_cycle == 0 {
            return Err(ConfigError::InvalidPulseLimit);
        }
        Ok(())
    }
}

/// The factory configuration passes validation.
pub proof fn lemma_default_config_is_valid()
    ensures
        valid_config(default_system_config()),
        first_config_error(default_system_config()) is None,
{
}

} // verus!
