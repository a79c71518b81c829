use growntrol::{ConfigError, SystemConfig};

#[test]
fn default_configuration_is_valid() {
    assert_eq!(SystemConfig::default().validate(), Ok(()));
}

#[test]
fn rejects_missing_fan_hysteresis() {
    let mut config = SystemConfig::default();
    config.fan.temperature_off_tenths_c = config.fan.temperature_on_tenths_c;
    assert_eq!(
        config.validate(),
        Err(ConfigError::InvalidFanTemperatureHysteresis)
    );
}

#[test]
fn rejects_pump_maximum_shorter_than_normal_pulse() {
    let mut config = SystemConfig::default();
    config.irrigation.pump_maximum_seconds = config.irrigation.pump_pulse_seconds - 1;
    assert_eq!(config.validate(), Err(ConfigError::InvalidPumpMaximum));
}

#[test]
fn default_configuration_values() {
    let config = SystemConfig::default();
    assert_eq!(config.lighting.start_minute, 1200);
    assert_eq!(config.lighting.duration_minutes, 1080);
    assert_eq!(config.fan.temperature_on_tenths_c, 290);
    assert_eq!(config.fan.humidity_off_tenths_pct, 680);
    assert_eq!(config.irrigation.target_pct, 42);
    assert_eq!(config.irrigation.max_pulses_per_cycle, 3);
}

#[test]
fn each_configuration_rule_has_its_error() {
    let mut c = SystemConfig::default();
    c.lighting.duration_minutes = 0;
    assert_eq!(c.validate(), Err(ConfigError::InvalidLightingDuration));
    c.lighting.duration_minutes = 1441;
    assert_eq!(c.validate(), Err(ConfigError::InvalidLightingDuration));
    c.lighting.duration_minutes = 1440;
    assert_eq!(c.validate(), Ok(()));

    let mut c = SystemConfig::default();
    c.fan.humidity_off_tenths_pct = 800;
    assert_eq!(c.validate(), Err(ConfigError::InvalidFanHumidityHysteresis));

    let mut c = SystemConfig::default();
    c.fan.alert_sample_minutes = 0;
    assert_eq!(c.validate(), Err(ConfigError::InvalidSamplingInterval));

    let mut c = SystemConfig::default();
    c.irrigation.target_pct = 101;
    assert_eq!(c.validate(), Err(ConfigError::InvalidSoilThresholds));
    c.irrigation.target_pct = 30;
    assert_eq!(c.validate(), Err(ConfigError::InvalidSoilThresholds));

    let mut c = SystemConfig::default();
    c.irrigation.pump_pulse_seconds = 0;
    assert_eq!(c.validate(), Err(ConfigError::InvalidPumpPulse));

    let mut c = SystemConfig::default();
    c.irrigation.absorption_minutes = 0;
    assert_eq!(c.validate(), Err(ConfigError::InvalidAbsorptionTime));

    let mut c = SystemConfig::default();
    c.irrigation.max_pulses_per_cycle = 0;
    assert_eq!(c.validate(), Err(ConfigError::InvalidPulseLimit));
}

#[test]
fn first_broken_rule_is_reported() {
    let mut c = SystemConfig::default();
    c.lighting.duration_minutes = 0;
    c.irrigation.max_pulses_per_cycle = 0;
    assert_eq!(c.validate(), Err(ConfigError::InvalidLightingDuration));
}
