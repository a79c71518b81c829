//! Domain rules of the Growntrol indoor-grow controller.
//!
//! Every module holds executable code whose behaviour is stated by
//! `requires`/`ensures` contracts over mathematical models.

pub mod climate;
pub mod config;
pub mod control;
pub mod event;
pub mod irrigation;
pub mod lighting;
pub mod outputs;
pub mod protocol;
pub mod registry;
pub mod rtc;
pub mod scheduler;
pub mod simulator;
pub mod soil;
pub mod state;
pub mod timing;

pub use climate::{evaluate_fan, FanDecision};
pub use config::{ConfigError, FanConfig, IrrigationConfig, LightingConfig, SystemConfig};
pub use control::{
    admit_irrigation_actions, event_after_failed_work, light_switch, plan_climate_sample,
    plan_lighting, wait_seconds, work_for_deadline, AdmittedActions, ClimatePlan, DueWork,
    LightSwitch, LightingPlan, CLOCK_RETRY_SECONDS, FIRST_CLIMATE_SAMPLE_SECONDS,
    IDLE_WAIT_SECONDS,
};
pub use event::{ControlEvent, ScheduledEvent, ScheduledEventKind};
pub use irrigation::{IrrigationAction, IrrigationDecision, IrrigationEvent, IrrigationMachine};
pub use lighting::{evaluate_lighting, LightingDecision};
pub use outputs::{
    inactive_level, output_drive_high, plan_output_write, pump_on_after_watchdog,
    pump_watchdog_response, tank_state_from_float, tank_state_or_fault, PumpWatchdogResponse,
};
pub use protocol::{
    availability_from_word, check_acknowledgement, check_telemetry, kind_suffix_str,
    parse_device_topic, subscription_filter, Availability, CommandAcknowledgement, CommandEnvelope,
    DeviceCommand, DeviceTopicKind, DeviceTopics, IrrigationStatus, OverrideMode, OverrideTarget,
    PayloadRejection, TankStatus, MQTT_ROOT, SCHEMA_VERSION,
};
pub use registry::{ingest_kind, DeviceRecord, DeviceRegistry, DeviceUpdate, IngestKind};
pub use rtc::{decode_ds3231_time, decode_hour, RtcDateTime, RtcError};
pub use scheduler::DeadlineScheduler;
pub use simulator::{CommandRejection, SimulatedSample, SimulatorState};
pub use soil::{
    median_sample, soil_percent, SoilCalibration, SoilError, SOIL_SAMPLES_PER_MEASUREMENT,
};
pub use state::{
    ClimateReading, FanState, IrrigationBlockReason, IrrigationState, OutputState, TankState,
};
pub use timing::{seconds_until_minute, SECONDS_PER_DAY};
