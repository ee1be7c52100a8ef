//! Ground-station and flight-controller logic of a radio-controlled plane:
//! link byte-rate accounting, telemetry and log handling, trim selection and
//! gamepad mapping.

pub mod async_stats;
pub mod byte_rate_counter;
pub mod clock;
pub mod commands;
pub mod control_mapping;
pub mod defmt_format;
pub mod defmt_log;
pub mod log_history;
pub mod log_line;
pub mod pwm;
pub mod rates;
pub mod serial_link;
pub mod tasks;
pub mod telemetry;
pub mod text;
pub mod trim;
