//! Platform logic for small embedded boards: time zones, configuration
//! schemas and settings pages, problem reporting, status indication, LED and
//! display encodings, the task scheduler, and the decisions of the platform's
//! start-up and long-running loops.

pub mod binary_clock;
pub mod board_features;
pub mod clock;
pub mod color;
pub mod config;
pub mod config_fields;
pub mod config_manager;
pub mod dns;
pub mod dyndns;
pub mod feature;
pub mod http;
pub mod imu;
pub mod led;
pub mod listener;
pub mod number;
pub mod panel;
pub mod platform;
pub mod problem;
pub mod smart_led;
pub mod startup;
pub mod status;
pub mod task;
pub mod task_control;
pub mod template;
pub mod text;
pub mod touch;
pub mod tz;
pub mod wait_notify;
