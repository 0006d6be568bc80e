//! Per-device mouse settings: the configuration model, device-path parsing
//! and the decisions behind the settings window.

pub mod config;
pub mod device;
pub mod mouse_config;
pub mod state;
