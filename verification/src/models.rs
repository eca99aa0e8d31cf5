//! The records the engine works on.

pub mod build_configuration;
pub mod error_report;
pub mod timestamp;
