//! Validation, querying and analytics over build-failure reports.

pub mod config;
pub mod error;
pub mod handlers;
pub mod models;
pub mod services;
pub mod utils;

pub use config::Config;
