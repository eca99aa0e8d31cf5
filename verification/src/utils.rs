//! Shared helpers.

pub mod json;
pub mod ranking;
pub mod text;
pub mod validation;
