//! The engine: filtering, paging, correlation and statistics.

pub mod correlation;
pub mod grouping;
pub mod paginator;
pub mod query;
pub mod stats;
pub mod store;
