//! What can go wrong in the engine.

use crate::utils::validation::ValidationError;
use vstd::prelude::*;

verus! {

/// A failure of the record store.
#[derive(Clone, Copy, Debug, PartialEq, Eq, Structural)]
pub enum StoreError {
    /// Every identifier has been handed out.
    IdsExhausted,
    /// A build configuration names a report that is not stored.
    NoSuchReport,
    /// The report already has a build configuration.
    DuplicateConfiguration,
}

/// A failure of an operation of the engine.
#[derive(Debug, PartialEq, Eq)]
pub enum EngineError {
    /// The submission broke a rule and was not stored.
    Validation(ValidationError),
    /// The record store failed.
    Store(StoreError),
    /// No report has the identifier that was asked for.
    NotFound,
}

} // verus!
