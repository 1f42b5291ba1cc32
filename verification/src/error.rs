//! Typed failures surfaced by the entity store, the aggregation engine and
//! the composition layer.

use vstd::prelude::*;

verus! {

/// Failure taxonomy of the core.
///
/// - `ReferenceNotFound`: a foreign-key target (user or metadata id) is missing.
/// - `Conflict`: a conflicting write on the same primary key.
/// - `ValidationFailed`: malformed input, such as an ill-formed rating.
/// - `NotEnabled`: an operation against a disabled feature domain.
/// - `Internal`: unexpected storage failure, such as id exhaustion.
#[derive(Clone, Copy, Debug, PartialEq, Eq, Structural)]
pub enum StoreError {
    ReferenceNotFound,
    Conflict,
    ValidationFailed,
    NotEnabled,
    Internal,
}

impl StoreError {
    /// A short stable tag for the error kind, for transport layers to show.
    pub fn kind(&self) -> (r: &'static str)
        ensures
            (*self == StoreError::ReferenceNotFound) ==> r@ == "REFERENCE_NOT_FOUND"@,
            (*self == StoreError::Conflict) ==> r@ == "CONFLICT"@,
            (*self == StoreError::ValidationFailed) ==> r@ == "VALIDATION_FAILED"@,
            (*self == StoreError::NotEnabled) ==> r@ == "NOT_ENABLED"@,
            (*self == StoreError::Internal) ==> r@ == "INTERNAL"@,
    {
        match self {
            StoreError::ReferenceNotFound => "REFERENCE_NOT_FOUND",
            StoreError::Conflict => "CONFLICT",
            StoreError::ValidationFailed => "VALIDATION_FAILED",
            StoreError::NotEnabled => "NOT_ENABLED",
            StoreError::Internal => "INTERNAL",
        }
    }
}

} // verus!
