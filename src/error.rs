//! The kinds of failure that the store and the export report.
use vstd::prelude::*;

verus! {

/// What went wrong, kept distinct so that a caller can react to each kind.
#[derive(Clone, Copy, Debug, PartialEq, Eq, Structural)]
pub enum InformationError {
    /// A request that is malformed: an empty id set, an empty page, a
    /// negative offset.
    Validation,
    /// The acceptance number is already taken by another record.
    Conflict,
    /// No record has the requested id.
    NotFound,
    /// The storage could not carry out the operation.
    Storage,
    /// The spreadsheet could not be produced.
    Render,
    /// A stored value cannot be read back (a timestamp out of range, an
    /// invalid row).
    Integrity,
}

/// The message shown for each kind of failure.
pub open spec fn message_of(e: InformationError) -> &'static str {
    match e {
        InformationError::Validation => "Invalid request",
        InformationError::Conflict => "Acceptance number already exists",
        InformationError::NotFound => "Information not found",
        InformationError::Storage => "Failed to access storage",
        InformationError::Render => "Failed to render the export",
        InformationError::Integrity => "Corrupt record",
    }
}

impl InformationError {
    /// A short message for the user.
    pub fn message(&self) -> (r: &'static str)
        ensures
            r == message_of(*self),
    {
        match self {
            InformationError::Validation => "Invalid request",
            InformationError::Conflict => "Acceptance number already exists",
            InformationError::NotFound => "Information not found",
            InformationError::Storage => "Failed to access storage",
            InformationError::Render => "Failed to render the export",
            InformationError::Integrity => "Corrupt record",
        }
    }
}

} // verus!
