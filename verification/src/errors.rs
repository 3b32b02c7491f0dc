//! Error taxonomy shared by every interface of the laboratory.

use vstd::prelude::*;

verus! {

/// Every failure the laboratory can report.
///
/// The variants are stable across interfaces: configuration errors are fully
/// recovered by the caller, generation-loop errors abort the current run
/// without corrupting algo state, and `CodeError` marks an internal
/// invariant violation that should be unreachable on well-formed inputs.
#[derive(Debug)]
pub enum Errcode {
    /// Placeholder for an operation that is not implemented yet.
    NotImplemented(&'static str),
    /// The total population is below the minimum; carries `(got, min)`.
    InsuffisantPopulation(usize, usize),
    /// A precondition of `start` is missing; carries the element's name.
    NotSet(&'static str),
    /// An algo identifier is out of range.
    IdDoesntExist(usize),
    /// An internal invariant was violated.
    CodeError(&'static str),
    /// A dataset was removed under an unknown identifier.
    DatasetDoesntExist(String),
    /// A bulk operation had the wrong size; carries `(field, expected, got)`.
    SizeError(&'static str, usize, usize),
    /// A configuration value is out of range or unknown.
    ValidationError(&'static str),
    /// A serialisation step failed; carries the serialiser's message.
    JsonSerializationError(String),
    /// An algo rejected a side-channel message; carries its reply.
    SpecialDataError(String),
}

} // verus!
