//! The errors of the negotiation model.
//!
//! Validation errors are raised at builder-call time, before any mutation.
//! Resolution failure is a normal, expected outcome the caller must handle.
//! Enforcement errors are raised per operation and always leave the key state
//! unchanged.  Infrastructure errors indicate that the surrounding
//! environment, not the negotiation logic, misbehaved.

use vstd::prelude::*;

use crate::runes::Schema;

verus! {

/// Everything that can go wrong while building, resolving, or using a
/// schema.
#[derive(Debug, PartialEq, Eq)]
pub enum Error {
    /// The requested schema cannot be satisfied by any available
    /// construction.  Carries the requirement that could not be met.
    UnsatisfiableRequirements(Schema),
    /// The requested label was not found.
    UnknownLabel,
    /// A communication error occurred.
    CommunicationError,
    /// An internal error occurred, such as a failure of the external time
    /// source or an overflow in time arithmetic.
    InternalError,
    /// The provided variation parameter is invalid for the bound operation.
    InvalidVariation,
    /// The provided message limit is invalid: a requirement may not ask for
    /// an unbounded message count.
    InvalidMessageLimit,
    /// The provided message size limit is invalid: a requirement may not ask
    /// for an unbounded message size.
    InvalidMessageSizeLimit,
    /// The provided total data limit is invalid: a requirement may not ask
    /// for an unbounded data total.
    InvalidTotalDataLimit,
    /// The provided crypto period is invalid: begin must be strictly before
    /// end.  Carries both offending timestamps.
    InvalidCryptoPeriod { begin: i64, end: i64 },
    /// The provided message exceeds the enforced message size limit, or the
    /// enforced message budget is exhausted.
    MessageTooLong,
    /// The enforced total data limit of the bound operation would be
    /// exceeded.
    TotalDataTooLong,
    /// The bound operation is not valid yet.
    CryptoPeriodTooSoon,
    /// The bound operation is no longer valid.
    CryptoPeriodTooLate,
    /// The provided variation parameter is invalid.
    VariationInvalid,
    /// The provided variation parameter is of a type not supported by the
    /// bound operation.
    VariationTypeInvalid,
}

} // verus!
