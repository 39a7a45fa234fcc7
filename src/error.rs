use vstd::prelude::*;

verus! {

/// The ways an operation of this library can fail.
///
/// A missing row is not an error: lookups answer with `None` and deletions
/// with `false`. `NotFound` is for callers that turn such an absence into a
/// failure of their own.
#[derive(Debug, PartialEq, Eq)]
pub enum AppError {
    /// The input breaks a field constraint; the text names the constraint.
    Validation(String),
    /// The table refused the write (an identifier already in use).
    Storage(String),
    /// A stored value could not be read back (an identifier or a label that
    /// does not parse, a date in no known format).
    Internal(String),
    /// Raised by callers for an absent row.
    NotFound(String),
}

/// The result of every fallible operation of this library.
pub type Result<T> = core::result::Result<T, AppError>;

} // verus!
