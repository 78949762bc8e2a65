//! Error taxonomy of the store and the recurrence engine. Every failure
//! carries a stable symbolic kind so that calling layers can branch on it;
//! `code` gives the stable wire string for each kind.

use vstd::prelude::*;

verus! {

/// The kinds of failure an operation can report. All are recoverable from the
/// caller's perspective; no operation of this crate aborts the process.
#[derive(Clone, Copy, PartialEq, Eq, Structural, Debug)]
pub enum StoreError {
    /// Validation failed before any mutation (e.g. a blank title).
    InvalidInput,
    /// No entity with the given id exists in the collection.
    NotFound,
    /// The synchronization primitive guarding a store was unusable.
    LockError,
    /// An I/O failure while persisting; the in-memory mutation stands.
    PersistenceFailure,
    /// A date string was malformed where a valid date decides control flow.
    DateParseError,
}

impl StoreError {
    /// The stable symbolic code of this error kind.
    pub fn code(&self) -> (r: String)
        ensures
            *self == StoreError::InvalidInput ==> r@ == "BAD_INPUT"@,
            *self == StoreError::NotFound ==> r@ == "NOT_FOUND"@,
            *self == StoreError::LockError ==> r@ == "LOCK_ERROR"@,
            *self == StoreError::PersistenceFailure ==> r@ == "PERSIST_ERROR"@,
            *self == StoreError::DateParseError ==> r@ == "DATE_PARSE"@,
    {
        match self {
            StoreError::InvalidInput => String::from_str("BAD_INPUT"),
            StoreError::NotFound => String::from_str("NOT_FOUND"),
            StoreError::LockError => String::from_str("LOCK_ERROR"),
            StoreError::PersistenceFailure => String::from_str("PERSIST_ERROR"),
            StoreError::DateParseError => String::from_str("DATE_PARSE"),
        }
    }
}

} // verus!
