//! The ways in which an operation on the store can fail.
use vstd::prelude::*;

verus! {

/// Why an operation was refused. No operation changes anything when it
/// returns one of these.
#[derive(Clone, Copy, Debug, PartialEq, Eq, Structural)]
pub enum StoreError {
    /// The stored bytes are not the encoding of any known record layout.
    CorruptRecord,
    /// No record is stored under the requested key.
    NotFound,
    /// The persisted root is neither in the previous nor in the current layout.
    CorruptState,
    /// The persisted root is already in the current layout.
    UnexpectedLayout,
    /// The counter already holds the largest value of its type.
    Overflow,
}

/// The words that say what went wrong.
pub open spec fn error_text(e: StoreError) -> Seq<char> {
    match e {
        StoreError::CorruptRecord => "corrupt record"@,
        StoreError::NotFound => "record not found"@,
        StoreError::CorruptState => "corrupt state"@,
        StoreError::UnexpectedLayout => "unexpected state layout"@,
        StoreError::Overflow => "counter overflow"@,
    }
}

impl StoreError {
    /// The error in words.
    pub fn message(&self) -> (r: &'static str)
        ensures
            r@ == error_text(*self),
    {
        match self {
            StoreError::CorruptRecord => "corrupt record",
            StoreError::NotFound => "record not found",
            StoreError::CorruptState => "corrupt state",
            StoreError::UnexpectedLayout => "unexpected state layout",
            StoreError::Overflow => "counter overflow",
        }
    }
}

} // verus!
