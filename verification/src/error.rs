//! The error kinds this core raises or passes through. A "not found" outcome
//! of a lookup is never an error.

use vstd::prelude::*;

verus! {

/// Why a `populate` or `save` call failed.
#[derive(Clone, Debug, PartialEq)]
pub enum Error {
    /// The uniqueness check found another document holding the same value on
    /// the named unique-constrained field.
    DuplicateValue(String),
    /// An underlying query or write failed; the message is passed through
    /// uninterpreted. The in-memory store never raises it; a remote driver
    /// standing in for the store may.
    StoreFailure(String),
    /// A relation's fetched data could not be coerced into the field's
    /// declared shape by the record's setter.
    ConversionFailure,
}

} // verus!
