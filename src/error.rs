//! The ways in which a call to the service can fail.

use vstd::prelude::*;

verus! {

/// Why a call produced no result.
#[derive(Debug, PartialEq, Eq)]
pub enum ApiError {
    /// The request could not be sent or its answer could not be read; the
    /// text says why.
    Transport(String),
    /// The answer's body is not a JSON document.
    Parse,
    /// The document is not shaped as expected: another kind of value, or a
    /// field that is missing or of the wrong type.
    Shape,
    /// A season code or a team that the document was searched for is not
    /// there.
    Lookup,
}

} // verus!
