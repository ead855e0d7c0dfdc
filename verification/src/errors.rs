//! Error kinds of the editor core.

use vstd::prelude::*;

verus! {

/// Failures the editor core can report. Every mutation path either fully
/// succeeds or is rejected with one of these before the model is touched.
#[derive(Debug, Clone, PartialEq, Eq)]
pub enum ProtoError {
    /// Malformed hex color text: anything but `#` followed by 6 hex digits.
    InvalidColor,
    /// Malformed persisted descriptor text, with a short description.
    ParseFailure(String),
    /// The external rendering engine reported a failure, with its message.
    RenderFailure(String),
    /// A field index out of bounds of the current field list.
    IndexError,
}

} // verus!
