//! Error kinds surfaced by the codec. Decoding errors are terminal for the
//! decode call that raises them; nothing is retried or swallowed.

use vstd::prelude::*;

verus! {

/// Encoding error. This layer introduces none of its own: encoding into the
/// in-memory sink always succeeds, and the variant exists only so a failure
/// of a future sink could be propagated unchanged.
#[derive(Debug, Clone, Copy, PartialEq, Eq, Structural)]
pub enum SerError {
    /// The byte sink refused a write; the in-memory sink never does.
    SinkFailed,
}

/// Decoding error.
#[derive(Debug, Clone, Copy, PartialEq, Eq, Structural)]
pub enum DeError {
    /// The input ended in the middle of a structure.
    Truncated,
    /// An attribute's declared length exceeds the remaining input.
    Underrun,
    /// An attribute's declared length is smaller than the 4-byte attribute
    /// header it must at least contain.
    LengthMismatch,
}

} // verus!
