//! Errors of decoding.
use vstd::prelude::*;

verus! {

/// Why an encoding was refused.
#[derive(Clone, Copy, Debug, PartialEq, Eq, Structural)]
pub enum EccError {
    /// Bytes of a wrong length, or bytes that are not a point of the curve.
    ParseError,
    /// Text that is not hexadecimal of the right length, or that holds no element.
    EncodingError,
}

} // verus!
