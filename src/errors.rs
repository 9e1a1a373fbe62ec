use crate::time::{Duration, Timestamp, TimestampError};
use vstd::prelude::*;

verus! {

/// Failures of rotation arithmetic.
#[derive(Debug, Clone, Copy, PartialEq, Eq, Structural)]
pub enum QuaternionError {
    /// The divisor's squared norm is below machine epsilon.
    DivisionByZero,
    /// The quaternion's norm is below machine epsilon, so it has no direction.
    ZeroLengthNormalization,
}

/// Failures of composing, inverting, interpolating or looking up transforms.
#[derive(Debug, Clone, PartialEq, Eq)]
pub enum TransformError {
    /// Two stamps that must agree do not; both are carried.
    TimestampMismatch(Timestamp, Timestamp),
    /// Both transforms describe the same child frame.
    SameFrameMultiplication,
    /// The transforms' frames are not adjacent.
    IncompatibleFrames,
    /// No chain joins the two frames (from, to) at the requested instant.
    NotFound(String, String),
    /// Nothing was left to compose.
    TransformTreeEmpty,
    /// A timestamp step left the representable range.
    TimestampError(TimestampError),
    /// The rotation arithmetic failed.
    QuaternionError(QuaternionError),
}

/// Failures of a single child frame's buffer.
#[derive(Debug, Clone, PartialEq, Eq)]
pub enum BufferError {
    /// The retention window is outside (0, limit].
    MaxAgeInvalid(Duration, Duration),
    /// No entries surround the requested instant.
    NoTransformAvailable,
    /// The surrounding entries could not be interpolated.
    TransformError(TransformError),
}

} // verus!
