use vstd::prelude::*;

verus! {

/// The ways a matrix computation can fail.
#[derive(Debug, Clone, Copy, PartialEq, Eq, Structural)]
pub enum MatrixError {
    /// The left operand's column count differs from the right operand's row count.
    Dimension,
    /// A dot product was asked of two vectors of different lengths.
    LengthMismatch,
    /// A reply did not pair with exactly one outstanding task, or a reply
    /// channel closed before delivering its value.
    ChannelBroken,
}

/// The ways a counter update can fail.
#[derive(Debug, Clone, Copy, PartialEq, Eq, Structural)]
pub enum MetricsError {
    /// The counter already holds the largest value it can hold.
    Overflow,
}

} // verus!
