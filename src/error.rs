use vstd::prelude::*;

verus! {

/// Why one indicator could not be computed.
#[derive(PartialEq, Eq, Structural, Clone, Copy, Debug)]
pub enum IndicatorError {
    /// An input series is shorter than the indicator and its period need.
    InsufficientData,
    /// Two series handed to the same computation differ in length.
    MismatchedLength,
    /// The numerical library reported a status other than success.
    ComputationFailure { code: i32 },
    /// The reported begin offset and produced count do not cover the input.
    AlignmentInconsistency,
}

} // verus!
