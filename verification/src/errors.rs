use vstd::prelude::*;

verus! {

/// Failure modes of a single attack invocation. An invocation either
/// succeeds with the recovered exponent or reports exactly one of these.
#[derive(Clone, Copy, Debug, PartialEq, Eq, Structural)]
pub enum AttackError {
    /// The supplied constant bundle does not satisfy the subgroup
    /// relations (for example, `d1 + d2` does not divide `q - 1` exactly).
    ParameterInconsistency,
    /// A baby-step/giant-step stage completed all its giant iterations
    /// without a table hit.
    SearchExhausted,
    /// The recombined exponent does not reproduce the caller-supplied
    /// scaled base point.
    VerificationFailed,
    /// The recovered exponent does not fit the output integer width.
    RangeOverflow,
    /// A pairing evaluation of the input points had no defined value.
    DegeneratePairing,
}

} // verus!
