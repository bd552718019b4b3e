use vstd::prelude::*;

verus! {

/// Errors surfaced by the proving-system core.
///
/// Every failure is deterministic given the same inputs; nothing here is
/// retryable.
#[derive(Clone, Copy, Debug, PartialEq, Eq, Structural)]
pub enum Error {
    /// The composer's selector and wire columns do not all have the same
    /// length: a structural invariant was violated before preprocessing.
    MismatchedPolyLen,
    /// The polynomial commitment scheme rejected an operation, typically
    /// because the universal parameters are too small for the circuit.
    CommitmentScheme,
    /// Malformed bytes were handed to deserialization.
    Serialization,
}

} // verus!
