use vstd::prelude::*;

verus! {

/// Names the point field of a verification key or proof that failed the
/// curve-membership / subgroup check during preparation.
#[derive(Clone, Copy, PartialEq, Eq, Structural, Debug)]
pub enum PointTag {
    Alpha,
    Beta,
    Gamma,
    Delta,
    /// Entry of the `ic` sequence, with its index.
    Ic(usize),
    A,
    B,
    C,
}

/// Every failure the verification pipeline can surface. A `false` verdict of
/// `verify` is not an error: it is the legitimate negative outcome.
#[derive(Clone, Copy, PartialEq, Eq, Structural, Debug)]
pub enum VerificationError {
    /// A numeric token was empty or held a non-digit byte.
    MalformedNumber,
    /// A numeric token was greater than or equal to the field modulus.
    OutOfRange,
    /// The document did not match the expected schema.
    SchemaError,
    /// A point was not on its curve or not in the prime-order subgroup.
    InvalidPoint(PointTag),
    /// The number of public inputs does not match the verification key.
    InputCountMismatch,
}

} // verus!
