use vstd::prelude::*;

verus! {

/// Failure taxonomy of the engine. Every fallible computation either completes
/// with a result or fails synchronously with exactly one of these; none is
/// used for ordinary control flow ("no open exposure" and "no significant open
/// order" are valid results, not errors).
#[derive(Clone, Copy, Debug, PartialEq, Eq, Structural)]
pub enum ErrorCode {
    /// A checked arithmetic step exceeded its integer range.
    Overflow,
    /// A zero weight, or a zero or otherwise degenerate denominator, was reached.
    DivisionByZero,
    /// An oracle lookup for a priced, nonzero-balance asset found no entry.
    PriceUnavailable,
    /// Open-order ranking was invoked on an account with no markets at all.
    NoPositions,
}

} // verus!
