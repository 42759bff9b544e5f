use vstd::prelude::*;

verus! {

/// This enum lists the errors the aggregation engine can raise.
///
/// Failures at the input boundary — opening or decoding the transaction
/// source, or a malformed report date — belong to the surrounding
/// program, which keeps its own error type for them; the engine itself
/// can fail only on the two conditions below, and both end the whole
/// invocation with no partial report.
#[derive(Clone, Copy, Debug, PartialEq, Eq, Structural)]
pub enum CapTableError {
    /// After filtering, the accumulated share total is zero, so no
    /// ownership percentage is defined.
    TotalSharesIsZero,
    /// A running total would exceed the unsigned 64-bit range.
    AccumulationOverflow,
}

} // verus!
