use vstd::prelude::*;

verus! {

/// Why a call was rejected. Every rejection is total: nothing is changed.
#[derive(Clone, Copy, Debug, PartialEq, Eq, Structural)]
pub enum PoolError {
    /// An intermediate or final value does not fit its integer type.
    ArithmeticOverflow,
    /// The curve has no segments, or a segment of capacity zero.
    CurveExhausted,
    /// The quote amount absorbed by the swap is above the configured cap.
    SwapAmountOverThreshold,
    /// The output is below the caller's minimum.
    ExceededSlippage,
    /// The caller is not an administrator.
    AuthError,
}

} // verus!
