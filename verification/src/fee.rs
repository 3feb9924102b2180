use vstd::prelude::*;
use crate::config::{FeeMode, FeeSchedule, FEE_DENOMINATOR};
use crate::error::PoolError;

verus! {

/// What a fee calculation gives: `net_amount + fee_amount` is the amount the
/// fee was taken from, and `trading_fee + protocol_fee` is `fee_amount`.
#[derive(Clone, Copy, Debug, PartialEq, Eq, Structural)]
pub struct FeeBreakdown {
    /// The stage at which the fee was taken.
    pub mode: FeeMode,
    pub net_amount: u64,
    pub fee_amount: u64,
    pub trading_fee: u64,
    pub protocol_fee: u64,
}

/// The fee on `amount` at rate `numerator / FEE_DENOMINATOR`, rounded up: a
/// remainder of the division goes to the fee.
pub open spec fn fee_of(amount: nat, numerator: nat) -> nat {
    (amount * numerator + (FEE_DENOMINATOR - 1)) as nat / (FEE_DENOMINATOR as nat)
}

/// The protocol's part of a fee, rounded down.
pub open spec fn protocol_part(fee: nat, percent: nat) -> nat {
    fee * percent / 100
}

/// The schedule can be applied to `amount`: the fee is no more than the
/// amount, and the protocol's part no more than the fee.
pub open spec fn fee_applies(amount: nat, schedule: FeeSchedule) -> bool {
    let fee = fee_of(amount, schedule.fee_numerator as nat);
    fee <= amount && protocol_part(fee, schedule.protocol_fee_percent as nat) <= fee
}

/// The breakdown that `compute_fee` returns where the schedule applies.
pub open spec fn fee_breakdown(amount: nat, mode: FeeMode, schedule: FeeSchedule) -> FeeBreakdown {
    let fee = fee_of(amount, schedule.fee_numerator as nat);
    let protocol = protocol_part(fee, schedule.protocol_fee_percent as nat);
    FeeBreakdown {
        mode,
        net_amount: (amount - fee) as u64,
        fee_amount: fee as u64,
        trading_fee: (fee - protocol) as u64,
        protocol_fee: protocol as u64,
    }
}

/// Splits `amount` into the net amount and the fee, and the fee into the
/// trading and the protocol part. Fails where the fee would exceed the amount
/// or the protocol's part the fee.
pub fn compute_fee(amount: u64, fee_mode: FeeMode, schedule: &FeeSchedule) -> (r: Result<
    FeeBreakdown,
    PoolError,
>)
    ensures
        fee_applies(amount as nat, *schedule) ==> r == Ok::<FeeBreakdown, PoolError>(
            fee_breakdown(amount as nat, fee_mode, *schedule),
        ),
        !fee_applies(amount as nat, *schedule) ==> r == Err::<FeeBreakdown, PoolError>(
            PoolError::ArithmeticOverflow,
        ),
        r is Ok ==> r->Ok_0.net_amount + r->Ok_0.fee_amount == amount,
        r is Ok ==> r->Ok_0.trading_fee + r->Ok_0.protocol_fee == r->Ok_0.fee_amount,
{
    let numerator: u64 = schedule.fee_numerator;
    assert(amount * numerator <= u64::MAX * u64::MAX) by (nonlinear_arith)
        requires
            amount <= u64::MAX,
            numerator <= u64::MAX,
    ;
    let scaled: u128 = (amount as u128) * (numerator as u128) + ((FEE_DENOMINATOR - 1) as u128);
    let fee: u128 = scaled / (FEE_DENOMINATOR as u128);
    if fee > amount as u128 {
        return Err(PoolError::ArithmeticOverflow);
    }
    let percent: u8 = schedule.protocol_fee_percent;
    assert(fee * percent <= u64::MAX * 255) by (nonlinear_arith)
        requires
            fee <= u64::MAX,
            percent <= 255,
    ;
    let protocol: u128 = fee * (percent as u128) / 100;
    if protocol > fee {
        return Err(PoolError::ArithmeticOverflow);
    }
    Ok(
        FeeBreakdown {
            mode: fee_mode,
            net_amount: amount - (fee as u64),
            fee_amount: fee as u64,
            trading_fee: (fee - protocol) as u64,
            protocol_fee: protocol as u64,
        },
    )
}

/// A schedule with a rate of at most 100% and a protocol share of at most
/// 100 percent applies to every amount.
pub proof fn lemma_valid_schedule_applies(amount: nat, schedule: FeeSchedule)
    requires
        schedule.fee_numerator <= FEE_DENOMINATOR,
        schedule.protocol_fee_percent <= 100,
    ensures
        fee_applies(amount, schedule),
{
    lemma_net_amount_monotone(amount, amount, schedule.fee_numerator as nat);
    let fee = fee_of(amount, schedule.fee_numerator as nat);
    let percent = schedule.protocol_fee_percent as nat;
    assert(fee * percent <= fee * 100) by (nonlinear_arith)
        requires
            percent <= 100,
    ;
}

/// Rounding: the fee times the denominator covers the amount times the rate, so
/// nothing of the division's remainder is left to the net amount. Where the
/// division is exact the fee is the quotient; where it leaves a remainder the
/// fee is one more.
pub proof fn lemma_fee_rounds_up(amount: nat, numerator: nat)
    ensures
        fee_of(amount, numerator) * FEE_DENOMINATOR >= amount * numerator,
        (amount * numerator) % (FEE_DENOMINATOR as nat) == 0 ==> fee_of(amount, numerator) == (
        amount * numerator) / (FEE_DENOMINATOR as nat),
        (amount * numerator) % (FEE_DENOMINATOR as nat) != 0 ==> fee_of(amount, numerator) == (
        amount * numerator) / (FEE_DENOMINATOR as nat) + 1,
{
}

/// The net amount never shrinks when the amount grows: for a rate of at most
/// 100%, a larger amount leaves at least as much after the fee.
pub proof fn lemma_net_amount_monotone(a1: nat, a2: nat, numerator: nat)
    requires
        a1 <= a2,
        numerator <= FEE_DENOMINATOR,
    ensures
        fee_of(a1, numerator) <= a1,
        a1 - fee_of(a1, numerator) <= a2 - fee_of(a2, numerator),
{
    let d = (a2 - a1) as nat;
    assert(a2 * numerator == a1 * numerator + d * numerator) by (nonlinear_arith)
        requires
            a2 == a1 + d,
    ;
    assert(d * numerator <= d * FEE_DENOMINATOR) by (nonlinear_arith)
        requires
            numerator <= FEE_DENOMINATOR,
    ;
    assert(a1 * numerator <= a1 * FEE_DENOMINATOR) by (nonlinear_arith)
        requires
            numerator <= FEE_DENOMINATOR,
    ;
}

} // verus!
