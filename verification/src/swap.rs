use vstd::prelude::*;
use vstd::arithmetic::mul::lemma_mul_inequality_converse;
use crate::config::{
    CurveConfiguration, FeeMode, FeeSchedule, Segment, TradeDirection, FEE_DENOMINATOR,
};
use crate::curve::{lemma_walk_output_monotone, walk, walk_result};
use crate::error::PoolError;
use crate::fee::{compute_fee, fee_applies, fee_breakdown, fee_of, lemma_net_amount_monotone};

verus! {

/// The economic effect of one trade.
#[derive(Clone, Copy, Debug, PartialEq, Eq, Structural)]
pub struct SwapResult {
    /// What the trader receives, after an output fee.
    pub output_amount: u64,
    /// The swallow amount: the quote amount that the curve moved, before an
    /// output fee is split off.
    pub amount_left: u64,
    pub fee_amount: u64,
    pub trading_fee: u64,
    pub protocol_fee: u64,
    /// The curve position after the trade.
    pub next_position: u64,
    /// The input that the curve consumed: net of an input fee and of what
    /// found no capacity.
    pub net_amount_in: u64,
    /// The input that found no capacity on the curve.
    pub unfilled: u64,
}

/// What the trader supplies.
#[derive(Clone, Copy, Debug, PartialEq, Eq, Structural)]
pub struct SwapParameters {
    pub amount_in: u64,
    pub minimum_amount_out: u64,
}

/// The inputs of a guarded exact-input swap: `amount_0` is the input amount,
/// `amount_1` the least output that the trader accepts, `current_point` the
/// curve position.
pub struct ProcessSwapParams<'a> {
    pub amount_0: u64,
    pub amount_1: u64,
    pub config: &'a CurveConfiguration,
    pub fee_mode: FeeMode,
    pub trade_direction: TradeDirection,
    pub current_point: u64,
}

/// An accepted swap with the parameters that it was asked with.
#[derive(Clone, Copy, Debug, PartialEq, Eq, Structural)]
pub struct ProcessSwapResult {
    pub swap_result: SwapResult,
    pub swap_in_parameters: SwapParameters,
}

/// The result of settling a trade. With the fee on the input, the fee is taken
/// from `amount_in` and the rest walks the curve. With the fee on the output,
/// all of `amount_in` walks the curve and the fee is taken from what comes out.
pub open spec fn swap_result(
    segments: Seq<Segment>,
    schedule: FeeSchedule,
    amount_in: nat,
    fee_mode: FeeMode,
    direction: TradeDirection,
    position: nat,
) -> Result<SwapResult, PoolError> {
    match fee_mode {
        FeeMode::OnInput => {
            if !fee_applies(amount_in, schedule) {
                Err(PoolError::ArithmeticOverflow)
            } else {
                let fee = fee_breakdown(amount_in, fee_mode, schedule);
                match walk_result(segments, position, fee.net_amount as nat, direction) {
                    Err(e) => Err(e),
                    Ok(w) => Ok(
                        SwapResult {
                            output_amount: w.output_amount,
                            amount_left: w.quote_absorbed,
                            fee_amount: fee.fee_amount,
                            trading_fee: fee.trading_fee,
                            protocol_fee: fee.protocol_fee,
                            next_position: w.new_position,
                            net_amount_in: (fee.net_amount - w.unfilled) as u64,
                            unfilled: w.unfilled,
                        },
                    ),
                }
            }
        },
        FeeMode::OnOutput => {
            match walk_result(segments, position, amount_in, direction) {
                Err(e) => Err(e),
                Ok(w) => {
                    if !fee_applies(w.output_amount as nat, schedule) {
                        Err(PoolError::ArithmeticOverflow)
                    } else {
                        let fee = fee_breakdown(w.output_amount as nat, fee_mode, schedule);
                        Ok(
                            SwapResult {
                                output_amount: fee.net_amount,
                                amount_left: w.quote_absorbed,
                                fee_amount: fee.fee_amount,
                                trading_fee: fee.trading_fee,
                                protocol_fee: fee.protocol_fee,
                                next_position: w.new_position,
                                net_amount_in: (amount_in - w.unfilled) as u64,
                                unfilled: w.unfilled,
                            },
                        )
                    }
                },
            }
        },
    }
}

/// The input fee of a result: its fee where the fee was taken from the input,
/// else nothing.
pub open spec fn input_fee(result: SwapResult, fee_mode: FeeMode) -> nat {
    match fee_mode {
        FeeMode::OnInput => result.fee_amount as nat,
        FeeMode::OnOutput => 0,
    }
}

/// What the curve gave before an output fee was split off: the output and,
/// where the fee was taken from the output, the fee.
pub open spec fn gross_output(result: SwapResult, fee_mode: FeeMode) -> nat {
    match fee_mode {
        FeeMode::OnInput => result.output_amount as nat,
        FeeMode::OnOutput => (result.output_amount + result.fee_amount) as nat,
    }
}

/// Settles a trade of exactly `amount_in` from `current_point`: the output,
/// the fees, the quote amount moved and the next position. Reads its
/// arguments and nothing else; changes nothing. The input is accounted for
/// in full: what the curve consumed, what found no capacity, and an input fee.
/// The position moves by the base amount traded, and the quote amount moved
/// is the quote side of the trade before an output fee.
pub fn get_swap_result_from_exact_input(
    config: &CurveConfiguration,
    amount_in: u64,
    fee_mode: FeeMode,
    trade_direction: TradeDirection,
    current_point: u64,
) -> (r: Result<SwapResult, PoolError>)
    ensures
        r == swap_result(
            config.segments@,
            config.fee_schedule,
            amount_in as nat,
            fee_mode,
            trade_direction,
            current_point as nat,
        ),
        r is Ok ==> r->Ok_0.net_amount_in + r->Ok_0.unfilled + input_fee(r->Ok_0, fee_mode)
            == amount_in,
        r is Ok ==> r->Ok_0.trading_fee + r->Ok_0.protocol_fee == r->Ok_0.fee_amount,
        r is Ok ==> r->Ok_0.next_position >= current_point,
        r is Ok && trade_direction == TradeDirection::BaseToQuote ==> r->Ok_0.amount_left
            == gross_output(r->Ok_0, fee_mode) && r->Ok_0.next_position - current_point
            == r->Ok_0.net_amount_in,
        r is Ok && trade_direction == TradeDirection::QuoteToBase ==> r->Ok_0.amount_left
            == r->Ok_0.net_amount_in && r->Ok_0.next_position - current_point == gross_output(
            r->Ok_0,
            fee_mode,
        ),
{
    match fee_mode {
        FeeMode::OnInput => {
            let fee = match compute_fee(amount_in, fee_mode, &config.fee_schedule) {
                Ok(fee) => fee,
                Err(e) => {
                    return Err(e);
                },
            };
            let w = match walk(config, current_point, fee.net_amount, trade_direction) {
                Ok(w) => w,
                Err(e) => {
                    return Err(e);
                },
            };
            Ok(
                SwapResult {
                    output_amount: w.output_amount,
                    amount_left: w.quote_absorbed,
                    fee_amount: fee.fee_amount,
                    trading_fee: fee.trading_fee,
                    protocol_fee: fee.protocol_fee,
                    next_position: w.new_position,
                    net_amount_in: fee.net_amount - w.unfilled,
                    unfilled: w.unfilled,
                },
            )
        },
        FeeMode::OnOutput => {
            let w = match walk(config, current_point, amount_in, trade_direction) {
                Ok(w) => w,
                Err(e) => {
                    return Err(e);
                },
            };
            let fee = match compute_fee(w.output_amount, fee_mode, &config.fee_schedule) {
                Ok(fee) => fee,
                Err(e) => {
                    return Err(e);
                },
            };
            Ok(
                SwapResult {
                    output_amount: fee.net_amount,
                    amount_left: w.quote_absorbed,
                    fee_amount: fee.fee_amount,
                    trading_fee: fee.trading_fee,
                    protocol_fee: fee.protocol_fee,
                    next_position: w.new_position,
                    net_amount_in: amount_in - w.unfilled,
                    unfilled: w.unfilled,
                },
            )
        },
    }
}

/// What the guard decides for a settled trade: over the swallow cap it is
/// rejected, else under the minimum output it is rejected, else accepted.
pub open spec fn guard_result(
    settled: Result<SwapResult, PoolError>,
    amount_in: u64,
    minimum_amount_out: u64,
    max_swallow_quote_amount: u64,
) -> Result<ProcessSwapResult, PoolError> {
    match settled {
        Err(e) => Err(e),
        Ok(s) => {
            if s.amount_left > max_swallow_quote_amount {
                Err(PoolError::SwapAmountOverThreshold)
            } else if s.output_amount < minimum_amount_out {
                Err(PoolError::ExceededSlippage)
            } else {
                Ok(
                    ProcessSwapResult {
                        swap_result: s,
                        swap_in_parameters: SwapParameters { amount_in, minimum_amount_out },
                    },
                )
            }
        },
    }
}

/// What `process_swap_exact_in` returns for given inputs.
pub open spec fn process_result(
    config: &CurveConfiguration,
    amount_in: u64,
    minimum_amount_out: u64,
    fee_mode: FeeMode,
    direction: TradeDirection,
    position: u64,
) -> Result<ProcessSwapResult, PoolError> {
    guard_result(
        swap_result(
            config.segments@,
            config.fee_schedule,
            amount_in as nat,
            fee_mode,
            direction,
            position as nat,
        ),
        amount_in,
        minimum_amount_out,
        config.max_swallow_quote_amount,
    )
}

/// Settles an exact-input swap and guards it: first the swallow cap on the
/// quote amount moved, then the trader's minimum output.
pub fn process_swap_exact_in(params: ProcessSwapParams<'_>) -> (r: Result<
    ProcessSwapResult,
    PoolError,
>)
    ensures
        r == process_result(
            params.config,
            params.amount_0,
            params.amount_1,
            params.fee_mode,
            params.trade_direction,
            params.current_point,
        ),
        r is Ok ==> r->Ok_0.swap_result.amount_left <= params.config.max_swallow_quote_amount,
        r is Ok ==> r->Ok_0.swap_result.output_amount >= params.amount_1,
{
    let amount_in: u64 = params.amount_0;
    let minimum_amount_out: u64 = params.amount_1;
    let swap_result = match get_swap_result_from_exact_input(
        params.config,
        amount_in,
        params.fee_mode,
        params.trade_direction,
        params.current_point,
    ) {
        Ok(s) => s,
        Err(e) => {
            return Err(e);
        },
    };
    if swap_result.amount_left > params.config.get_max_swallow_quote_amount() {
        return Err(PoolError::SwapAmountOverThreshold);
    }
    if swap_result.output_amount < minimum_amount_out {
        return Err(PoolError::ExceededSlippage);
    }
    Ok(
        ProcessSwapResult {
            swap_result,
            swap_in_parameters: SwapParameters { amount_in, minimum_amount_out },
        },
    )
}

/// Determinism: a settlement depends on the configuration only through its
/// segments and its fee schedule, so two calls with the same segments,
/// schedule, amount, fee mode, direction and position give the same result,
/// field for field.
pub proof fn lemma_settlement_deterministic(
    first: &CurveConfiguration,
    second: &CurveConfiguration,
    amount_in: u64,
    fee_mode: FeeMode,
    direction: TradeDirection,
    position: u64,
)
    requires
        first.segments@ == second.segments@,
        first.fee_schedule == second.fee_schedule,
    ensures
        swap_result(
            first.segments@,
            first.fee_schedule,
            amount_in as nat,
            fee_mode,
            direction,
            position as nat,
        ) == swap_result(
            second.segments@,
            second.fee_schedule,
            amount_in as nat,
            fee_mode,
            direction,
            position as nat,
        ),
{
}

/// A schedule that applies to a positive amount has a rate of at most 100%.
proof fn lemma_rate_bounded(amount: nat, schedule: FeeSchedule)
    requires
        amount > 0,
        fee_applies(amount, schedule),
    ensures
        schedule.fee_numerator <= FEE_DENOMINATOR,
{
    let n = schedule.fee_numerator as nat;
    assert(amount * n <= amount * FEE_DENOMINATOR);
    assert(n * amount <= FEE_DENOMINATOR * amount) by (nonlinear_arith)
        requires
            amount * n <= amount * FEE_DENOMINATOR,
    ;
    lemma_mul_inequality_converse(n as int, FEE_DENOMINATOR as int, amount as int);
}

/// Monotonicity: with the curve, the schedule, the fee mode, the direction and
/// the position fixed, a larger input never gives a smaller output. Stated of
/// two inputs that both settle.
pub proof fn lemma_output_monotone(
    segments: Seq<Segment>,
    schedule: FeeSchedule,
    amount_1: u64,
    amount_2: u64,
    fee_mode: FeeMode,
    direction: TradeDirection,
    position: u64,
)
    requires
        amount_1 < amount_2,
        swap_result(segments, schedule, amount_1 as nat, fee_mode, direction, position as nat) is Ok,
        swap_result(segments, schedule, amount_2 as nat, fee_mode, direction, position as nat) is Ok,
    ensures
        swap_result(segments, schedule, amount_1 as nat, fee_mode, direction, position as nat)->Ok_0.output_amount
            <= swap_result(
            segments,
            schedule,
            amount_2 as nat,
            fee_mode,
            direction,
            position as nat,
        )->Ok_0.output_amount,
{
    let n = schedule.fee_numerator as nat;
    match fee_mode {
        FeeMode::OnInput => {
            lemma_rate_bounded(amount_2 as nat, schedule);
            lemma_net_amount_monotone(amount_1 as nat, amount_2 as nat, n);
            let net_1 = (amount_1 - fee_of(amount_1 as nat, n)) as nat;
            let net_2 = (amount_2 - fee_of(amount_2 as nat, n)) as nat;
            lemma_walk_output_monotone(segments, 0, 0, position as nat, net_1, net_2, direction);
        },
        FeeMode::OnOutput => {
            lemma_walk_output_monotone(
                segments,
                0,
                0,
                position as nat,
                amount_1 as nat,
                amount_2 as nat,
                direction,
            );
            let out_1 = walk_result(segments, position as nat, amount_1 as nat, direction)->Ok_0.output_amount;
            let out_2 = walk_result(segments, position as nat, amount_2 as nat, direction)->Ok_0.output_amount;
            if out_2 > 0 {
                lemma_rate_bounded(out_2 as nat, schedule);
                lemma_net_amount_monotone(out_1 as nat, out_2 as nat, n);
            }
        },
    }
}

} // verus!
