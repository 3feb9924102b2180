use vstd::prelude::*;
use crate::config::{CurveConfiguration, FeeMode, TradeDirection};
use crate::error::PoolError;
use crate::swap::{
    process_result, process_swap_exact_in, swap_result, ProcessSwapParams, ProcessSwapResult,
    SwapResult,
};

verus! {

/// A pool's mutable record: the curve position, the two reserves, and what
/// the protocol may claim in fees in each asset. Changed only by an accepted
/// swap.
#[derive(Clone, Copy, Debug, PartialEq, Eq, Structural)]
pub struct PoolState {
    pub position: u64,
    pub base_reserve: u64,
    pub quote_reserve: u64,
    pub protocol_base_fee: u64,
    pub protocol_quote_fee: u64,
}

/// The reserve of the asset that the trader hands in.
pub open spec fn input_reserve(pool: PoolState, direction: TradeDirection) -> u64 {
    match direction {
        TradeDirection::BaseToQuote => pool.base_reserve,
        TradeDirection::QuoteToBase => pool.quote_reserve,
    }
}

/// The reserve of the asset that the trader receives.
pub open spec fn output_reserve(pool: PoolState, direction: TradeDirection) -> u64 {
    match direction {
        TradeDirection::BaseToQuote => pool.quote_reserve,
        TradeDirection::QuoteToBase => pool.base_reserve,
    }
}

/// Whether the fee is in the base asset: it is in the input asset where it is
/// taken from the input, else in the output asset.
pub open spec fn fee_in_base(direction: TradeDirection, fee_mode: FeeMode) -> bool {
    match (direction, fee_mode) {
        (TradeDirection::BaseToQuote, FeeMode::OnInput) => true,
        (TradeDirection::BaseToQuote, FeeMode::OnOutput) => false,
        (TradeDirection::QuoteToBase, FeeMode::OnInput) => false,
        (TradeDirection::QuoteToBase, FeeMode::OnOutput) => true,
    }
}

/// The pool after a swap result is applied, as mathematical integers may not
/// fit: `None` where a reserve or a balance would leave its range.
pub open spec fn pool_after(
    pool: PoolState,
    result: SwapResult,
    direction: TradeDirection,
    fee_mode: FeeMode,
) -> Option<PoolState> {
    let new_input = input_reserve(pool, direction) + result.net_amount_in;
    let new_output = output_reserve(pool, direction) - result.output_amount;
    let base_fee = pool.protocol_base_fee + if fee_in_base(direction, fee_mode) {
        result.protocol_fee as int
    } else {
        0
    };
    let quote_fee = pool.protocol_quote_fee + if fee_in_base(direction, fee_mode) {
        0
    } else {
        result.protocol_fee as int
    };
    if new_input > u64::MAX || new_output < 0 || base_fee > u64::MAX || quote_fee > u64::MAX {
        None
    } else {
        Some(
            PoolState {
                position: result.next_position,
                base_reserve: match direction {
                    TradeDirection::BaseToQuote => new_input as u64,
                    TradeDirection::QuoteToBase => new_output as u64,
                },
                quote_reserve: match direction {
                    TradeDirection::BaseToQuote => new_output as u64,
                    TradeDirection::QuoteToBase => new_input as u64,
                },
                protocol_base_fee: base_fee as u64,
                protocol_quote_fee: quote_fee as u64,
            },
        )
    }
}

/// The pool and the answer after a guarded swap is asked of `pool`: a
/// rejected swap leaves the pool as it was.
pub open spec fn pool_swap(
    pool: PoolState,
    config: &CurveConfiguration,
    amount_in: u64,
    minimum_amount_out: u64,
    direction: TradeDirection,
) -> (PoolState, Result<ProcessSwapResult, PoolError>) {
    let fee_mode = config.fee_schedule.spec_fee_mode(direction);
    match process_result(config, amount_in, minimum_amount_out, fee_mode, direction, pool.position) {
        Err(e) => (pool, Err(e)),
        Ok(accepted) => match pool_after(pool, accepted.swap_result, direction, fee_mode) {
            None => (pool, Err(PoolError::ArithmeticOverflow)),
            Some(next) => (next, Ok(accepted)),
        },
    }
}

/// The settlement that a guarded swap of `pool` rests on.
pub open spec fn pool_settlement(
    pool: PoolState,
    config: &CurveConfiguration,
    amount_in: u64,
    direction: TradeDirection,
) -> Result<SwapResult, PoolError> {
    swap_result(
        config.segments@,
        config.fee_schedule,
        amount_in as nat,
        config.fee_schedule.spec_fee_mode(direction),
        direction,
        pool.position as nat,
    )
}

/// Threshold enforcement: a swap that settles with more quote moved than the
/// swallow cap allows is rejected as over the threshold, and the pool stays as
/// it was.
pub proof fn lemma_swallow_cap_enforced(
    pool: PoolState,
    config: &CurveConfiguration,
    amount_in: u64,
    minimum_amount_out: u64,
    direction: TradeDirection,
)
    requires
        pool_settlement(pool, config, amount_in, direction) is Ok,
        pool_settlement(pool, config, amount_in, direction)->Ok_0.amount_left
            > config.max_swallow_quote_amount,
    ensures
        pool_swap(pool, config, amount_in, minimum_amount_out, direction) == (
            pool,
            Err::<ProcessSwapResult, PoolError>(PoolError::SwapAmountOverThreshold),
        ),
{
}

/// Slippage enforcement: a swap that settles within the swallow cap with an
/// output under the caller's minimum is rejected for slippage, and the pool
/// stays as it was.
pub proof fn lemma_slippage_enforced(
    pool: PoolState,
    config: &CurveConfiguration,
    amount_in: u64,
    minimum_amount_out: u64,
    direction: TradeDirection,
)
    requires
        pool_settlement(pool, config, amount_in, direction) is Ok,
        pool_settlement(pool, config, amount_in, direction)->Ok_0.amount_left
            <= config.max_swallow_quote_amount,
        pool_settlement(pool, config, amount_in, direction)->Ok_0.output_amount
            < minimum_amount_out,
    ensures
        pool_swap(pool, config, amount_in, minimum_amount_out, direction) == (
            pool,
            Err::<ProcessSwapResult, PoolError>(PoolError::ExceededSlippage),
        ),
{
}

/// Conservation: where a guarded swap is accepted, the input reserve has grown
/// by exactly the net input and the output reserve has shrunk by exactly the
/// output; the two fee balances together have grown by the protocol's part of
/// the fee, counted once; and the settlement applied is the one that the
/// engine computes for the pool's position.
pub proof fn lemma_accepted_swap_conserves(
    pool: PoolState,
    config: &CurveConfiguration,
    amount_in: u64,
    minimum_amount_out: u64,
    direction: TradeDirection,
)
    requires
        pool_swap(pool, config, amount_in, minimum_amount_out, direction).1 is Ok,
    ensures
        ({
            let (after, answer) = pool_swap(pool, config, amount_in, minimum_amount_out, direction);
            let settled = answer->Ok_0.swap_result;
            &&& input_reserve(after, direction) == input_reserve(pool, direction)
                + settled.net_amount_in
            &&& output_reserve(after, direction) == output_reserve(pool, direction)
                - settled.output_amount
            &&& after.protocol_base_fee + after.protocol_quote_fee == pool.protocol_base_fee
                + pool.protocol_quote_fee + settled.protocol_fee
            &&& after.position == settled.next_position
            &&& Ok::<SwapResult, PoolError>(settled) == pool_settlement(
                pool,
                config,
                amount_in,
                direction,
            )
        }),
{
}

impl PoolState {
    /// Applies an accepted swap: the input reserve grows by the net input, the
    /// output reserve shrinks by the output, the protocol's part of the fee
    /// is recorded once, in its balance in the fee's asset, and the position
    /// moves on. Where a reserve or a balance would leave its range, nothing
    /// is changed.
    pub fn apply_swap(
        &mut self,
        result: &SwapResult,
        direction: TradeDirection,
        fee_mode: FeeMode,
    ) -> (r: Result<(), PoolError>)
        ensures
            match pool_after(*old(self), *result, direction, fee_mode) {
                Some(next) => r == Ok::<(), PoolError>(()) && *final(self) == next,
                None => r == Err::<(), PoolError>(PoolError::ArithmeticOverflow) && *final(self)
                    == *old(self),
            },
            r is Ok ==> input_reserve(*final(self), direction) == input_reserve(
                *old(self),
                direction,
            ) + result.net_amount_in,
            r is Ok ==> output_reserve(*final(self), direction) == output_reserve(
                *old(self),
                direction,
            ) - result.output_amount,
            r is Ok ==> final(self).protocol_base_fee + final(self).protocol_quote_fee == old(
                self,
            ).protocol_base_fee + old(self).protocol_quote_fee + result.protocol_fee,
    {
        let (reserve_in, reserve_out) = match direction {
            TradeDirection::BaseToQuote => (self.base_reserve, self.quote_reserve),
            TradeDirection::QuoteToBase => (self.quote_reserve, self.base_reserve),
        };
        if result.net_amount_in > u64::MAX - reserve_in || result.output_amount > reserve_out {
            return Err(PoolError::ArithmeticOverflow);
        }
        let new_input: u64 = reserve_in + result.net_amount_in;
        let new_output: u64 = reserve_out - result.output_amount;
        let in_base = match (direction, fee_mode) {
            (TradeDirection::BaseToQuote, FeeMode::OnInput) => true,
            (TradeDirection::BaseToQuote, FeeMode::OnOutput) => false,
            (TradeDirection::QuoteToBase, FeeMode::OnInput) => false,
            (TradeDirection::QuoteToBase, FeeMode::OnOutput) => true,
        };
        let fee_balance: u64 = if in_base {
            self.protocol_base_fee
        } else {
            self.protocol_quote_fee
        };
        if result.protocol_fee > u64::MAX - fee_balance {
            return Err(PoolError::ArithmeticOverflow);
        }
        let new_balance: u64 = fee_balance + result.protocol_fee;
        match direction {
            TradeDirection::BaseToQuote => {
                self.base_reserve = new_input;
                self.quote_reserve = new_output;
            },
            TradeDirection::QuoteToBase => {
                self.quote_reserve = new_input;
                self.base_reserve = new_output;
            },
        }
        if in_base {
            self.protocol_base_fee = new_balance;
        } else {
            self.protocol_quote_fee = new_balance;
        }
        self.position = result.next_position;
        Ok(())
    }

    /// Asks a guarded exact-input swap of this pool, with the fee mode that the
    /// configuration sets for the direction, and applies it where it is
    /// accepted. A rejected swap changes nothing.
    pub fn swap_exact_in(
        &mut self,
        config: &CurveConfiguration,
        amount_in: u64,
        minimum_amount_out: u64,
        direction: TradeDirection,
    ) -> (r: Result<ProcessSwapResult, PoolError>)
        ensures
            (*final(self), r) == pool_swap(
                *old(self),
                config,
                amount_in,
                minimum_amount_out,
                direction,
            ),
            r is Err ==> *final(self) == *old(self),
            r is Ok ==> input_reserve(*final(self), direction) == input_reserve(
                *old(self),
                direction,
            ) + r->Ok_0.swap_result.net_amount_in,
            r is Ok ==> output_reserve(*final(self), direction) == output_reserve(
                *old(self),
                direction,
            ) - r->Ok_0.swap_result.output_amount,
            r is Ok ==> final(self).position == r->Ok_0.swap_result.next_position,
    {
        let fee_mode = config.fee_schedule.fee_mode(direction);
        let accepted = match process_swap_exact_in(
            ProcessSwapParams {
                amount_0: amount_in,
                amount_1: minimum_amount_out,
                config,
                fee_mode,
                trade_direction: direction,
                current_point: self.position,
            },
        ) {
            Ok(accepted) => accepted,
            Err(e) => {
                return Err(e);
            },
        };
        match self.apply_swap(&accepted.swap_result, direction, fee_mode) {
            Ok(()) => Ok(accepted),
            Err(e) => Err(e),
        }
    }
}

} // verus!
