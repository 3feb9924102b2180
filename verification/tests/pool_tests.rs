use dynamic_bonding_curve::config::{
    CurveConfiguration, FeeMode, FeeSchedule, Segment, TradeDirection,
};
use dynamic_bonding_curve::error::PoolError;
use dynamic_bonding_curve::pool::PoolState;
use dynamic_bonding_curve::swap::SwapResult;

fn pool_config() -> CurveConfiguration {
    CurveConfiguration {
        segments: vec![
            Segment { base_capacity: 1_000_000, price: 1_000_000_000 },
            Segment { base_capacity: 1_000_000, price: 2_000_000_000 },
        ],
        fee_schedule: FeeSchedule {
            fee_numerator: 10_000_000,
            protocol_fee_percent: 20,
            base_to_quote_on_input: true,
            quote_to_base_on_input: false,
        },
        max_swallow_quote_amount: 1_000_000,
    }
}

fn fresh_pool() -> PoolState {
    PoolState {
        position: 0,
        base_reserve: 5000,
        quote_reserve: 8000,
        protocol_base_fee: 0,
        protocol_quote_fee: 0,
    }
}

#[test]
fn accepted_swap_conserves_reserves() {
    let mut pool = fresh_pool();
    let r = pool.swap_exact_in(&pool_config(), 1001, 900, TradeDirection::BaseToQuote).unwrap();
    assert_eq!(r.swap_result.output_amount, 990);
    assert_eq!(r.swap_result.net_amount_in, 990);
    assert_eq!(
        pool,
        PoolState {
            position: 990,
            base_reserve: 5990,
            quote_reserve: 7010,
            protocol_base_fee: 2,
            protocol_quote_fee: 0,
        }
    );
}

#[test]
fn accepted_buy_conserves_reserves() {
    // Quote in, fee on the base output: 2000 quote buy 2000 base, 20 of them fee.
    let mut pool = fresh_pool();
    let r = pool.swap_exact_in(&pool_config(), 2000, 0, TradeDirection::QuoteToBase).unwrap();
    assert_eq!(r.swap_result.output_amount, 1980);
    assert_eq!(r.swap_result.fee_amount, 20);
    assert_eq!(r.swap_result.amount_left, 2000);
    assert_eq!(
        pool,
        PoolState {
            position: 2000,
            base_reserve: 5000 - 1980,
            quote_reserve: 8000 + 2000,
            protocol_base_fee: 4,
            protocol_quote_fee: 0,
        }
    );
}

#[test]
fn swaps_in_a_row_advance_the_position() {
    let mut pool = fresh_pool();
    let c = pool_config();
    pool.swap_exact_in(&c, 100, 0, TradeDirection::BaseToQuote).unwrap();
    let first = pool.position;
    pool.swap_exact_in(&c, 100, 0, TradeDirection::QuoteToBase).unwrap();
    assert_eq!(first, 99);
    assert_eq!(pool.position, 199);
}

#[test]
fn swap_beyond_the_output_reserve_changes_nothing() {
    let before = PoolState {
        position: 0,
        base_reserve: 5000,
        quote_reserve: 100,
        protocol_base_fee: 0,
        protocol_quote_fee: 0,
    };
    let mut pool = before;
    let r = pool.swap_exact_in(&pool_config(), 1001, 0, TradeDirection::BaseToQuote);
    assert_eq!(r, Err(PoolError::ArithmeticOverflow));
    assert_eq!(pool, before);
}

#[test]
fn apply_swap_routes_the_protocol_fee() {
    let result = SwapResult {
        output_amount: 10,
        amount_left: 10,
        fee_amount: 5,
        trading_fee: 3,
        protocol_fee: 2,
        next_position: 77,
        net_amount_in: 20,
        unfilled: 0,
    };
    let mut pool = fresh_pool();
    assert_eq!(pool.apply_swap(&result, TradeDirection::BaseToQuote, FeeMode::OnOutput), Ok(()));
    assert_eq!(
        pool,
        PoolState {
            position: 77,
            base_reserve: 5020,
            quote_reserve: 7990,
            protocol_base_fee: 0,
            protocol_quote_fee: 2,
        }
    );
    let mut pool = fresh_pool();
    assert_eq!(pool.apply_swap(&result, TradeDirection::QuoteToBase, FeeMode::OnInput), Ok(()));
    assert_eq!(
        pool,
        PoolState {
            position: 77,
            base_reserve: 4990,
            quote_reserve: 8020,
            protocol_base_fee: 0,
            protocol_quote_fee: 2,
        }
    );
}

#[test]
fn apply_swap_refuses_what_does_not_fit() {
    let result = SwapResult {
        output_amount: 10,
        amount_left: 10,
        fee_amount: 5,
        trading_fee: 3,
        protocol_fee: 2,
        next_position: 77,
        net_amount_in: 20,
        unfilled: 0,
    };
    let full = PoolState {
        position: 0,
        base_reserve: u64::MAX - 19,
        quote_reserve: 8000,
        protocol_base_fee: 0,
        protocol_quote_fee: 0,
    };
    let mut pool = full;
    assert_eq!(
        pool.apply_swap(&result, TradeDirection::BaseToQuote, FeeMode::OnInput),
        Err(PoolError::ArithmeticOverflow)
    );
    assert_eq!(pool, full);
    let rich = PoolState {
        position: 0,
        base_reserve: 5000,
        quote_reserve: 8000,
        protocol_base_fee: u64::MAX - 1,
        protocol_quote_fee: 0,
    };
    let mut pool = rich;
    assert_eq!(
        pool.apply_swap(&result, TradeDirection::BaseToQuote, FeeMode::OnInput),
        Err(PoolError::ArithmeticOverflow)
    );
    assert_eq!(pool, rich);
}
