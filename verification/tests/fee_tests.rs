use dynamic_bonding_curve::config::{FeeMode, FeeSchedule, TradeDirection, FEE_DENOMINATOR};
use dynamic_bonding_curve::error::PoolError;
use dynamic_bonding_curve::fee::{compute_fee, FeeBreakdown};

fn schedule(fee_numerator: u64, protocol_fee_percent: u8) -> FeeSchedule {
    FeeSchedule {
        fee_numerator,
        protocol_fee_percent,
        base_to_quote_on_input: true,
        quote_to_base_on_input: false,
    }
}

#[test]
fn fee_remainder_goes_to_the_fee() {
    // 1001 at 1% is 10.01: the fee is 11, the net amount 990.
    let r = compute_fee(1001, FeeMode::OnInput, &schedule(10_000_000, 20));
    assert_eq!(
        r,
        Ok(FeeBreakdown {
            mode: FeeMode::OnInput,
            net_amount: 990,
            fee_amount: 11,
            trading_fee: 9,
            protocol_fee: 2,
        })
    );
}

#[test]
fn fee_exact_division_has_no_rounding() {
    let r = compute_fee(1000, FeeMode::OnOutput, &schedule(10_000_000, 20)).unwrap();
    assert_eq!(r.mode, FeeMode::OnOutput);
    assert_eq!(r.fee_amount, 10);
    assert_eq!(r.net_amount, 990);
    assert_eq!(r.protocol_fee, 2);
    assert_eq!(r.trading_fee, 8);
}

#[test]
fn fee_of_one_unit_is_the_whole_unit() {
    let r = compute_fee(1, FeeMode::OnInput, &schedule(1, 0)).unwrap();
    assert_eq!(r.fee_amount, 1);
    assert_eq!(r.net_amount, 0);
    assert_eq!(r.trading_fee, 1);
    assert_eq!(r.protocol_fee, 0);
}

#[test]
fn fee_of_zero_amount_is_zero() {
    let r = compute_fee(0, FeeMode::OnInput, &schedule(10_000_000, 20)).unwrap();
    assert_eq!(r.fee_amount, 0);
    assert_eq!(r.net_amount, 0);
}

#[test]
fn fee_at_zero_rate_is_zero() {
    let r = compute_fee(12345, FeeMode::OnInput, &schedule(0, 50)).unwrap();
    assert_eq!(r.fee_amount, 0);
    assert_eq!(r.net_amount, 12345);
}

#[test]
fn fee_at_full_rate_takes_everything() {
    let r = compute_fee(u64::MAX, FeeMode::OnInput, &schedule(FEE_DENOMINATOR, 100)).unwrap();
    assert_eq!(r.fee_amount, u64::MAX);
    assert_eq!(r.net_amount, 0);
    assert_eq!(r.protocol_fee, u64::MAX);
    assert_eq!(r.trading_fee, 0);
}

#[test]
fn fee_parts_add_up() {
    let s = schedule(2_500_000, 33);
    let mut amount: u64 = 0;
    while amount < 5000 {
        let r = compute_fee(amount, FeeMode::OnInput, &s).unwrap();
        assert_eq!(r.net_amount + r.fee_amount, amount);
        assert_eq!(r.trading_fee + r.protocol_fee, r.fee_amount);
        amount += 7;
    }
}

#[test]
fn fee_rate_above_whole_overflows() {
    let r = compute_fee(100, FeeMode::OnInput, &schedule(FEE_DENOMINATOR + 1, 0));
    assert_eq!(r, Err(PoolError::ArithmeticOverflow));
    let r = compute_fee(100, FeeMode::OnInput, &schedule(u64::MAX, 0));
    assert_eq!(r, Err(PoolError::ArithmeticOverflow));
}

#[test]
fn protocol_share_above_whole_overflows() {
    let r = compute_fee(10_000, FeeMode::OnInput, &schedule(10_000_000, 101));
    assert_eq!(r, Err(PoolError::ArithmeticOverflow));
}

#[test]
fn net_amount_grows_with_the_amount() {
    let s = schedule(333_333_333, 10);
    let mut last: u64 = 0;
    let mut amount: u64 = 0;
    while amount < 3000 {
        let net = compute_fee(amount, FeeMode::OnInput, &s).unwrap().net_amount;
        assert!(net >= last);
        last = net;
        amount += 1;
    }
}

#[test]
fn fee_mode_follows_the_schedule() {
    let s = schedule(1, 0);
    assert_eq!(s.fee_mode(TradeDirection::BaseToQuote), FeeMode::OnInput);
    assert_eq!(s.fee_mode(TradeDirection::QuoteToBase), FeeMode::OnOutput);
}
