use vstd::prelude::*;
use vstd::arithmetic::div_mod::{lemma_div_is_ordered, lemma_multiply_divide_lt};
use vstd::arithmetic::mul::lemma_mul_inequality;
use crate::config::{curve_well_formed, CurveConfiguration, Segment, TradeDirection, PRICE_SCALE};
use crate::error::PoolError;

verus! {

/// Quote units paid out for `base` units at `price`, rounded down.
pub open spec fn quote_value(base: nat, price: nat) -> nat {
    (base * price) as nat / (PRICE_SCALE as nat)
}

/// Quote units asked for `base` units at `price`, rounded up.
pub open spec fn quote_cost(base: nat, price: nat) -> nat {
    (base * price + (PRICE_SCALE - 1)) as nat / (PRICE_SCALE as nat)
}

/// Base units bought with `quote` units at `price`, rounded down.
pub open spec fn base_bought(quote: nat, price: nat) -> nat {
    if price == 0 {
        0
    } else {
        (quote * PRICE_SCALE) as nat / price
    }
}

/// What one segment does with an input, as mathematical integers.
pub struct FillAmounts {
    /// Input units that the segment took.
    pub taken: nat,
    /// Output units that it gave.
    pub output: nat,
    /// Base units of its capacity that were used up.
    pub base_used: nat,
    /// Quote units that changed hands.
    pub quote: nat,
}

/// A segment with `remaining` base units left, trading at `price`, meets an
/// input of `amount`. Base in: it takes what fits and pays its value in quote.
/// Quote in: where the input covers the cost of all that is left, it takes that
/// cost and gives all that is left; else it takes all the input.
pub open spec fn fill_segment(
    remaining: nat,
    price: nat,
    amount: nat,
    direction: TradeDirection,
) -> FillAmounts {
    match direction {
        TradeDirection::BaseToQuote => {
            let taken = if amount < remaining {
                amount
            } else {
                remaining
            };
            FillAmounts {
                taken,
                output: quote_value(taken, price),
                base_used: taken,
                quote: quote_value(taken, price),
            }
        },
        TradeDirection::QuoteToBase => {
            let cost = quote_cost(remaining, price);
            if amount >= cost {
                FillAmounts { taken: cost, output: remaining, base_used: remaining, quote: cost }
            } else {
                let base = base_bought(amount, price);
                FillAmounts { taken: amount, output: base, base_used: base, quote: amount }
            }
        },
    }
}

/// What a walk along the curve gives, as mathematical integers.
pub struct CurveWalk {
    pub output: nat,
    pub position: nat,
    pub quote: nat,
    pub unfilled: nat,
}

/// The walk from segment `i`, which begins at base offset `start`, with the
/// position at `position` and `amount` input units still in hand. A segment
/// that lies wholly below the position is passed over; the others are filled in
/// order until the input or the curve ends.
pub open spec fn walk_from(
    segments: Seq<Segment>,
    i: nat,
    start: nat,
    position: nat,
    amount: nat,
    direction: TradeDirection,
) -> CurveWalk
    decreases segments.len() - i,
{
    if i >= segments.len() || amount == 0 {
        CurveWalk { output: 0, position, quote: 0, unfilled: amount }
    } else {
        let segment = segments[i as int];
        let end = start + segment.base_capacity as nat;
        if position >= end {
            walk_from(segments, i + 1, end, position, amount, direction)
        } else {
            let fill = fill_segment(
                (end - position) as nat,
                segment.price as nat,
                amount,
                direction,
            );
            let rest = walk_from(
                segments,
                i + 1,
                end,
                position + fill.base_used,
                (amount - fill.taken) as nat,
                direction,
            );
            CurveWalk {
                output: fill.output + rest.output,
                position: rest.position,
                quote: fill.quote + rest.quote,
                unfilled: rest.unfilled,
            }
        }
    }
}

/// The walk along the whole curve from `position`, counted in base units
/// consumed since the curve's beginning.
pub open spec fn walk_curve(
    segments: Seq<Segment>,
    position: nat,
    amount: nat,
    direction: TradeDirection,
) -> CurveWalk {
    walk_from(segments, 0, 0, position, amount, direction)
}

/// The result of filling one segment.
#[derive(Clone, Copy, Debug, PartialEq, Eq, Structural)]
pub struct SegmentFill {
    pub taken: u64,
    pub output: u64,
    pub base_used: u64,
    pub quote: u64,
}

/// The result of a walk: the output, the position reached, the quote amount
/// that the pool's quote reserve changed by, and the input that found no
/// capacity.
#[derive(Clone, Copy, Debug, PartialEq, Eq, Structural)]
pub struct WalkResult {
    pub output_amount: u64,
    pub new_position: u64,
    pub quote_absorbed: u64,
    pub unfilled: u64,
}

/// A fill never takes more than the input nor uses more than is left, and it
/// leaves input over only where it used all that was left.
pub proof fn lemma_fill_bounds(remaining: nat, price: nat, amount: nat, direction: TradeDirection)
    ensures
        fill_segment(remaining, price, amount, direction).taken <= amount,
        fill_segment(remaining, price, amount, direction).base_used <= remaining,
        fill_segment(remaining, price, amount, direction).taken < amount ==> fill_segment(
            remaining,
            price,
            amount,
            direction,
        ).base_used == remaining,
        direction == TradeDirection::QuoteToBase ==> fill_segment(
            remaining,
            price,
            amount,
            direction,
        ).output <= remaining,
{
    if direction == TradeDirection::QuoteToBase {
        let cost = quote_cost(remaining, price);
        if amount < cost {
            assert(price > 0) by (nonlinear_arith)
                requires
                    (remaining * price + (PRICE_SCALE - 1)) / (PRICE_SCALE as int) > 0,
                    PRICE_SCALE == 1_000_000_000,
            ;
            assert(amount * PRICE_SCALE < remaining * price);
            lemma_multiply_divide_lt(
                (amount * PRICE_SCALE) as int,
                price as int,
                remaining as int,
            );
            assert(price * remaining == remaining * price) by (nonlinear_arith);
        }
    }
}

/// A segment gives at least as much for a larger input, and where it leaves
/// input over it does the same with any larger input.
pub proof fn lemma_fill_monotone(
    remaining: nat,
    price: nat,
    a1: nat,
    a2: nat,
    direction: TradeDirection,
)
    requires
        a1 <= a2,
    ensures
        fill_segment(remaining, price, a1, direction).output <= fill_segment(
            remaining,
            price,
            a2,
            direction,
        ).output,
        fill_segment(remaining, price, a1, direction).taken < a1 ==> fill_segment(
            remaining,
            price,
            a1,
            direction,
        ) == fill_segment(remaining, price, a2, direction),
{
    let f1 = fill_segment(remaining, price, a1, direction);
    let f2 = fill_segment(remaining, price, a2, direction);
    match direction {
        TradeDirection::BaseToQuote => {
            lemma_mul_inequality(f1.taken as int, f2.taken as int, price as int);
        },
        TradeDirection::QuoteToBase => {
            let cost = quote_cost(remaining, price);
            lemma_fill_bounds(remaining, price, a1, direction);
            if a2 < cost {
                if price > 0 {
                    lemma_div_is_ordered(
                        (a1 * PRICE_SCALE) as int,
                        (a2 * PRICE_SCALE) as int,
                        price as int,
                    );
                }
            }
        },
    }
}

/// Fills one segment. `None` where the output does not fit in 64 bits.
pub fn fill(remaining: u64, price: u64, amount: u64, direction: TradeDirection) -> (r: Option<
    SegmentFill,
>)
    ensures
        ({
            let f = fill_segment(remaining as nat, price as nat, amount as nat, direction);
            match r {
                Some(x) => x.taken == f.taken && x.output == f.output && x.base_used == f.base_used
                    && x.quote == f.quote,
                None => f.output > u64::MAX,
            }
        }),
{
    proof {
        lemma_fill_bounds(remaining as nat, price as nat, amount as nat, direction);
    }
    match direction {
        TradeDirection::BaseToQuote => {
            let taken: u64 = if amount < remaining {
                amount
            } else {
                remaining
            };
            assert(taken * price <= u64::MAX * u64::MAX) by (nonlinear_arith)
                requires
                    taken <= u64::MAX,
                    price <= u64::MAX,
            ;
            let value: u128 = (taken as u128) * (price as u128) / (PRICE_SCALE as u128);
            if value > u64::MAX as u128 {
                return None;
            }
            Some(
                SegmentFill {
                    taken,
                    output: value as u64,
                    base_used: taken,
                    quote: value as u64,
                },
            )
        },
        TradeDirection::QuoteToBase => {
            assert(remaining * price <= u64::MAX * u64::MAX) by (nonlinear_arith)
                requires
                    remaining <= u64::MAX,
                    price <= u64::MAX,
            ;
            let cost: u128 = ((remaining as u128) * (price as u128) + ((PRICE_SCALE - 1) as u128))
                / (PRICE_SCALE as u128);
            if amount as u128 >= cost {
                Some(
                    SegmentFill {
                        taken: cost as u64,
                        output: remaining,
                        base_used: remaining,
                        quote: cost as u64,
                    },
                )
            } else {
                assert(price > 0) by (nonlinear_arith)
                    requires
                        (remaining * price + (PRICE_SCALE - 1)) / (PRICE_SCALE as int) > 0,
                        PRICE_SCALE == 1_000_000_000,
                ;
                assert(amount * PRICE_SCALE <= u64::MAX * 1_000_000_000) by (nonlinear_arith)
                    requires
                        amount <= u64::MAX,
                        PRICE_SCALE == 1_000_000_000,
                ;
                let base: u128 = (amount as u128) * (PRICE_SCALE as u128) / (price as u128);
                Some(
                    SegmentFill {
                        taken: amount,
                        output: base as u64,
                        base_used: base as u64,
                        quote: amount,
                    },
                )
            }
        },
    }
}

/// Nothing is lost on a walk. The unfilled input is part of the input. Base
/// in: the position moves by the input that was filled, and the quote amount
/// moved is the output. Quote in: the quote amount moved is the input that was
/// filled, and the position moves by the output.
pub proof fn lemma_walk_accounts(
    segments: Seq<Segment>,
    i: nat,
    start: nat,
    position: nat,
    amount: nat,
    direction: TradeDirection,
)
    ensures
        walk_from(segments, i, start, position, amount, direction).unfilled <= amount,
        direction == TradeDirection::BaseToQuote ==> ({
            let w = walk_from(segments, i, start, position, amount, direction);
            w.quote == w.output && w.position == position + amount - w.unfilled
        }),
        direction == TradeDirection::QuoteToBase ==> ({
            let w = walk_from(segments, i, start, position, amount, direction);
            w.quote == amount - w.unfilled && w.position == position + w.output
        }),
    decreases segments.len() - i,
{
    if i >= segments.len() || amount == 0 {
    } else {
        let segment = segments[i as int];
        let end = start + segment.base_capacity as nat;
        if position >= end {
            lemma_walk_accounts(segments, i + 1, end, position, amount, direction);
        } else {
            let remaining = (end - position) as nat;
            let f = fill_segment(remaining, segment.price as nat, amount, direction);
            lemma_fill_bounds(remaining, segment.price as nat, amount, direction);
            lemma_walk_accounts(
                segments,
                i + 1,
                end,
                position + f.base_used,
                (amount - f.taken) as nat,
                direction,
            );
        }
    }
}

/// A walk fits where its output, its position and its quote amount each fit in
/// 64 bits.
pub open spec fn walk_fits(w: CurveWalk) -> bool {
    w.output <= u64::MAX && w.position <= u64::MAX && w.quote <= u64::MAX
}

/// What `walk` returns: `CurveExhausted` for a curve that is not well formed,
/// else `ArithmeticOverflow` for a walk that does not fit, else the walk.
pub open spec fn walk_result(
    segments: Seq<Segment>,
    position: nat,
    amount: nat,
    direction: TradeDirection,
) -> Result<WalkResult, PoolError> {
    let w = walk_curve(segments, position, amount, direction);
    if !curve_well_formed(segments) {
        Err(PoolError::CurveExhausted)
    } else if !walk_fits(w) {
        Err(PoolError::ArithmeticOverflow)
    } else {
        Ok(
            WalkResult {
                output_amount: w.output as u64,
                new_position: w.position as u64,
                quote_absorbed: w.quote as u64,
                unfilled: w.unfilled as u64,
            },
        )
    }
}

/// Walks the curve from `position` with `net_amount_in` input units: fills
/// segment after segment until the input or the curve ends, and reports the
/// input that found no capacity as unfilled.
pub fn walk(
    config: &CurveConfiguration,
    position: u64,
    net_amount_in: u64,
    direction: TradeDirection,
) -> (r: Result<WalkResult, PoolError>)
    ensures
        r == walk_result(config.segments@, position as nat, net_amount_in as nat, direction),
        r is Ok ==> r->Ok_0.unfilled <= net_amount_in,
        r is Ok ==> r->Ok_0.new_position >= position,
        r is Ok && direction == TradeDirection::BaseToQuote ==> r->Ok_0.quote_absorbed
            == r->Ok_0.output_amount && r->Ok_0.new_position - position == net_amount_in
            - r->Ok_0.unfilled,
        r is Ok && direction == TradeDirection::QuoteToBase ==> r->Ok_0.quote_absorbed
            == net_amount_in - r->Ok_0.unfilled && r->Ok_0.new_position - position
            == r->Ok_0.output_amount,
{
    proof {
        lemma_walk_accounts(
            config.segments@,
            0,
            0,
            position as nat,
            net_amount_in as nat,
            direction,
        );
    }
    if !config.is_well_formed() {
        return Err(PoolError::CurveExhausted);
    }
    let n: usize = config.segments.len();
    let ghost segments = config.segments@;
    let ghost total = walk_curve(segments, position as nat, net_amount_in as nat, direction);
    let mut i: usize = 0;
    let mut start: u128 = 0;
    let mut pos: u128 = position as u128;
    let mut amount: u64 = net_amount_in;
    let mut output: u64 = 0;
    let mut quote: u64 = 0;
    while i < n && amount > 0
        invariant
            i <= n,
            n == segments.len(),
            segments == config.segments@,
            curve_well_formed(segments),
            total == walk_curve(segments, position as nat, net_amount_in as nat, direction),
            start <= i * u64::MAX,
            pos <= position || pos <= start,
            position <= pos,
            amount > 0 ==> start <= pos,
            amount <= net_amount_in,
            total.output == output + walk_from(
                segments,
                i as nat,
                start as nat,
                pos as nat,
                amount as nat,
                direction,
            ).output,
            total.quote == quote + walk_from(
                segments,
                i as nat,
                start as nat,
                pos as nat,
                amount as nat,
                direction,
            ).quote,
            total.position == walk_from(
                segments,
                i as nat,
                start as nat,
                pos as nat,
                amount as nat,
                direction,
            ).position,
            total.unfilled == walk_from(
                segments,
                i as nat,
                start as nat,
                pos as nat,
                amount as nat,
                direction,
            ).unfilled,
        decreases n - i,
    {
        let segment = config.segments[i];
        assert(start + segment.base_capacity <= (i + 1) * u64::MAX) by (nonlinear_arith)
            requires
                start <= i * u64::MAX,
                segment.base_capacity <= u64::MAX,
        ;
        assert((i + 1) * u64::MAX <= usize::MAX * u64::MAX) by (nonlinear_arith)
            requires
                i + 1 <= usize::MAX,
        ;
        let end: u128 = start + segment.base_capacity as u128;
        if pos < end {
            let remaining: u64 = (end - pos) as u64;
            proof {
                lemma_fill_bounds(
                    remaining as nat,
                    segment.price as nat,
                    amount as nat,
                    direction,
                );
            }
            let filled = match fill(remaining, segment.price, amount, direction) {
                Some(f) => f,
                None => {
                    return Err(PoolError::ArithmeticOverflow);
                },
            };
            if filled.output > u64::MAX - output || filled.quote > u64::MAX - quote {
                return Err(PoolError::ArithmeticOverflow);
            }
            output = output + filled.output;
            quote = quote + filled.quote;
            pos = pos + filled.base_used as u128;
            amount = amount - filled.taken;
        }
        i = i + 1;
        start = end;
    }
    if pos > u64::MAX as u128 {
        return Err(PoolError::ArithmeticOverflow);
    }
    Ok(WalkResult { output_amount: output, new_position: pos as u64, quote_absorbed: quote, unfilled: amount })
}

/// The base offset at which segment `k` begins: the capacities of the segments
/// before it, added up.
pub open spec fn segment_start(segments: Seq<Segment>, k: nat) -> nat
    decreases k,
{
    if k == 0 {
        0
    } else {
        segment_start(segments, (k - 1) as nat) + segments[k - 1].base_capacity as nat
    }
}

/// A later segment begins no earlier than an earlier one.
pub proof fn lemma_starts_ordered(segments: Seq<Segment>, a: nat, b: nat)
    requires
        a <= b,
    ensures
        segment_start(segments, a) <= segment_start(segments, b),
    decreases b - a,
{
    if a < b {
        lemma_starts_ordered(segments, a, (b - 1) as nat);
    }
}

/// A walk passes over the segments that lie wholly below the position: a
/// consumed segment is never visited again.
pub proof fn lemma_walk_passes_consumed(
    segments: Seq<Segment>,
    i: nat,
    k: nat,
    position: nat,
    amount: nat,
    direction: TradeDirection,
)
    requires
        i <= k <= segments.len(),
        segment_start(segments, k) <= position,
    ensures
        walk_from(segments, i, segment_start(segments, i), position, amount, direction)
            == walk_from(segments, k, segment_start(segments, k), position, amount, direction),
    decreases k - i,
{
    if i < k {
        lemma_starts_ordered(segments, i + 1, k);
        lemma_walk_passes_consumed(segments, i + 1, k, position, amount, direction);
    }
}

/// A base input that uses up what is left of segment `k` and spills `extra`
/// units into the next segment gives the value of what was left at segment
/// `k`'s price and the value of `extra` at the next segment's price, and the
/// position ends `extra` units into the next segment: at its start where
/// `extra` is zero.
pub proof fn lemma_spill_into_next_segment(
    segments: Seq<Segment>,
    k: nat,
    position: nat,
    extra: nat,
)
    requires
        k + 1 < segments.len(),
        segment_start(segments, k) <= position < segment_start(segments, k + 1),
        extra <= segments[(k + 1) as int].base_capacity,
    ensures
        ({
            let left = (segment_start(segments, k + 1) - position) as nat;
            let value = quote_value(left, segments[k as int].price as nat) + quote_value(
                extra,
                segments[(k + 1) as int].price as nat,
            );
            walk_curve(segments, position, left + extra, TradeDirection::BaseToQuote) == (
            CurveWalk {
                output: value,
                position: segment_start(segments, k + 1) + extra,
                quote: value,
                unfilled: 0,
            })
        }),
{
    let left = (segment_start(segments, k + 1) - position) as nat;
    lemma_walk_passes_consumed(
        segments,
        0,
        k,
        position,
        left + extra,
        TradeDirection::BaseToQuote,
    );
    reveal_with_fuel(walk_from, 3);
    assert(quote_value(0, segments[(k + 1) as int].price as nat) == 0) by {
        assert(0 * (segments[(k + 1) as int].price as nat) == 0) by (nonlinear_arith);
    }
}

/// The output of a walk never shrinks when the input grows.
pub proof fn lemma_walk_output_monotone(
    segments: Seq<Segment>,
    i: nat,
    start: nat,
    position: nat,
    a1: nat,
    a2: nat,
    direction: TradeDirection,
)
    requires
        a1 <= a2,
    ensures
        walk_from(segments, i, start, position, a1, direction).output <= walk_from(
            segments,
            i,
            start,
            position,
            a2,
            direction,
        ).output,
    decreases segments.len() - i,
{
    if i >= segments.len() || a1 == 0 {
    } else {
        let segment = segments[i as int];
        let end = start + segment.base_capacity as nat;
        if position >= end {
            lemma_walk_output_monotone(segments, i + 1, end, position, a1, a2, direction);
        } else {
            let remaining = (end - position) as nat;
            let f1 = fill_segment(remaining, segment.price as nat, a1, direction);
            let f2 = fill_segment(remaining, segment.price as nat, a2, direction);
            lemma_fill_monotone(remaining, segment.price as nat, a1, a2, direction);
            lemma_fill_bounds(remaining, segment.price as nat, a1, direction);
            lemma_fill_bounds(remaining, segment.price as nat, a2, direction);
            if f1.taken == a1 {
                assert(walk_from(
                    segments,
                    i + 1,
                    end,
                    position + f1.base_used,
                    0,
                    direction,
                ).output == 0);
            } else {
                lemma_walk_output_monotone(
                    segments,
                    i + 1,
                    end,
                    position + f1.base_used,
                    (a1 - f1.taken) as nat,
                    (a2 - f2.taken) as nat,
                    direction,
                );
            }
        }
    }
}

} // verus!
