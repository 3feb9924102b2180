use vstd::prelude::*;

verus! {

/// Denominator of the fee rate: a rate of `FEE_DENOMINATOR` is 100%.
pub const FEE_DENOMINATOR: u64 = 1_000_000_000;

/// Fixed-point scale of a segment's price: a price of `PRICE_SCALE` is one
/// quote unit per base unit.
pub const PRICE_SCALE: u64 = 1_000_000_000;

/// Which asset the trader hands in.
#[derive(Clone, Copy, Debug, PartialEq, Eq, Structural)]
pub enum TradeDirection {
    /// Base in, quote out.
    BaseToQuote,
    /// Quote in, base out.
    QuoteToBase,
}

/// When the fee is taken.
#[derive(Clone, Copy, Debug, PartialEq, Eq, Structural)]
pub enum FeeMode {
    /// From the input, before the curve is walked.
    OnInput,
    /// From the output, after the curve is walked.
    OnOutput,
}

/// One stretch of the curve: `base_capacity` base units, all traded at
/// `price` quote units per base unit, scaled by `PRICE_SCALE`.
#[derive(Clone, Copy, Debug, PartialEq, Eq, Structural)]
pub struct Segment {
    pub base_capacity: u64,
    pub price: u64,
}

/// The fee rate, the protocol's share of each fee, and for each direction
/// whether the fee is taken from the input.
#[derive(Clone, Copy, Debug, PartialEq, Eq, Structural)]
pub struct FeeSchedule {
    /// Fee rate over `FEE_DENOMINATOR`.
    pub fee_numerator: u64,
    /// Percent of each fee that goes to the protocol.
    pub protocol_fee_percent: u8,
    pub base_to_quote_on_input: bool,
    pub quote_to_base_on_input: bool,
}

/// A pool's curve, fee schedule and swallow cap. Set once, read by every swap.
#[derive(Clone, Debug)]
pub struct CurveConfiguration {
    pub segments: Vec<Segment>,
    pub fee_schedule: FeeSchedule,
    pub max_swallow_quote_amount: u64,
}

/// A curve is well formed when it has a segment and none of capacity zero.
pub open spec fn curve_well_formed(segments: Seq<Segment>) -> bool {
    segments.len() > 0 && forall|i: int|
        0 <= i < segments.len() ==> (#[trigger] segments[i]).base_capacity > 0
}

impl FeeSchedule {
    /// The fee mode that the schedule sets for a direction.
    pub open spec fn spec_fee_mode(self, direction: TradeDirection) -> FeeMode {
        let on_input = match direction {
            TradeDirection::BaseToQuote => self.base_to_quote_on_input,
            TradeDirection::QuoteToBase => self.quote_to_base_on_input,
        };
        if on_input {
            FeeMode::OnInput
        } else {
            FeeMode::OnOutput
        }
    }

    /// Resolves the fee mode for a trade in `direction`.
    pub fn fee_mode(&self, direction: TradeDirection) -> (mode: FeeMode)
        ensures
            mode == self.spec_fee_mode(direction),
    {
        let on_input = match direction {
            TradeDirection::BaseToQuote => self.base_to_quote_on_input,
            TradeDirection::QuoteToBase => self.quote_to_base_on_input,
        };
        if on_input {
            FeeMode::OnInput
        } else {
            FeeMode::OnOutput
        }
    }
}

impl CurveConfiguration {
    /// The largest quote amount that one swap may move.
    pub fn get_max_swallow_quote_amount(&self) -> (cap: u64)
        ensures
            cap == self.max_swallow_quote_amount,
    {
        self.max_swallow_quote_amount
    }

    /// Whether the curve has a segment and none of capacity zero.
    pub fn is_well_formed(&self) -> (ok: bool)
        ensures
            ok == curve_well_formed(self.segments@),
    {
        if self.segments.len() == 0 {
            return false;
        }
        let mut i: usize = 0;
        while i < self.segments.len()
            invariant
                i <= self.segments.len(),
                forall|j: int| 0 <= j < i ==> (#[trigger] self.segments@[j]).base_capacity > 0,
            decreases self.segments.len() - i,
        {
            if self.segments[i].base_capacity == 0 {
                return false;
            }
            i += 1;
        }
        true
    }
}

} // verus!
