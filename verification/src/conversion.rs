//! The conversion engine: from a count of coins and what was measured for it
//! to the number of carriers and the message that reports it.
//!
//! The measures are doubles: the value of the coins, the weight of metal
//! that the value buys, and the weight in carrier loads. They are the
//! caller's to compute, by one product and two divisions. Here each is read
//! exactly.

use vstd::prelude::*;
use vstd::arithmetic::power2::lemma_pow2_pos;
use vstd::string::*;
use crate::decimal::{decimal, push_decimal};
use crate::double::Double;
use crate::natural::Natural;
use crate::quotient::{lemma_ceil_div_brackets, lemma_ceil_div_unique};

verus! {

/// The bits of the number of kilograms that one carrier takes: ten.
pub const CARRIER_CAPACITY_BITS: u64 = 0x4024_0000_0000_0000;

/// The carrier count reported for a load that has no bound.
pub const UNBOUNDED_CARRIER_UNITS: u128 = 4_294_967_295;

/// What was measured for a count of coins at two prices.
#[derive(Clone, Copy, Debug, PartialEq, Eq, Structural)]
pub struct Measures {
    /// The value of the coins in dollars: the count times the asset's price.
    pub usd_value: Double,
    /// The weight of metal in kilograms: the value over the metal's price.
    pub weight: Double,
    /// The weight in carrier loads: the weight over a carrier's capacity.
    pub load: Double,
}

/// The number of carriers for a load: the least whole number that is not
/// below it. No carrier goes for a load that is negative or no number, and
/// a load beyond every number is given the unbounded count.
pub open spec fn carrier_units_of(load: Double) -> nat {
    if load.is_nan() || load.is_negative() {
        0
    } else if load.is_infinite() {
        UNBOUNDED_CARRIER_UNITS as nat
    } else {
        load.ceiling()
    }
}

/// The sentence that reports a conversion. The weight is shown with one
/// digit behind the point.
pub open spec fn message_text(counter: nat, carrier_units: nat, weight: Double) -> Seq<char> {
    "Yo Habibi, your "@ + decimal(counter) + " HabibiCoins are enough for "@ + decimal(
        carrier_units,
    ) + " camels carrying "@ + weight.text_one_decimal() + " kg of silver!"@
}

/// The sentence that reports what `counter` coins are worth, given their
/// measures.
pub open spec fn report_of(counter: u32, measures: Measures) -> Seq<char> {
    message_text(counter as nat, carrier_units_of(measures.load), measures.weight)
}

/// What a count of coins is worth.
#[derive(Debug)]
pub struct ConversionResult {
    /// The count that was converted.
    pub counter: u32,
    /// The value and the weight that were measured for it.
    pub measures: Measures,
    /// The number of carriers that the weight needs.
    pub carrier_units: Natural,
    /// The sentence that reports all of this.
    pub message: String,
}

impl ConversionResult {
    /// The derived fields agree with the measures: the carrier count is the
    /// ceiling of the load, and the message reports it with the weight.
    pub open spec fn wf(self) -> bool {
        &&& self.carrier_units.wf()
        &&& self.carrier_units@ == carrier_units_of(self.measures.load)
        &&& self.message@ == report_of(self.counter, self.measures)
    }
}

/// Computes `carrier_units_of`.
pub fn count_carrier_units(load: Double) -> (units: Natural)
    ensures
        units.wf(),
        units@ == carrier_units_of(load),
{
    if load.not_a_number() || load.has_sign() {
        Natural::from_u128(0)
    } else {
        match load.ceiling_of() {
            Some(ceiling) => ceiling,
            None => Natural::from_u128(UNBOUNDED_CARRIER_UNITS),
        }
    }
}

/// Converts `counter` coins, given their measures: counts the carriers and
/// writes the message.
///
/// The measures are taken as they come. A weight that is not finite shows as
/// such in the message.
pub fn convert(counter: u32, measures: Measures) -> (result: ConversionResult)
    ensures
        result.counter == counter,
        result.measures == measures,
        result.carrier_units.wf(),
        result.carrier_units@ == carrier_units_of(measures.load),
        result.message@ == report_of(counter, measures),
        result.wf(),
{
    let carrier_units = count_carrier_units(measures.load);
    let mut message = String::new();
    message.append("Yo Habibi, your ");
    push_decimal(&mut message, counter as u128);
    message.append(" HabibiCoins are enough for ");
    carrier_units.push_text(&mut message);
    message.append(" camels carrying ");
    measures.weight.push_one_decimal(&mut message);
    message.append(" kg of silver!");
    assert(message@ =~= report_of(counter, measures));
    ConversionResult { counter, measures, carrier_units, message }
}

/// For a load that is a number and not negative, the carrier count is the
/// ceiling of the load `numerator / denominator`: it is the one whole number
/// `k` for which `k - 1` carriers are too few and `k` are enough.
pub proof fn lemma_carrier_units_is_ceiling(load: Double, k: int)
    requires
        load.is_finite(),
        !load.is_negative(),
    ensures
        load.denominator() > 0,
        k == carrier_units_of(load) <==> (k - 1) * load.denominator() < load.numerator() <= k
            * load.denominator(),
{
    if load.exponent() < 0 {
        lemma_pow2_pos((-load.exponent()) as nat);
    }
    lemma_ceil_div_brackets(load.numerator(), load.denominator());
    if (k - 1) * load.denominator() < load.numerator() <= k * load.denominator() {
        lemma_ceil_div_unique(load.numerator(), load.denominator(), k);
    }
}

/// No coins are worth nothing: where value, weight and load are all zero,
/// the weight shows as `0.0` and no carrier goes.
pub proof fn lemma_zero_converts_to_nothing(measures: Measures)
    requires
        measures.usd_value.bits == 0,
        measures.weight.bits == 0,
        measures.load.bits == 0,
    ensures
        measures.usd_value.is_finite() && measures.usd_value.numerator() == 0,
        measures.weight.is_finite() && measures.weight.numerator() == 0,
        measures.weight.text_one_decimal() == seq!['0', '.', '0'],
        carrier_units_of(measures.load) == 0,
{
    let zero = measures.weight;
    assert(zero == measures.load);
    assert(zero.exponent_field() == 0);
    assert(zero.fraction_field() == 0);
    lemma_pow2_pos(1074);
    let d = zero.denominator();
    assert(0nat % d == 0 && 0nat / d == 0) by (nonlinear_arith)
        requires
            d > 0,
    ;
    assert(10 * zero.numerator() == 0);
    assert(zero.scaled(10) == 0);
    assert(zero.text_one_decimal() =~= seq!['0', '.', '0']);
}

} // verus!
