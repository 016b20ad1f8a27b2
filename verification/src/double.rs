//! Double-precision numbers, taken apart.
//!
//! A `Double` holds the 64 bits of an IEEE 754 binary64 number. Nothing is
//! computed with such numbers here. They are read exactly: the size of every
//! finite one, which is the number without its sign, is a whole mantissa
//! times a power of two. From that come its ceiling and its decimal text,
//! rounded where digits are cut, with ties going to the even digit.

use vstd::prelude::*;
use vstd::arithmetic::power2::{lemma2_to64, lemma_pow2_pos, lemma_pow2_strictly_increases, lemma_pow2_unfold, pow2};
use vstd::string::*;
use crate::decimal::{decimal, digit, one_decimal, push_digit, two_decimals};
use crate::natural::Natural;
use crate::quotient::{
    ceil_div,
    ceiling_of_quotient,
    lemma_round_half_even_bounded,
    lemma_round_half_even_nearest,
    lemma_round_half_even_shift,
    nearest_to_quotient,
    round_half_even,
};

verus! {

/// The bit that holds the sign: `2^63`.
pub const SIGN_BIT: u64 = 0x8000_0000_0000_0000;

/// One more than the largest fraction field: `2^52`.
pub const FRACTION_LIMIT: u64 = 0x10_0000_0000_0000;

/// The exponent field of what is not finite.
pub const EXPONENT_FIELD_MAX: u64 = 2047;

/// A double-precision number, as its 64 bits.
#[derive(Clone, Copy, Debug, PartialEq, Eq, Structural)]
pub struct Double {
    pub bits: u64,
}

impl Double {
    /// The sign bit is set.
    pub open spec fn is_negative(self) -> bool {
        self.bits >= SIGN_BIT
    }

    /// The eleven bits below the sign.
    pub open spec fn exponent_field(self) -> nat {
        ((self.bits % SIGN_BIT) / FRACTION_LIMIT) as nat
    }

    /// The lowest 52 bits.
    pub open spec fn fraction_field(self) -> nat {
        (self.bits % FRACTION_LIMIT) as nat
    }

    /// The bits stand for no number.
    pub open spec fn is_nan(self) -> bool {
        self.exponent_field() == EXPONENT_FIELD_MAX && self.fraction_field() != 0
    }

    /// The bits stand for what is beyond every number, above or below.
    pub open spec fn is_infinite(self) -> bool {
        self.exponent_field() == EXPONENT_FIELD_MAX && self.fraction_field() == 0
    }

    /// The bits stand for a number.
    pub open spec fn is_finite(self) -> bool {
        self.exponent_field() < EXPONENT_FIELD_MAX
    }

    /// The whole number that, times a power of two, is the size of a finite
    /// double.
    pub open spec fn mantissa(self) -> nat
        recommends
            self.is_finite(),
    {
        if self.exponent_field() == 0 {
            self.fraction_field()
        } else {
            FRACTION_LIMIT as nat + self.fraction_field()
        }
    }

    /// The power of two that the mantissa is multiplied by.
    pub open spec fn exponent(self) -> int
        recommends
            self.is_finite(),
    {
        if self.exponent_field() == 0 {
            -1074
        } else {
            self.exponent_field() - 1075
        }
    }

    /// The size of a finite double is `numerator / denominator`.
    pub open spec fn numerator(self) -> nat
        recommends
            self.is_finite(),
    {
        if self.exponent() >= 0 {
            self.mantissa() * pow2(self.exponent() as nat)
        } else {
            self.mantissa()
        }
    }

    /// The size of a finite double is `numerator / denominator`.
    pub open spec fn denominator(self) -> nat
        recommends
            self.is_finite(),
    {
        if self.exponent() >= 0 {
            1
        } else {
            pow2((-self.exponent()) as nat)
        }
    }

    /// The size of a finite double times `scale`, rounded to the nearest
    /// whole number, ties to the even one.
    pub open spec fn scaled(self, scale: nat) -> nat
        recommends
            self.is_finite(),
    {
        round_half_even(scale * self.numerator(), self.denominator())
    }

    /// The least whole number that is not below the size of a finite double.
    pub open spec fn ceiling(self) -> nat
        recommends
            self.is_finite(),
    {
        ceil_div(self.numerator(), self.denominator())
    }

    /// The minus sign of a negative double.
    pub open spec fn sign_text(self) -> Seq<char> {
        if self.is_negative() {
            seq!['-']
        } else {
            Seq::empty()
        }
    }

    /// The double with one digit behind the point.
    pub open spec fn text_one_decimal(self) -> Seq<char> {
        if self.is_nan() {
            "NaN"@
        } else if self.is_infinite() {
            self.sign_text() + "inf"@
        } else {
            self.sign_text() + one_decimal(self.scaled(10))
        }
    }

    /// The double with two digits behind the point.
    pub open spec fn text_two_decimals(self) -> Seq<char> {
        if self.is_nan() {
            "NaN"@
        } else if self.is_infinite() {
            self.sign_text() + "inf"@
        } else {
            self.sign_text() + two_decimals(self.scaled(100))
        }
    }

    /// The double with these bits.
    pub fn from_bits(bits: u64) -> (double: Double)
        ensures
            double.bits == bits,
    {
        Double { bits }
    }

    /// The bits of the double.
    pub fn to_bits(&self) -> (bits: u64)
        ensures
            bits == self.bits,
    {
        self.bits
    }

    /// Whether the sign bit is set.
    pub fn has_sign(&self) -> (negative: bool)
        ensures
            negative == self.is_negative(),
    {
        self.bits >= SIGN_BIT
    }

    /// The exponent field and the fraction field.
    fn fields(&self) -> (fields: (u64, u64))
        ensures
            fields.0 == self.exponent_field(),
            fields.1 == self.fraction_field(),
            fields.0 <= EXPONENT_FIELD_MAX,
            fields.1 < FRACTION_LIMIT,
    {
        ((self.bits % SIGN_BIT) / FRACTION_LIMIT, self.bits % FRACTION_LIMIT)
    }

    /// Whether the bits stand for no number.
    pub fn not_a_number(&self) -> (nan: bool)
        ensures
            nan == self.is_nan(),
    {
        let (field, fraction) = self.fields();
        field == EXPONENT_FIELD_MAX && fraction != 0
    }

    /// Whether the bits stand for a number.
    pub fn finite(&self) -> (finite: bool)
        ensures
            finite == self.is_finite(),
    {
        let (field, _) = self.fields();
        field < EXPONENT_FIELD_MAX
    }

    /// The mantissa of a finite double, and how many times it is to be
    /// doubled (`up`) or halved (`down`): one of the two counts is zero.
    fn parts(&self) -> (parts: (u64, u32, u32))
        requires
            self.is_finite(),
        ensures
            parts.0 == self.mantissa(),
            parts.0 < 2 * FRACTION_LIMIT,
            self.exponent() >= 0 ==> parts.1 == self.exponent() && parts.2 == 0,
            self.exponent() < 0 ==> parts.1 == 0 && parts.2 == -self.exponent(),
            parts.1 <= 971,
            parts.2 <= 1074,
    {
        let (field, fraction) = self.fields();
        if field == 0 {
            (fraction, 0, 1074)
        } else if field >= 1075 {
            (FRACTION_LIMIT + fraction, (field - 1075) as u32, 0)
        } else {
            (FRACTION_LIMIT + fraction, 0, (1075 - field) as u32)
        }
    }

    /// The size of a finite double times `scale`, rounded, as a whole part
    /// and a rest below `scale`.
    fn split_scaled(&self, scale: u128) -> (split: (Natural, u128))
        requires
            self.is_finite(),
            scale == 10 || scale == 100,
        ensures
            split.0.wf(),
            split.1 < scale,
            self.scaled(scale as nat) == scale * split.0@ + split.1,
    {
        let (mantissa, up, down) = self.parts();
        let m: u128 = mantissa as u128;
        if down == 0 {
            let whole = Natural::shifted(m, up);
            proof {
                let product = m * pow2(up as nat);
                assert(scale * product == scale * whole@) by (nonlinear_arith)
                    requires
                        product == whole@,
                ;
                assert(self.numerator() == product);
                assert(self.denominator() == 1);
            }
            (whole, 0)
        } else if down >= 64 {
            proof {
                lemma_halved_below_half(scale as nat * m as nat, down as nat);
            }
            (Natural::from_u128(0), 0)
        } else {
            let d: u128 = power_of_two(down);
            let whole: u128 = m / d;
            let rest: u128 = m % d;
            assert(scale * rest <= 100 * 0x1_0000_0000_0000_0000) by (nonlinear_arith)
                requires
                    scale <= 100,
                    rest <= 0x1_0000_0000_0000_0000,
            ;
            let fraction: u128 = nearest_to_quotient(scale * rest, d);
            proof {
                assert(m == whole * d + rest && rest < d) by (nonlinear_arith)
                    requires
                        d > 0,
                        whole == m / d,
                        rest == m % d,
                ;
                assert(scale * m == (scale * whole) * d + scale * rest) by (nonlinear_arith)
                    requires
                        m == whole * d + rest,
                ;
                assert(scale * rest < scale * d) by (nonlinear_arith)
                    requires
                        rest < d,
                        scale > 0,
                ;
                lemma_round_half_even_shift(
                    (scale * whole) as nat,
                    (scale * rest) as nat,
                    d as nat,
                );
                lemma_round_half_even_bounded((scale * rest) as nat, d as nat, scale as nat);
                assert(self.scaled(scale as nat) == scale * whole + fraction);
            }
            if fraction == scale {
                (Natural::from_u128(whole + 1), 0)
            } else {
                (Natural::from_u128(whole), fraction)
            }
        }
    }

    /// Computes `ceiling`, where the double is finite.
    pub fn ceiling_of(&self) -> (ceiling: Option<Natural>)
        ensures
            ceiling is Some <==> self.is_finite(),
            ceiling matches Some(c) ==> c.wf() && c@ == self.ceiling(),
    {
        if !self.finite() {
            return None;
        }
        let (mantissa, up, down) = self.parts();
        let m: u128 = mantissa as u128;
        if down == 0 {
            Some(Natural::shifted(m, up))
        } else if down >= 64 {
            proof {
                lemma_halved_below_half(m as nat, down as nat);
            }
            if m == 0 {
                Some(Natural::from_u128(0))
            } else {
                Some(Natural::from_u128(1))
            }
        } else {
            let d: u128 = power_of_two(down);
            Some(Natural::from_u128(ceiling_of_quotient(m, d)))
        }
    }

    /// Appends the double to `out`, with one digit behind the point.
    pub fn push_one_decimal(&self, out: &mut String)
        ensures
            final(out)@ == old(out)@ + self.text_one_decimal(),
    {
        let ghost before = out@;
        if self.not_a_number() {
            out.append("NaN");
            return ;
        }
        if self.has_sign() {
            proof {
                reveal_strlit("-");
            }
            out.append("-");
        }
        assert(out@ =~= before + self.sign_text());
        if !self.finite() {
            out.append("inf");
            assert(out@ =~= before + (self.sign_text() + "inf"@));
            return ;
        }
        let (whole, rest) = self.split_scaled(10);
        whole.push_text(out);
        proof {
            reveal_strlit(".");
        }
        out.append(".");
        push_digit(out, rest);
        assert(out@ =~= before + (self.sign_text() + one_decimal(self.scaled(10))));
    }

    /// Appends the double to `out`, with two digits behind the point.
    pub fn push_two_decimals(&self, out: &mut String)
        ensures
            final(out)@ == old(out)@ + self.text_two_decimals(),
    {
        let ghost before = out@;
        if self.not_a_number() {
            out.append("NaN");
            return ;
        }
        if self.has_sign() {
            proof {
                reveal_strlit("-");
            }
            out.append("-");
        }
        assert(out@ =~= before + self.sign_text());
        if !self.finite() {
            out.append("inf");
            assert(out@ =~= before + (self.sign_text() + "inf"@));
            return ;
        }
        let (whole, rest) = self.split_scaled(100);
        whole.push_text(out);
        proof {
            reveal_strlit(".");
        }
        out.append(".");
        push_digit(out, rest / 10);
        push_digit(out, rest % 10);
        assert(out@ =~= before + (self.sign_text() + two_decimals(self.scaled(100))));
    }
}

/// The digits that are shown for a finite double are the nearest to it: the
/// scaled and rounded size differs from the scaled size by at most one half,
/// and is even where it is exactly one half away.
pub proof fn lemma_scaled_is_nearest(double: Double, scale: nat)
    requires
        double.is_finite(),
    ensures
        double.denominator() > 0,
        2 * (double.scaled(scale) * double.denominator() - scale * double.numerator())
            <= double.denominator(),
        2 * (scale * double.numerator() - double.scaled(scale) * double.denominator())
            <= double.denominator(),
        (2 * (double.scaled(scale) * double.denominator() - scale * double.numerator())
            == double.denominator() || 2 * (scale * double.numerator() - double.scaled(scale)
            * double.denominator()) == double.denominator()) ==> double.scaled(scale) % 2 == 0,
{
    if double.exponent() < 0 {
        lemma_pow2_pos((-double.exponent()) as nat);
    }
    lemma_round_half_even_nearest(scale * double.numerator(), double.denominator());
}

/// A number below `2^63`, divided by `2^down` with `down` of 64 or more, is
/// less than one half: it rounds to zero, and its ceiling is one unless the
/// number is zero.
pub proof fn lemma_halved_below_half(n: nat, down: nat)
    requires
        n < 0x8000_0000_0000_0000,
        down >= 64,
    ensures
        round_half_even(n, pow2(down)) == 0,
        ceil_div(n, pow2(down)) == if n == 0 { 0nat } else { 1nat },
{
    lemma2_to64();
    if down > 64 {
        lemma_pow2_strictly_increases(64, down);
    }
    let d = pow2(down);
    assert(n / d == 0 && n % d == n) by (nonlinear_arith)
        requires
            n < d,
    ;
}

/// Computes `2^exponent`.
fn power_of_two(exponent: u32) -> (power: u128)
    requires
        exponent <= 64,
    ensures
        power == pow2(exponent as nat),
        0 < power <= 0x1_0000_0000_0000_0000,
{
    let mut power: u128 = 1;
    let mut done: u32 = 0;
    proof {
        lemma2_to64();
    }
    while done < exponent
        invariant
            done <= exponent <= 64,
            power == pow2(done as nat),
            power <= 0x1_0000_0000_0000_0000,
        decreases exponent - done,
    {
        proof {
            lemma_pow2_unfold((done + 1) as nat);
            lemma2_to64();
            if done + 1 < 64 {
                lemma_pow2_strictly_increases((done + 1) as nat, 64);
            }
        }
        power = 2 * power;
        done = done + 1;
    }
    proof {
        lemma_pow2_pos(exponent as nat);
    }
    power
}

} // verus!
