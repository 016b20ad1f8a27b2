//! Whole numbers of any size, kept as their decimal digits.

use vstd::prelude::*;
use vstd::arithmetic::power2::{lemma2_to64, lemma_pow2_unfold, pow2};
use vstd::string::*;
use crate::decimal::{decimal, digit, push_digit};

verus! {

/// The number that a sequence of decimal digits stands for, the digit of the
/// ones first.
pub open spec fn digits_value(digits: Seq<u8>) -> nat
    decreases digits.len(),
{
    if digits.len() == 0 {
        0
    } else {
        digits[0] as nat + 10 * digits_value(digits.skip(1))
    }
}

/// The digits as they are written: the last of the sequence first.
pub open spec fn digits_text(digits: Seq<u8>) -> Seq<char>
    decreases digits.len(),
{
    if digits.len() == 0 {
        Seq::empty()
    } else {
        digits_text(digits.skip(1)).push(digit(digits[0] as nat))
    }
}

/// Every member is a decimal digit.
pub open spec fn all_decimal(digits: Seq<u8>) -> bool {
    forall|i: int| 0 <= i < digits.len() ==> #[trigger] digits[i] < 10
}

/// Every member is a decimal digit and the highest is not zero.
pub open spec fn canonical(digits: Seq<u8>) -> bool {
    all_decimal(digits) && (digits.len() > 0 ==> digits.last() != 0)
}

/// The digits of a number, the digit of the ones first; none for zero.
pub open spec fn digits_of(n: nat) -> Seq<u8>
    decreases n,
{
    if n == 0 {
        Seq::empty()
    } else {
        seq![(n % 10) as u8] + digits_of(n / 10)
    }
}

/// The digits of twice a number plus a carry, by the school method.
pub open spec fn doubled(digits: Seq<u8>, carry: nat) -> Seq<u8>
    decreases digits.len(),
{
    if digits.len() == 0 {
        if carry == 0 {
            Seq::empty()
        } else {
            seq![carry as u8]
        }
    } else {
        let twice = 2 * digits[0] as nat + carry;
        seq![(twice % 10) as u8] + doubled(digits.skip(1), twice / 10)
    }
}

/// `digits_of` gives canonical digits that stand for the number.
pub proof fn lemma_digits_of(n: nat)
    ensures
        canonical(digits_of(n)),
        digits_value(digits_of(n)) == n,
        n > 0 ==> digits_of(n).len() > 0,
    decreases n,
{
    if n > 0 {
        lemma_digits_of(n / 10);
        let rest = digits_of(n / 10);
        let all = digits_of(n);
        assert(all.skip(1) =~= rest);
        assert forall|i: int| 0 <= i < all.len() implies #[trigger] all[i] < 10 by {
            if i > 0 {
                assert(all[i] == rest[i - 1]);
            }
        }
        if rest.len() > 0 {
            assert(all.last() == rest.last());
        }
    }
}

/// Doubling by the school method doubles the number, and keeps digits canonical.
pub proof fn lemma_doubled(digits: Seq<u8>, carry: nat)
    requires
        all_decimal(digits),
        carry <= 1,
    ensures
        all_decimal(doubled(digits, carry)),
        digits_value(doubled(digits, carry)) == 2 * digits_value(digits) + carry,
        doubled(digits, carry).len() >= digits.len(),
        canonical(digits) && digits.len() > 0 ==> canonical(doubled(digits, carry)),
    decreases digits.len(),
{
    let result = doubled(digits, carry);
    if digits.len() == 0 {
        if carry != 0 {
            assert(result.skip(1) =~= Seq::<u8>::empty());
            assert(digits_value(Seq::<u8>::empty()) == 0);
            assert(result[0] == carry);
        }
    } else {
        let twice = 2 * digits[0] as nat + carry;
        let tail = digits.skip(1);
        assert(digits[0] < 10);
        assert forall|i: int| 0 <= i < tail.len() implies #[trigger] tail[i] < 10 by {
            assert(tail[i] == digits[i + 1]);
        }
        lemma_doubled(tail, twice / 10);
        let rest = doubled(tail, twice / 10);
        assert(result.skip(1) =~= rest);
        assert(result[0] == twice % 10);
        assert(digits_value(result) == result[0] + 10 * digits_value(rest));
        assert(digits_value(digits) == digits[0] + 10 * digits_value(tail));
        assert forall|i: int| 0 <= i < result.len() implies #[trigger] result[i] < 10 by {
            if i > 0 {
                assert(result[i] == rest[i - 1]);
            }
        }
        if canonical(digits) {
            if tail.len() == 0 {
                assert(digits.last() == digits[0]);
                if twice / 10 == 0 {
                    assert(rest =~= Seq::<u8>::empty());
                    assert(result.last() == result[0]);
                } else {
                    assert(rest =~= seq![(twice / 10) as u8]);
                    assert(result.last() == rest[0]);
                }
            } else {
                assert(tail.last() == digits.last());
                assert(result.last() == rest.last());
            }
        }
    }
}

/// Canonical digits, written out, are the decimal text of their number.
pub proof fn lemma_text_is_decimal(digits: Seq<u8>)
    requires
        canonical(digits),
        digits.len() > 0,
    ensures
        digits_text(digits) == decimal(digits_value(digits)),
        digits_value(digits) >= 1,
    decreases digits.len(),
{
    let tail = digits.skip(1);
    assert(digits[0] < 10);
    if tail.len() == 0 {
        assert(digits.last() == digits[0]);
        assert(digits_text(tail) =~= Seq::<char>::empty());
        assert(digits_value(tail) == 0);
        assert(digits_text(digits) =~= seq![digit(digits[0] as nat)]);
    } else {
        assert forall|i: int| 0 <= i < tail.len() implies #[trigger] tail[i] < 10 by {
            assert(tail[i] == digits[i + 1]);
        }
        assert(tail.last() == digits.last());
        lemma_text_is_decimal(tail);
        let n = digits_value(digits);
        assert(n / 10 == digits_value(tail));
        assert(n % 10 == digits[0]);
    }
}

/// A whole number of any size.
#[derive(Debug)]
pub struct Natural {
    digits: Vec<u8>,
}

impl View for Natural {
    type V = nat;

    closed spec fn view(&self) -> nat {
        digits_value(self.digits@)
    }
}

impl Natural {
    /// The digits are canonical.
    pub closed spec fn wf(&self) -> bool {
        canonical(self.digits@)
    }

    /// The number `n`.
    pub fn from_u128(n: u128) -> (number: Natural)
        ensures
            number.wf(),
            number@ == n,
    {
        let mut digits: Vec<u8> = Vec::new();
        let mut rest: u128 = n;
        while rest > 0
            invariant
                digits@ + digits_of(rest as nat) == digits_of(n as nat),
            decreases rest,
        {
            digits.push((rest % 10) as u8);
            assert(digits@ + digits_of((rest / 10) as nat) =~= digits_of(n as nat));
            rest = rest / 10;
        }
        proof {
            lemma_digits_of(n as nat);
            assert(digits@ =~= digits_of(n as nat));
        }
        Natural { digits }
    }

    /// Twice the number.
    pub fn double(&self) -> (twice: Natural)
        requires
            self.wf(),
        ensures
            twice.wf(),
            twice@ == 2 * self@,
    {
        let n: usize = self.digits.len();
        let mut digits: Vec<u8> = Vec::new();
        let mut carry: u8 = 0;
        let mut at: usize = 0;
        assert(self.digits@.skip(0) =~= self.digits@);
        while at < n
            invariant
                at <= n,
                n == self.digits.len(),
                carry <= 1,
                all_decimal(self.digits@),
                digits@ + doubled(self.digits@.skip(at as int), carry as nat) == doubled(
                    self.digits@,
                    0,
                ),
            decreases n - at,
        {
            let ghost tail = self.digits@.skip(at as int);
            let ghost before = digits@;
            let ghost carried = carry as nat;
            assert(tail[0] == self.digits@[at as int]);
            assert(self.digits@[at as int] < 10);
            assert(tail.skip(1) =~= self.digits@.skip(at + 1));
            let sum: u8 = 2 * self.digits[at] + carry;
            assert(doubled(tail, carry as nat) == seq![(sum % 10) as u8] + doubled(
                tail.skip(1),
                (sum / 10) as nat,
            ));
            digits.push(sum % 10);
            carry = sum / 10;
            at = at + 1;
            assert(digits@ + doubled(self.digits@.skip(at as int), carry as nat) =~= before
                + doubled(tail, carried));
        }
        assert(self.digits@.skip(n as int) =~= Seq::<u8>::empty());
        if carry > 0 {
            digits.push(carry);
        }
        proof {
            lemma_doubled(self.digits@, 0);
            assert(digits@ =~= doubled(self.digits@, 0));
            if n == 0 {
                assert(doubled(self.digits@, 0) =~= Seq::<u8>::empty());
            }
        }
        Natural { digits }
    }

    /// The number `mantissa * 2^exponent`.
    pub fn shifted(mantissa: u128, exponent: u32) -> (number: Natural)
        ensures
            number.wf(),
            number@ == mantissa * pow2(exponent as nat),
    {
        let mut number = Natural::from_u128(mantissa);
        let mut done: u32 = 0;
        proof {
            lemma2_to64();
        }
        while done < exponent
            invariant
                done <= exponent,
                number.wf(),
                number@ == mantissa * pow2(done as nat),
            decreases exponent - done,
        {
            proof {
                lemma_pow2_unfold((done + 1) as nat);
                assert(2 * (mantissa * pow2(done as nat)) == mantissa * (2 * pow2(done as nat)))
                    by (nonlinear_arith);
            }
            number = number.double();
            done = done + 1;
        }
        number
    }

    /// Appends the number in decimal to `out`.
    pub fn push_text(&self, out: &mut String)
        requires
            self.wf(),
        ensures
            final(out)@ == old(out)@ + decimal(self@),
    {
        let n: usize = self.digits.len();
        let ghost before = out@;
        if n == 0 {
            push_digit(out, 0);
            assert(out@ =~= before + decimal(0));
            return ;
        }
        let mut at: usize = n;
        assert(self.digits@.skip(n as int) =~= Seq::<u8>::empty());
        assert(out@ =~= before + digits_text(self.digits@.skip(n as int)));
        while at > 0
            invariant
                at <= n,
                n == self.digits.len(),
                all_decimal(self.digits@),
                out@ == before + digits_text(self.digits@.skip(at as int)),
            decreases at,
        {
            at = at - 1;
            let ghost tail = self.digits@.skip(at as int);
            assert(tail[0] == self.digits@[at as int]);
            assert(self.digits@[at as int] < 10);
            assert(tail.skip(1) =~= self.digits@.skip(at + 1));
            push_digit(out, self.digits[at] as u128);
            assert(out@ =~= before + digits_text(tail));
        }
        proof {
            assert(self.digits@.skip(0) =~= self.digits@);
            lemma_text_is_decimal(self.digits@);
        }
    }

    /// The number in decimal.
    pub fn to_text(&self) -> (text: String)
        requires
            self.wf(),
        ensures
            text@ == decimal(self@),
    {
        let mut text = String::new();
        self.push_text(&mut text);
        assert(text@ =~= decimal(self@));
        text
    }
}

} // verus!
