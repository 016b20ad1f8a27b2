//! Whole numbers out of quotients: the ceiling of `n / d` and `n / d` rounded
//! to the nearest whole number with ties going to the even neighbour.

use vstd::prelude::*;
use vstd::arithmetic::div_mod::{
    lemma_fundamental_div_mod_converse_div,
    lemma_fundamental_div_mod_converse_mod,
};

verus! {

/// The least whole number that is not below `n / d`.
pub open spec fn ceil_div(n: nat, d: nat) -> nat
    recommends
        d > 0,
{
    if n % d == 0 {
        n / d
    } else {
        n / d + 1
    }
}

/// The whole number nearest to `n / d`; where two are equally near, the even one.
pub open spec fn round_half_even(n: nat, d: nat) -> nat
    recommends
        d > 0,
{
    let below = n / d;
    let rest = n % d;
    if 2 * rest < d {
        below
    } else if 2 * rest > d {
        below + 1
    } else if below % 2 == 0 {
        below
    } else {
        below + 1
    }
}

/// `ceil_div(n, d)` is a whole number `k` with `k - 1 < n / d <= k`.
pub proof fn lemma_ceil_div_brackets(n: nat, d: nat)
    requires
        d > 0,
    ensures
        (ceil_div(n, d) - 1) * d < n <= ceil_div(n, d) * d,
{
    let q = n / d;
    let r = n % d;
    assert(n == q * d + r && 0 <= r < d) by (nonlinear_arith)
        requires
            d > 0,
            q == n / d,
            r == n % d,
    ;
    let c = ceil_div(n, d) as int;
    assert((c - 1) * d < n <= c * d) by (nonlinear_arith)
        requires
            n == q * d + r,
            0 <= r < d,
            c == if r == 0 { q as int } else { q as int + 1 },
    ;
}

/// No other whole number `k` has `k - 1 < n / d <= k`.
pub proof fn lemma_ceil_div_unique(n: nat, d: nat, k: int)
    requires
        d > 0,
        (k - 1) * d < n <= k * d,
    ensures
        k == ceil_div(n, d),
{
    lemma_ceil_div_brackets(n, d);
    let c = ceil_div(n, d) as int;
    assert(k == c) by (nonlinear_arith)
        requires
            (k - 1) * d < n <= k * d,
            (c - 1) * d < n <= c * d,
            d > 0,
    ;
}

/// `round_half_even(n, d)` is within one half of `n / d`, and even when it is
/// exactly one half away.
pub proof fn lemma_round_half_even_nearest(n: nat, d: nat)
    requires
        d > 0,
    ensures
        2 * (round_half_even(n, d) * d - n) <= d,
        2 * (n - round_half_even(n, d) * d) <= d,
        2 * (round_half_even(n, d) * d - n) == d || 2 * (n - round_half_even(n, d) * d) == d
            ==> round_half_even(n, d) % 2 == 0,
{
    let q = n / d;
    let r = n % d;
    assert(n == q * d + r && 0 <= r < d) by (nonlinear_arith)
        requires
            d > 0,
            q == n / d,
            r == n % d,
    ;
    let t = round_half_even(n, d) as int;
    if t == q {
        assert(t * d - n == -r) by (nonlinear_arith)
            requires
                n == q * d + r,
                t == q,
        ;
    } else {
        assert(t * d - n == d - r) by (nonlinear_arith)
            requires
                n == q * d + r,
                t == q + 1,
        ;
    }
}

/// Rounding `n / d` and then adding an even whole number gives the same as
/// adding that many whole `d` to `n` first.
pub proof fn lemma_round_half_even_shift(whole: nat, rest: nat, d: nat)
    requires
        d > 0,
        whole % 2 == 0,
    ensures
        round_half_even(whole * d + rest, d) == whole + round_half_even(rest, d),
{
    let a = rest / d;
    let b = rest % d;
    assert(rest == a * d + b && 0 <= b < d) by (nonlinear_arith)
        requires
            d > 0,
            a == rest / d,
            b == rest % d,
    ;
    assert(whole * d + rest == (whole + a) * d + b) by (nonlinear_arith)
        requires
            rest == a * d + b,
    ;
    lemma_fundamental_div_mod_converse_div(
        (whole * d + rest) as int,
        d as int,
        (whole + a) as int,
        b as int,
    );
    lemma_fundamental_div_mod_converse_mod(
        (whole * d + rest) as int,
        d as int,
        (whole + a) as int,
        b as int,
    );
}

/// A quotient below `bound` rounds to at most `bound`.
pub proof fn lemma_round_half_even_bounded(n: nat, d: nat, bound: nat)
    requires
        d > 0,
        n < bound * d,
    ensures
        round_half_even(n, d) <= bound,
{
    assert(n / d < bound) by (nonlinear_arith)
        requires
            d > 0,
            n < bound * d,
    ;
}

/// Computes `ceil_div`.
pub fn ceiling_of_quotient(n: u128, d: u128) -> (k: u128)
    requires
        d > 0,
    ensures
        k == ceil_div(n as nat, d as nat),
{
    let q: u128 = n / d;
    let r: u128 = n % d;
    if r == 0 {
        q
    } else {
        assert(q < n) by (nonlinear_arith)
            requires
                q == n / d,
                r == n % d,
                r != 0,
                d > 0,
        ;
        q + 1
    }
}

/// Computes `round_half_even`.
pub fn nearest_to_quotient(n: u128, d: u128) -> (k: u128)
    requires
        d > 0,
    ensures
        k == round_half_even(n as nat, d as nat),
{
    let q: u128 = n / d;
    let r: u128 = n % d;
    let gap: u128 = d - r;
    if r < gap {
        q
    } else if r == gap && q % 2 == 0 {
        q
    } else {
        assert(q < n) by (nonlinear_arith)
            requires
                q == n / d,
                r == n % d,
                r != 0,
                d > 0,
        ;
        q + 1
    }
}

} // verus!
