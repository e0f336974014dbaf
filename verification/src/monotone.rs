//! The order of rounded values. Rounding never reverses the order of two
//! ratios, so a percentage grows with the count it is taken of and stays at
//! or below one hundred for a part of the whole.

use vstd::prelude::*;
use vstd::arithmetic::div_mod::{
    lemma_div_is_ordered, lemma_fundamental_div_mod, lemma_fundamental_div_mod_converse,
    lemma_mod_bound,
};
use vstd::arithmetic::power2::{pow2, lemma_pow2_pos, lemma_pow2_unfold, lemma2_to64};
use crate::rounding::{
    Dyadic, binade, doublings_below, doublings_to_reach, nearest53, quotient, ratio_percent,
    round_half_even, lemma_binade_brackets, lemma_doublings_below, lemma_nearest53_is_normal,
    lemma_percent_of_the_whole, lemma_pow2_bounded,
};

verus! {

/// Whether `x <= y`, for normal `x` and `y`: zero is the least, and among
/// the others the exponent decides before the significand.
pub open spec fn at_most(x: Dyadic, y: Dyadic) -> bool {
    x.mant == 0 || (y.mant > 0 && (x.exp < y.exp || (x.exp == y.exp && x.mant <= y.mant)))
}

/// The value one hundred.
pub open spec fn hundred() -> Dyadic {
    Dyadic { mant: 100 * pow2(46), exp: -46 }
}

/// Rounding to the nearest integer keeps the order of the dividends.
pub proof fn lemma_round_half_even_is_monotone(n: nat, m: nat, d: nat)
    requires
        n <= m,
        d > 0,
    ensures
        round_half_even(n, d) <= round_half_even(m, d),
{
    lemma_div_is_ordered(n as int, m as int, d as int);
    lemma_fundamental_div_mod(n as int, d as int);
    lemma_fundamental_div_mod(m as int, d as int);
    lemma_mod_bound(n as int, d as int);
    lemma_mod_bound(m as int, d as int);
}

/// Doubling dividend and divisor leaves the rounded quotient as it is.
pub proof fn lemma_round_half_even_cancels_two(n: nat, d: nat)
    requires
        d > 0,
    ensures
        round_half_even(2 * n, 2 * d) == round_half_even(n, d),
{
    let q = n / d;
    let r = n % d;
    lemma_fundamental_div_mod(n as int, d as int);
    lemma_mod_bound(n as int, d as int);
    assert(2 * n == q * (2 * d) + 2 * r) by (nonlinear_arith)
        requires
            n == d * q + r,
    ;
    lemma_fundamental_div_mod_converse((2 * n) as int, (2 * d) as int, q as int, (2 * r) as int);
}

/// A larger dividend has the same or a larger binary order of magnitude.
pub proof fn lemma_binade_is_monotone(n: nat, m: nat, d: nat)
    requires
        0 < n <= m,
        d > 0,
    ensures
        binade(n, d) <= binade(m, d),
{
    lemma_binade_brackets(n, d);
    lemma_binade_brackets(m, d);
    let f = binade(n, d);
    let g = binade(m, d);
    if f > g {
        if n >= d {
            let low = pow2(f as nat);
            let high = pow2((g + 1) as nat);
            lemma_pow2_bounded((g + 1) as nat, f as nat);
            assert(d * high <= d * low) by (nonlinear_arith)
                requires
                    high <= low,
            ;
        } else {
            let low = pow2((-f) as nat);
            let high = pow2((-g - 1) as nat);
            lemma_pow2_bounded((-f) as nat, (-g - 1) as nat);
            assert(n * low <= m * high) by (nonlinear_arith)
                requires
                    n <= m,
                    low <= high,
            ;
        }
    }
}

/// Doubling the dividend raises the binary order of magnitude by one.
pub proof fn lemma_binade_of_double(n: nat, d: nat)
    requires
        n > 0,
        d > 0,
    ensures
        binade(2 * n, d) == binade(n, d) + 1,
{
    lemma2_to64();
    if n >= d {
        lemma_binade_brackets(n, d);
        let k = doublings_below(n, d);
        lemma_pow2_unfold(k + 1);
        lemma_pow2_unfold(k + 2);
        assert(d * (2 * pow2(k)) == 2 * (d * pow2(k))) by (nonlinear_arith);
        assert(d * (2 * pow2(k + 1)) == 2 * (d * pow2(k + 1))) by (nonlinear_arith);
        lemma_doublings_below(2 * n, d, k + 1);
    } else if 2 * n >= d {
        reveal_with_fuel(doublings_to_reach, 2);
        assert(doublings_to_reach(n, d) == 1);
        assert(doublings_below(2 * n, d) == 0);
    } else {
        assert(doublings_to_reach(n, d) == 1 + doublings_to_reach(2 * n, d));
    }
}

/// Doubling the dividend doubles the rounded ratio exactly.
pub proof fn lemma_nearest53_of_double(n: nat, d: nat)
    requires
        d > 0,
    ensures
        nearest53(2 * n, d) == nearest53(n, d).scale(1),
{
    if n > 0 {
        lemma2_to64();
        lemma_binade_of_double(n, d);
        lemma_nearest53_is_normal(n, d);
        let e = binade(n, d) - 52;
        if e >= 0 {
            let scale = d * pow2(e as nat);
            lemma_pow2_unfold((e + 1) as nat);
            lemma_pow2_pos(e as nat);
            assert(d * (2 * pow2(e as nat)) == 2 * scale) by (nonlinear_arith)
                requires
                    scale == d * pow2(e as nat),
            ;
            assert(scale > 0) by (nonlinear_arith)
                requires
                    scale == d * pow2(e as nat),
                    d > 0,
                    pow2(e as nat) > 0,
            ;
            lemma_round_half_even_cancels_two(n, scale);
        } else if e == -1 {
            assert(n * 2 == 2 * n);
            assert(d * 1 == d);
        } else {
            let p = pow2((-e - 1) as nat);
            lemma_pow2_unfold((-e) as nat);
            assert(n * (2 * p) == (2 * n) * p) by (nonlinear_arith);
        }
    }
}

/// Rounding to 53 bits keeps the order of the dividends.
pub proof fn lemma_nearest53_is_monotone(n: nat, m: nat, d: nat)
    requires
        n <= m,
        d > 0,
    ensures
        at_most(nearest53(n, d), nearest53(m, d)),
{
    if n > 0 {
        lemma_binade_is_monotone(n, m, d);
        lemma_nearest53_is_normal(n, d);
        lemma_nearest53_is_normal(m, d);
        let e = binade(n, d) - 52;
        if binade(n, d) == binade(m, d) {
            if e >= 0 {
                let scale = d * pow2(e as nat);
                lemma_pow2_pos(e as nat);
                assert(scale > 0) by (nonlinear_arith)
                    requires
                        scale == d * pow2(e as nat),
                        d > 0,
                        pow2(e as nat) > 0,
                ;
                lemma_round_half_even_is_monotone(n, m, scale);
            } else {
                let p = pow2((-e) as nat);
                assert(n * p <= m * p) by (nonlinear_arith)
                    requires
                        n <= m,
                        p >= 0,
                ;
                lemma_round_half_even_is_monotone(n * p, m * p, d);
            }
        }
    }
}

/// For a fixed multiplier `c` and divisor `d`, the rounded value of
/// `c * x / d` keeps the order of normal `x`.
pub proof fn lemma_scaled_rounding_is_monotone(x: Dyadic, y: Dyadic, c: nat, d: nat, k: int)
    requires
        x.normal(),
        y.normal(),
        at_most(x, y),
        c > 0,
        d > 0,
    ensures
        at_most(
            nearest53(c * x.mant, d).scale(x.exp + k),
            nearest53(c * y.mant, d).scale(y.exp + k),
        ),
{
    if x.mant > 0 {
        let n = c * x.mant;
        let m = c * y.mant;
        assert(n > 0 && m > 0) by (nonlinear_arith)
            requires
                n == c * x.mant,
                m == c * y.mant,
                c > 0,
                x.mant > 0,
                y.mant > 0,
        ;
        lemma_nearest53_is_normal(n, d);
        lemma_nearest53_is_normal(m, d);
        if x.exp == y.exp {
            assert(n <= m) by (nonlinear_arith)
                requires
                    n == c * x.mant,
                    m == c * y.mant,
                    x.mant <= y.mant,
            ;
            lemma_nearest53_is_monotone(n, m, d);
        } else {
            lemma_pow2_unfold(53);
            assert(n <= 2 * m) by (nonlinear_arith)
                requires
                    n == c * x.mant,
                    m == c * y.mant,
                    x.mant <= 2 * y.mant,
            ;
            lemma_nearest53_is_monotone(n, 2 * m, d);
            lemma_nearest53_of_double(m, d);
        }
    } else {
        assert(c * x.mant == 0) by (nonlinear_arith)
            requires
                x.mant == 0,
        ;
    }
}

/// The percentage grows with the count it is taken of.
pub proof fn lemma_percent_is_monotone(a: nat, b: nat, whole: nat)
    requires
        a <= b,
        whole > 0,
    ensures
        at_most(ratio_percent(a, whole), ratio_percent(b, whole)),
{
    let x = nearest53(a, 1);
    let y = nearest53(b, 1);
    let w = nearest53(whole, 1);
    lemma_nearest53_is_monotone(a, b, 1);
    lemma_nearest53_is_normal(a, 1);
    lemma_nearest53_is_normal(b, 1);
    lemma_nearest53_is_normal(whole, 1);
    assert(1 * x.mant == x.mant && 1 * y.mant == y.mant);
    lemma_scaled_rounding_is_monotone(x, y, 1, w.mant, -w.exp);
    let p = quotient(x, w);
    let q = quotient(y, w);
    lemma_nearest53_is_normal(x.mant, w.mant);
    lemma_nearest53_is_normal(y.mant, w.mant);
    assert(100 * p.mant == p.mant * 100 && 100 * q.mant == q.mant * 100);
    lemma_scaled_rounding_is_monotone(p, q, 100, 1, 0);
}

/// A part of the whole is at most one hundred percent of it.
pub proof fn lemma_percent_of_a_part(part: nat, whole: nat)
    requires
        part <= whole,
        whole > 0,
    ensures
        at_most(ratio_percent(part, whole), hundred()),
{
    lemma_percent_is_monotone(part, whole, whole);
    lemma_percent_of_the_whole(whole);
}

} // verus!
