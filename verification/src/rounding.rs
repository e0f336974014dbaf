//! Rounding of ratios of natural numbers: to the nearest integer and to the
//! nearest binary floating-point value with a 53-bit significand, both with
//! ties going to the even neighbour.

use vstd::prelude::*;
use vstd::arithmetic::power2::{
    pow2, lemma_pow2_pos, lemma_pow2_unfold, lemma_pow2_adds, lemma2_to64, lemma2_to64_rest,
};

verus! {

/// `n / d` rounded to the nearest integer; a tie goes to the even neighbour.
pub open spec fn round_half_even(n: nat, d: nat) -> nat
    recommends
        d > 0,
{
    let q = n / d;
    let r = n % d;
    if 2 * r > d || (2 * r == d && q % 2 == 1) {
        q + 1
    } else {
        q
    }
}

/// The largest `k` with `d * 2^k <= n`, for `n >= d > 0`.
pub open spec fn doublings_below(n: nat, d: nat) -> nat
    recommends
        d > 0,
        n >= d,
    decreases n - d,
{
    if d > 0 && n >= 2 * d {
        1 + doublings_below(n, 2 * d)
    } else {
        0
    }
}

/// The smallest `k` with `n * 2^k >= d`, for `n > 0`.
pub open spec fn doublings_to_reach(n: nat, d: nat) -> nat
    recommends
        n > 0,
    decreases
        (if d > n {
            d - n
        } else {
            0
        }),
{
    if n > 0 && n < d {
        1 + doublings_to_reach(2 * n, d)
    } else {
        0
    }
}

/// The binary order of magnitude of `n / d`: the integer `f` with
/// `2^f <= n / d < 2^(f + 1)`, for positive `n` and `d`.
pub open spec fn binade(n: nat, d: nat) -> int
    recommends
        n > 0,
        d > 0,
{
    if n >= d {
        doublings_below(n, d) as int
    } else {
        -(doublings_to_reach(n, d) as int)
    }
}

/// A non-negative number `mant * 2^exp`.
pub struct Dyadic {
    pub mant: nat,
    pub exp: int,
}

impl Dyadic {
    /// The number zero.
    pub open spec fn zero() -> Dyadic {
        Dyadic { mant: 0, exp: 0 }
    }

    /// Zero, or a 53-bit significand with its leading bit set.
    pub open spec fn normal(self) -> bool {
        if self.mant == 0 {
            self.exp == 0
        } else {
            pow2(52) <= self.mant < pow2(53)
        }
    }

    /// This number times `2^k`.
    pub open spec fn scale(self, k: int) -> Dyadic {
        if self.mant == 0 {
            self
        } else {
            Dyadic { mant: self.mant, exp: self.exp + k }
        }
    }
}

/// `n / d` rounded to the nearest number with a 53-bit significand, ties to
/// the even significand.
pub open spec fn nearest53(n: nat, d: nat) -> Dyadic
    recommends
        d > 0,
{
    if n == 0 {
        Dyadic::zero()
    } else {
        let e = binade(n, d) - 52;
        let m = if e >= 0 {
            round_half_even(n, d * pow2(e as nat))
        } else {
            round_half_even(n * pow2((-e) as nat), d)
        };
        if m == pow2(53) {
            Dyadic { mant: pow2(52), exp: e + 1 }
        } else {
            Dyadic { mant: m, exp: e }
        }
    }
}

/// `x / y` rounded to 53 bits, for normal `x` and non-zero normal `y`.
pub open spec fn quotient(x: Dyadic, y: Dyadic) -> Dyadic
    recommends
        y.mant > 0,
{
    nearest53(x.mant, y.mant).scale(x.exp - y.exp)
}

/// `x * 100` rounded to 53 bits.
pub open spec fn times_hundred(x: Dyadic) -> Dyadic {
    nearest53(x.mant * 100, 1).scale(x.exp)
}

/// The percentage `a / b * 100` as double-precision arithmetic yields it: both
/// counts, their quotient and the product are each rounded to 53 bits.
pub open spec fn ratio_percent(a: nat, b: nat) -> Dyadic
    recommends
        b > 0,
{
    times_hundred(quotient(nearest53(a, 1), nearest53(b, 1)))
}

/// `x` times `10^places`, rounded to the nearest integer, ties to even.
pub open spec fn scaled_round(x: Dyadic, places: nat) -> nat {
    if x.exp >= 0 {
        x.mant * pow10(places) * pow2(x.exp as nat)
    } else {
        round_half_even(x.mant * pow10(places), pow2((-x.exp) as nat))
    }
}

/// Ten to the power `p`.
pub open spec fn pow10(p: nat) -> nat
    decreases p,
{
    if p == 0 {
        1
    } else {
        10 * pow10((p - 1) as nat)
    }
}

/// `doublings_below(n, d)` is the `k` that brackets `n` between `d * 2^k`
/// and `d * 2^(k + 1)`.
pub proof fn lemma_doublings_below(n: nat, d: nat, k: nat)
    requires
        d > 0,
        d * pow2(k) <= n < d * pow2(k + 1),
    ensures
        doublings_below(n, d) == k,
    decreases k,
{
    lemma_pow2_unfold(k + 1);
    if k == 0 {
        assert(pow2(0) == 1) by {
            lemma2_to64();
        }
        assert(pow2(1) == 2) by {
            lemma2_to64();
        }
        assert(d * 1 == d);
        assert(d * 2 == 2 * d);
    } else {
        lemma_pow2_unfold(k);
        lemma_pow2_pos((k - 1) as nat);
        let p = pow2((k - 1) as nat);
        assert(d * (2 * p) == (2 * d) * p) by (nonlinear_arith);
        assert(d * (2 * p) >= 2 * d) by (nonlinear_arith)
            requires
                p >= 1,
                d > 0,
        ;
        assert(d * (2 * (2 * p)) == (2 * d) * (2 * p)) by (nonlinear_arith);
        assert(pow2(k + 1) == 2 * (2 * p));
        lemma_doublings_below(n, 2 * d, (k - 1) as nat);
    }
}

/// Quotient bounds from bounds on the dividend.
pub proof fn lemma_div_between(n: nat, d: nat, lo: nat, hi: nat)
    requires
        d > 0,
        lo * d <= n < hi * d,
    ensures
        lo <= n / d < hi,
{
    vstd::arithmetic::div_mod::lemma_fundamental_div_mod(n as int, d as int);
    vstd::arithmetic::div_mod::lemma_mod_bound(n as int, d as int);
    let q = n / d;
    let r = n % d;
    assert(n == d * q + r);
    if q < lo {
        assert(d * q + d <= lo * d) by (nonlinear_arith)
            requires
                q + 1 <= lo,
                d > 0,
        ;
    }
    if q >= hi {
        assert(d * q >= hi * d) by (nonlinear_arith)
            requires
                q >= hi,
                d > 0,
        ;
    }
}

/// For `n >= d`, `n` lies between `d * 2^k` and `d * 2^(k + 1)`, where `k`
/// is `doublings_below(n, d)`.
pub proof fn lemma_doublings_below_brackets(n: nat, d: nat)
    requires
        d > 0,
        n >= d,
    ensures
        d * pow2(doublings_below(n, d)) <= n < d * pow2(doublings_below(n, d) + 1),
    decreases n - d,
{
    lemma2_to64();
    if n >= 2 * d {
        let k = doublings_below(n, 2 * d);
        lemma_doublings_below_brackets(n, 2 * d);
        lemma_pow2_unfold(k + 1);
        lemma_pow2_unfold(k + 2);
        assert((2 * d) * pow2(k) == d * (2 * pow2(k))) by (nonlinear_arith);
        assert((2 * d) * pow2(k + 1) == d * (2 * pow2(k + 1))) by (nonlinear_arith);
    } else {
        assert(d * 1 == d);
        assert(d * 2 == 2 * d);
    }
}

/// For `0 < n < d`, `d` lies above `n * 2^(k - 1)` and at or below `n * 2^k`,
/// where `k >= 1` is `doublings_to_reach(n, d)`.
pub proof fn lemma_doublings_to_reach_brackets(n: nat, d: nat)
    requires
        0 < n < d,
    ensures
        doublings_to_reach(n, d) >= 1,
        n * pow2((doublings_to_reach(n, d) - 1) as nat) < d <= n * pow2(doublings_to_reach(n, d)),
    decreases d - n,
{
    lemma2_to64();
    if 2 * n >= d {
        reveal_with_fuel(doublings_to_reach, 2);
        assert(n * 1 == n);
        assert(n * 2 == 2 * n);
    } else {
        let k = doublings_to_reach(2 * n, d);
        lemma_doublings_to_reach_brackets(2 * n, d);
        lemma_pow2_unfold(k);
        lemma_pow2_unfold(k + 1);
        assert((2 * n) * pow2((k - 1) as nat) == n * (2 * pow2((k - 1) as nat)))
            by (nonlinear_arith);
        assert((2 * n) * pow2(k) == n * (2 * pow2(k))) by (nonlinear_arith);
    }
}

/// The significand of `nearest53(n, d)` before a carry: the scaled ratio
/// lies between `2^52` and `2^53`.
proof fn lemma_scaled_ratio_is_in_range(n: nat, d: nat)
    requires
        n > 0,
        d > 0,
    ensures
        binade(n, d) >= 52 ==> pow2(52) * (d * pow2((binade(n, d) - 52) as nat)) <= n < pow2(53) * (
        d * pow2((binade(n, d) - 52) as nat)),
        binade(n, d) < 52 ==> pow2(52) * d <= n * pow2((52 - binade(n, d)) as nat) < pow2(53)
            * d,
{
    let f = binade(n, d);
    if n >= d {
        lemma_doublings_below_brackets(n, d);
        if f >= 52 {
            let e = (f - 52) as nat;
            let pe = pow2(e);
            lemma_pow2_adds(52, e);
            lemma_pow2_adds(53, e);
            assert(pow2(52) * (d * pe) == d * (pow2(52) * pe)) by (nonlinear_arith);
            assert(pow2(53) * (d * pe) == d * (pow2(53) * pe)) by (nonlinear_arith);
        } else {
            let s = (52 - f) as nat;
            let ps = pow2(s);
            let lo = pow2(f as nat);
            let hi = pow2((f + 1) as nat);
            lemma_pow2_pos(s);
            lemma_pow2_adds(f as nat, s);
            lemma_pow2_adds((f + 1) as nat, s);
            assert(n * ps >= (d * lo) * ps) by (nonlinear_arith)
                requires
                    n >= d * lo,
                    ps > 0,
            ;
            assert(n * ps < (d * hi) * ps) by (nonlinear_arith)
                requires
                    n < d * hi,
                    ps > 0,
            ;
            assert((d * lo) * ps == (lo * ps) * d) by (nonlinear_arith);
            assert((d * hi) * ps == (hi * ps) * d) by (nonlinear_arith);
        }
    } else {
        lemma_doublings_to_reach_brackets(n, d);
        let k = doublings_to_reach(n, d);
        let lo = pow2((k - 1) as nat);
        let hi = pow2(k);
        lemma_pow2_adds(k, 52);
        lemma_pow2_adds((k - 1) as nat, 53);
        lemma_pow2_pos(52);
        lemma_pow2_pos(53);
        assert(n * (hi * pow2(52)) >= pow2(52) * d) by (nonlinear_arith)
            requires
                n * hi >= d,
                pow2(52) > 0,
        ;
        assert(n * (lo * pow2(53)) < pow2(53) * d) by (nonlinear_arith)
            requires
                n * lo < d,
                pow2(53) > 0,
        ;
    }
}

/// The binary order of magnitude brackets the ratio: with `f = binade(n, d)`,
/// `2^f <= n / d < 2^(f + 1)`, stated without fractions.
pub proof fn lemma_binade_brackets(n: nat, d: nat)
    requires
        n > 0,
        d > 0,
    ensures
        n >= d ==> binade(n, d) >= 0 && d * pow2(binade(n, d) as nat) <= n < d * pow2(
            (binade(n, d) + 1) as nat,
        ),
        n < d ==> binade(n, d) < 0 && n * pow2((-binade(n, d) - 1) as nat) < d <= n * pow2(
            (-binade(n, d)) as nat,
        ),
{
    if n >= d {
        lemma_doublings_below_brackets(n, d);
    } else {
        lemma_doublings_to_reach_brackets(n, d);
    }
}

/// Rounding to 53 bits gives zero or a significand with its leading bit set.
pub proof fn lemma_nearest53_is_normal(n: nat, d: nat)
    requires
        d > 0,
    ensures
        nearest53(n, d).normal(),
        n > 0 ==> nearest53(n, d).mant > 0,
{
    if n > 0 {
        let f = binade(n, d);
        lemma_scaled_ratio_is_in_range(n, d);
        lemma_pow2_pos(52);
        lemma_pow2_unfold(53);
        if f >= 52 {
            let scale = d * pow2((f - 52) as nat);
            lemma_pow2_pos((f - 52) as nat);
            assert(scale > 0) by (nonlinear_arith)
                requires
                    scale == d * pow2((f - 52) as nat),
                    d > 0,
                    pow2((f - 52) as nat) > 0,
            ;
            lemma_div_between(n, scale, pow2(52), pow2(53));
            lemma_round_half_even_near(n, scale);
        } else {
            let scaled = n * pow2((52 - f) as nat);
            lemma_div_between(scaled, d, pow2(52), pow2(53));
            lemma_round_half_even_near(scaled, d);
        }
    }
}

/// Nothing out of something is zero percent.
pub proof fn lemma_percent_of_nothing(b: nat)
    requires
        b > 0,
    ensures
        ratio_percent(0, b) == Dyadic::zero(),
{
}

/// A count is exactly one hundred percent of itself: no rounding error
/// remains in the result.
pub proof fn lemma_percent_of_the_whole(a: nat)
    requires
        a > 0,
    ensures
        ratio_percent(a, a) == (Dyadic { mant: 100 * pow2(46), exp: -46 }),
{
    let x = nearest53(a, 1);
    lemma_nearest53_is_normal(a, 1);
    let mx = x.mant;
    assert(mx > 0);
    lemma2_to64();
    lemma2_to64_rest();
    // The quotient of the rounded count by itself is one.
    assert(doublings_below(mx, mx) == 0);
    let one = nearest53(mx, mx);
    assert(one == (Dyadic { mant: pow2(52), exp: -52 })) by {
        let scaled = mx * pow2(52);
        assert(pow2(52) * mx <= scaled < (pow2(52) + 1) * mx) by (nonlinear_arith)
            requires
                scaled == mx * pow2(52),
                mx > 0,
        ;
        lemma_div_between(scaled, mx, pow2(52), pow2(52) + 1);
        vstd::arithmetic::div_mod::lemma_mod_multiples_basic(pow2(52) as int, mx as int);
        assert(scaled == pow2(52) * mx) by (nonlinear_arith)
            requires
                scaled == mx * pow2(52),
        ;
        assert(scaled % mx == 0);
    }
    assert(quotient(x, x) == one);
    // One times a hundred is a hundred.
    let hundred = one.mant * 100;
    assert(1 * pow2(58) <= hundred < 1 * pow2(59));
    lemma_doublings_below(hundred, 1, 58);
    assert(1 * pow2(6) == 64);
    assert(hundred / 64 == 100 * pow2(46));
    assert(hundred % 64 == 0);
}

/// Rounding to the nearest integer never strays more than half a unit.
pub proof fn lemma_round_half_even_near(n: nat, d: nat)
    requires
        d > 0,
    ensures
        2 * n <= (2 * round_half_even(n, d) + 1) * d,
        (2 * round_half_even(n, d)) * d <= 2 * n + d,
        n / d <= round_half_even(n, d) <= n / d + 1,
        n % d == 0 ==> round_half_even(n, d) == n / d,
{
    let q = n / d;
    let r = n % d;
    assert(n == d * q + r) by {
        vstd::arithmetic::div_mod::lemma_fundamental_div_mod(n as int, d as int);
    }
    assert(0 <= r < d) by {
        vstd::arithmetic::div_mod::lemma_mod_bound(n as int, d as int);
    }
    assert((2 * q + 1) * d == 2 * (d * q) + d) by (nonlinear_arith);
    assert((2 * (q + 1) + 1) * d == 2 * (d * q) + 3 * d) by (nonlinear_arith);
    assert((2 * q) * d == 2 * (d * q)) by (nonlinear_arith);
    assert((2 * (q + 1)) * d == 2 * (d * q) + 2 * d) by (nonlinear_arith);
}

/// `n / d` rounded to the nearest integer, ties to even.
pub fn div_round_half_even(n: u128, d: u128) -> (q: u128)
    requires
        d > 0,
        n / d < u128::MAX,
    ensures
        q == round_half_even(n as nat, d as nat),
{
    let q: u128 = n / d;
    let r: u128 = n % d;
    let rest: u128 = d - r;
    if r > rest || (r == rest && q % 2 == 1) {
        q + 1
    } else {
        q
    }
}

/// `2^k` as a machine integer.
pub fn pow2_u128(k: u32) -> (p: u128)
    requires
        k <= 126,
    ensures
        p == pow2(k as nat),
        p >= 1,
{
    let mut p: u128 = 1;
    let mut i: u32 = 0;
    proof {
        lemma2_to64();
        lemma_pow2_126();
    }
    while i < k
        invariant
            i <= k <= 126,
            p == pow2(i as nat),
            p >= 1,
            p <= pow2(126),
        decreases k - i,
    {
        proof {
            lemma_pow2_unfold((i + 1) as nat);
            lemma_pow2_bounded((i + 1) as nat, 126);
            lemma_pow2_126();
        }
        p = p * 2;
        i = i + 1;
    }
    p
}

/// Powers of two grow with the exponent.
pub proof fn lemma_pow2_bounded(a: nat, b: nat)
    requires
        a <= b,
    ensures
        pow2(a) <= pow2(b),
{
    if a < b {
        vstd::arithmetic::power2::lemma_pow2_strictly_increases(a, b);
    }
}

/// The value of `2^126`, the largest power kept in a machine integer here.
pub proof fn lemma_pow2_126()
    ensures
        pow2(126) == 0x4000_0000_0000_0000_0000_0000_0000_0000,
{
    lemma2_to64();
    lemma2_to64_rest();
    vstd::arithmetic::power2::lemma_pow2_adds(63, 63);
}

/// `10^p` as a machine integer.
pub fn pow10_u64(p: usize) -> (r: u64)
    requires
        p <= 9,
    ensures
        r == pow10(p as nat),
        1 <= r <= 1_000_000_000,
{
    let mut r: u64 = 1;
    let mut i: usize = 0;
    proof {
        lemma_pow10_values();
    }
    while i < p
        invariant
            i <= p <= 9,
            r == pow10(i as nat),
            1 <= r,
            r <= pow10(9),
            pow10(9) == 1_000_000_000,
        decreases p - i,
    {
        proof {
            lemma_pow10_bounded((i + 1) as nat, 9);
        }
        r = r * 10;
        i = i + 1;
    }
    r
}

/// The powers of ten up to the ninth.
pub proof fn lemma_pow10_values()
    ensures
        pow10(0) == 1,
        pow10(1) == 10,
        pow10(2) == 100,
        pow10(3) == 1_000,
        pow10(4) == 10_000,
        pow10(5) == 100_000,
        pow10(6) == 1_000_000,
        pow10(7) == 10_000_000,
        pow10(8) == 100_000_000,
        pow10(9) == 1_000_000_000,
{
    reveal_with_fuel(pow10, 11);
}

/// Powers of ten grow with the exponent.
pub proof fn lemma_pow10_bounded(a: nat, b: nat)
    requires
        a <= b,
    ensures
        1 <= pow10(a) <= pow10(b),
    decreases b,
{
    if a < b {
        lemma_pow10_bounded(a, (b - 1) as nat);
    } else if a > 0 {
        lemma_pow10_bounded((a - 1) as nat, (a - 1) as nat);
    }
}

} // verus!
