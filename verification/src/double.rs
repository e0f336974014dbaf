//! Double-precision values as the dashboard computes them: percentages of
//! 64-bit counters and scaled byte counts, held as significand and exponent
//! so that every result is exact integer arithmetic.

use vstd::prelude::*;
use vstd::arithmetic::power2::{
    pow2, lemma_pow2_pos, lemma_pow2_unfold, lemma_pow2_adds, lemma2_to64, lemma2_to64_rest,
};
use crate::rounding::{
    Dyadic, nearest53, ratio_percent, binade, doublings_below, doublings_to_reach,
    lemma_doublings_below, lemma_round_half_even_near, lemma_div_between, lemma_pow2_bounded,
    lemma_pow2_126, div_round_half_even, pow2_u128, pow10_u64, pow10, scaled_round,
};
use crate::text::{decimal_text, padded_text, push_decimal, push_padded};

verus! {

/// `2^52`, the smallest normal significand.
pub const TWO_52: u64 = 0x10_0000_0000_0000;

/// `2^53`, one more than the largest significand.
pub const TWO_53: u64 = 0x20_0000_0000_0000;

/// The smallest exponent a [`Double`] holds.
pub const MIN_EXP: i32 = -120;

/// The largest exponent a [`Double`] holds.
pub const MAX_EXP: i32 = 32;

/// Whether `x` is a value that a [`Double`] can hold.
pub open spec fn representable(x: Dyadic) -> bool {
    &&& x.normal()
    &&& x.mant > 0 ==> MIN_EXP <= x.exp <= MAX_EXP
}

/// The IEEE 754 binary64 bit pattern of a representable value.
pub open spec fn encoding(x: Dyadic) -> nat {
    if x.mant == 0 {
        0
    } else {
        ((x.exp + 1075) * pow2(52) + (x.mant - pow2(52))) as nat
    }
}

/// `x` in decimal with exactly `places` digits after the point, rounded to
/// nearest with ties to even.
pub open spec fn fixed_text(x: Dyadic, places: nat) -> Seq<char> {
    let scaled = scaled_round(x, places);
    decimal_text(scaled / pow10(places)) + seq!['.'] + padded_text(scaled % pow10(places), places)
}

/// A finite, non-negative double-precision value of moderate magnitude.
#[derive(Debug, Clone, Copy, PartialEq, Eq)]
pub struct Double {
    mant: u64,
    exp: i32,
}

impl View for Double {
    type V = Dyadic;

    closed spec fn view(&self) -> Dyadic {
        Dyadic { mant: self.mant as nat, exp: self.exp as int }
    }
}

/// The value that a significand and exponent pair stands for.
spec fn pair_value(r: (u64, i32)) -> Dyadic {
    Dyadic { mant: r.0 as nat, exp: r.1 as int }
}

/// The count `n` rounded to 53 bits, as significand and exponent.
fn round_count(n: u64) -> (r: (u64, i32))
    ensures
        pair_value(r) == nearest53(n as nat, 1),
        nearest53(n as nat, 1).normal(),
        -52 <= r.1 <= 12,
        n == 0 <==> r.0 == 0,
{
    proof {
        lemma2_to64();
        lemma2_to64_rest();
    }
    if n == 0 {
        return (0, 0);
    }
    if n < TWO_53 {
        let mut m: u64 = n;
        let mut j: i32 = 0;
        assert(n * pow2(0) == n) by (nonlinear_arith)
            requires
                pow2(0) == 1,
        ;
        while m < TWO_52
            invariant
                0 < m < TWO_53,
                0 <= j <= 52,
                m == n * pow2(j as nat),
                m >= pow2(j as nat),
                pow2(0) == 1,
                pow2(53) == TWO_53,
            decreases TWO_53 - m,
        {
            proof {
                let p = pow2(j as nat);
                lemma_pow2_unfold((j + 1) as nat);
                assert(n * (2 * p) == 2 * (n * p)) by (nonlinear_arith);
                if j >= 52 {
                    lemma_pow2_bounded(52, j as nat);
                }
            }
            m = m * 2;
            j = j + 1;
        }
        proof {
            let p = pow2(j as nat);
            let lo = pow2((52 - j) as nat);
            let hi = pow2((53 - j) as nat);
            lemma_pow2_pos(j as nat);
            lemma_pow2_adds((52 - j) as nat, j as nat);
            lemma_pow2_adds((53 - j) as nat, j as nat);
            assert(n >= lo) by (nonlinear_arith)
                requires
                    n * p >= lo * p,
                    p > 0,
            ;
            assert(n < hi) by (nonlinear_arith)
                requires
                    n * p < hi * p,
                    p > 0,
            ;
            assert(1 * lo == lo && 1 * hi == hi);
            lemma_doublings_below(n as nat, 1, (52 - j) as nat);
            assert(binade(n as nat, 1) == 52 - j);
            lemma_round_half_even_near(n as nat, 1);
            lemma_round_half_even_near(m as nat, 1);
            assert(n as nat % 1 == 0);
            assert(m as nat % 1 == 0);
            assert(1 * pow2(0) == 1);
        }
        (m, -j)
    } else {
        let mut d: u64 = 2;
        let mut s: i32 = 1;
        while n as u128 >= (TWO_53 as u128) * (d as u128)
            invariant
                1 <= s <= 11,
                d == pow2(s as nat),
                n as u128 >= (TWO_52 as u128) * (d as u128),
                d <= 2048,
                pow2(11) == 2048,
            decreases 11 - s,
        {
            proof {
                lemma_pow2_unfold((s + 1) as nat);
                if s < 11 {
                    lemma_pow2_bounded((s + 1) as nat, 11);
                }
                assert(TWO_52 * (2 * d) == TWO_53 * d) by (nonlinear_arith)
                    requires
                        TWO_53 == 2 * TWO_52,
                ;
            }
            d = d * 2;
            s = s + 1;
        }
        let m: u128 = div_round_half_even(n as u128, d as u128);
        proof {
            lemma_pow2_adds(52, s as nat);
            lemma_pow2_adds(53, s as nat);
            assert(1 * pow2((52 + s) as nat) == pow2((52 + s) as nat));
            assert(1 * pow2((53 + s) as nat) == pow2((53 + s) as nat));
            lemma_doublings_below(n as nat, 1, (52 + s) as nat);
            assert(binade(n as nat, 1) == 52 + s);
            lemma_div_between(n as nat, d as nat, TWO_52 as nat, TWO_53 as nat);
            lemma_round_half_even_near(n as nat, d as nat);
            assert(1 * pow2(s as nat) == d);
        }
        if m == TWO_53 as u128 {
            (TWO_52, s + 1)
        } else {
            (m as u64, s)
        }
    }
}

/// The ratio of two normal significands rounded to 53 bits.
fn round_quotient(mx: u64, my: u64) -> (r: (u64, i32))
    requires
        TWO_52 <= mx < TWO_53,
        TWO_52 <= my < TWO_53,
    ensures
        pair_value(r) == nearest53(mx as nat, my as nat),
        TWO_52 <= r.0 < TWO_53,
        -53 <= r.1 <= -51,
{
    proof {
        lemma2_to64();
        lemma2_to64_rest();
    }
    let shift: i32 = if mx >= my {
        52
    } else {
        53
    };
    let factor: u128 = if mx >= my {
        TWO_52 as u128
    } else {
        TWO_53 as u128
    };
    assert(mx * factor <= TWO_53 * TWO_53) by (nonlinear_arith)
        requires
            mx <= TWO_53,
            factor <= TWO_53,
    ;
    let n: u128 = (mx as u128) * factor;
    proof {
        if mx >= my {
            assert(doublings_below(mx as nat, my as nat) == 0);
            assert(n == mx * TWO_52);
        } else {
            reveal_with_fuel(doublings_to_reach, 2);
            assert(doublings_to_reach(mx as nat, my as nat) == 1);
            assert(n == mx * TWO_53);
        }
        assert(binade(mx as nat, my as nat) - 52 == -shift);
        assert(factor == pow2(shift as nat));
        lemma_div_between(n as nat, my as nat, TWO_52 as nat, TWO_53 as nat);
        lemma_round_half_even_near(n as nat, my as nat);
    }
    let m: u128 = div_round_half_even(n, my as u128);
    if m == TWO_53 as u128 {
        (TWO_52, 1 - shift)
    } else {
        (m as u64, -shift)
    }
}

/// A normal significand times one hundred, rounded to 53 bits.
fn round_times_hundred(mx: u64) -> (r: (u64, i32))
    requires
        TWO_52 <= mx < TWO_53,
    ensures
        pair_value(r) == nearest53(mx as nat * 100, 1),
        TWO_52 <= r.0 < TWO_53,
        6 <= r.1 <= 8,
{
    proof {
        lemma2_to64();
        lemma2_to64_rest();
    }
    let n: u64 = mx * 100;
    let s: i32 = if n < 0x800_0000_0000_0000 {
        6
    } else {
        7
    };
    let d: u64 = if n < 0x800_0000_0000_0000 {
        64
    } else {
        128
    };
    proof {
        assert(d == pow2(s as nat));
        lemma_pow2_adds(52, s as nat);
        lemma_pow2_adds(53, s as nat);
        assert(1 * pow2((52 + s) as nat) == pow2((52 + s) as nat));
        assert(1 * pow2((53 + s) as nat) == pow2((53 + s) as nat));
        lemma_doublings_below(n as nat, 1, (52 + s) as nat);
        assert(binade(n as nat, 1) == 52 + s);
        lemma_div_between(n as nat, d as nat, TWO_52 as nat, TWO_53 as nat);
        lemma_round_half_even_near(n as nat, d as nat);
        assert(1 * pow2(s as nat) == d);
    }
    let m: u128 = div_round_half_even(n as u128, d as u128);
    if m == TWO_53 as u128 {
        (TWO_52, s + 1)
    } else {
        (m as u64, s)
    }
}

impl Double {
    #[verifier::type_invariant]
    spec fn well_formed(self) -> bool {
        if self.mant == 0 {
            self.exp == 0
        } else {
            TWO_52 <= self.mant < TWO_53 && MIN_EXP <= self.exp <= MAX_EXP
        }
    }

    /// The value zero.
    pub fn zero() -> (r: Double)
        ensures
            r@ == Dyadic::zero(),
            representable(r@),
    {
        Double { mant: 0, exp: 0 }
    }

    /// The count `n` as a double-precision value.
    pub fn from_count(n: u64) -> (r: Double)
        ensures
            r@ == nearest53(n as nat, 1),
            representable(r@),
            -52 <= r@.exp <= 12,
            n == 0 <==> r@.mant == 0,
    {
        let (m, e) = round_count(n);
        proof {
            lemma2_to64_rest();
        }
        Double { mant: m, exp: e }
    }

    /// `a / b * 100` in double-precision arithmetic.
    pub fn percent_of(a: u64, b: u64) -> (r: Double)
        requires
            b > 0,
        ensures
            r@ == ratio_percent(a as nat, b as nat),
            representable(r@),
    {
        let (ma, ea) = round_count(a);
        let (mb, eb) = round_count(b);
        proof {
            lemma2_to64_rest();
        }
        if ma == 0 {
            return Double::zero();
        }
        let (mq, eq) = round_quotient(ma, mb);
        let (mp, ep) = round_times_hundred(mq);
        Double { mant: mp, exp: ep + eq + ea - eb }
    }

    /// This value divided by `2^bits`.
    pub fn shifted_down(&self, bits: u32) -> (r: Double)
        requires
            bits <= 64,
            self@.exp - bits >= MIN_EXP,
        ensures
            r@ == self@.scale(-(bits as int)),
    {
        proof {
            use_type_invariant(self);
        }
        if self.mant == 0 {
            Double::zero()
        } else {
            Double { mant: self.mant, exp: self.exp - bits as i32 }
        }
    }

    /// The IEEE 754 binary64 bit pattern of this value.
    pub fn to_bits(&self) -> (bits: u64)
        ensures
            bits == encoding(self@),
    {
        proof {
            use_type_invariant(self);
            lemma2_to64_rest();
        }
        if self.mant == 0 {
            0
        } else {
            let biased: u64 = (self.exp + 1075) as u64;
            biased * TWO_52 + (self.mant - TWO_52)
        }
    }

    /// Appends this value in decimal with `places` digits after the point.
    pub fn push_fixed(&self, out: &mut String, places: usize)
        requires
            1 <= places <= 9,
        ensures
            final(out)@ == old(out)@ + fixed_text(self@, places as nat),
    {
        proof {
            use_type_invariant(self);
            lemma2_to64();
            lemma2_to64_rest();
            lemma_pow2_126();
        }
        let unit: u64 = pow10_u64(places);
        assert(self.mant * unit <= TWO_53 * 1_000_000_000) by (nonlinear_arith)
            requires
                self.mant <= TWO_53,
                unit <= 1_000_000_000,
        ;
        let scaled_mant: u128 = (self.mant as u128) * (unit as u128);
        let scaled: u128 = if self.exp >= 0 {
            let p: u128 = pow2_u128(self.exp as u32);
            proof {
                lemma_pow2_bounded(self.exp as nat, 32);
                assert(scaled_mant * p <= 0x2000_0000_0000_0000_0000_0000 * 0x1_0000_0000)
                    by (nonlinear_arith)
                    requires
                        scaled_mant <= 0x2000_0000_0000_0000_0000_0000,
                        p <= 0x1_0000_0000,
                ;
            }
            scaled_mant * p
        } else {
            let p: u128 = pow2_u128((-self.exp) as u32);
            proof {
                lemma_round_half_even_near(scaled_mant as nat, p as nat);
                assert(0 * p <= scaled_mant < 0x2000_0000_0000_0000_0000_0001 * p)
                    by (nonlinear_arith)
                    requires
                        p >= 1,
                        0 <= scaled_mant < 0x2000_0000_0000_0000_0000_0001,
                ;
                lemma_div_between(scaled_mant as nat, p as nat, 0, 0x2000_0000_0000_0000_0000_0001);
            }
            div_round_half_even(scaled_mant, p)
        };
        let ghost before = out@;
        push_decimal(out, scaled / (unit as u128));
        out.push('.');
        push_padded(out, scaled % (unit as u128), places);
        proof {
            let whole = decimal_text((scaled / (unit as u128)) as nat);
            let frac = padded_text((scaled % (unit as u128)) as nat, places as nat);
            assert(out@ == before + (whole + seq!['.'] + frac));
        }
    }
}

} // verus!
