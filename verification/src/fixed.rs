//! Fixed-point scaling primitives shared by the oscillator, the envelope
//! and the synthesizer.

use vstd::prelude::*;
use vstd::arithmetic::div_mod::{lemma_div_is_ordered, lemma_div_multiples_vanish};
use vstd::arithmetic::mul::lemma_mul_inequality;
use vstd::arithmetic::power2::{lemma2_to64, lemma2_to64_rest, lemma_pow2_strictly_increases, lemma_pow2_unfold, pow2};
use crate::AMP_ONE;
use crate::MOD_INDEX_MAX;

verus! {

/// `x * y / d`, rounded toward zero: the sign-preserving scaling used for
/// every amplitude or deviation product in the engine.
pub open spec fn spec_muldiv(x: int, y: int, d: int) -> int
    recommends
        d > 0,
{
    if x * y >= 0 {
        (x * y) / d
    } else {
        -((-(x * y)) / d)
    }
}

/// Quotient of non-negative `a` by positive `b`, rounded up.
pub open spec fn div_ceil(a: int, b: int) -> int
    recommends
        a >= 0,
        b > 0,
{
    (a + b - 1) / b
}

/// `n` steps of the rounded-up rate cover the whole span: crossing
/// `div_ceil(a, b)` per step, `b` steps reach at least `a`.
pub proof fn lemma_div_ceil_covers(a: int, b: int)
    requires
        0 <= a,
        0 < b,
    ensures
        b * div_ceil(a, b) >= a,
{
    let x = a + b - 1;
    vstd::arithmetic::div_mod::lemma_fundamental_div_mod(x, b);
    vstd::arithmetic::div_mod::lemma_mod_division_less_than_divisor(x, b);
}

/// A scaled product by a factor no larger than the divisor keeps the
/// other factor's magnitude, and it keeps signs.
pub proof fn lemma_muldiv_bound(x: int, y: int, d: int)
    requires
        0 < d,
        -d <= x <= d,
        0 <= y,
    ensures
        -y <= spec_muldiv(x, y, d) <= y,
        0 <= x ==> 0 <= spec_muldiv(x, y, d),
{
    let p = x * y;
    assert(-(d * y) <= p && p <= d * y && (0 <= x ==> p >= 0)) by (nonlinear_arith)
        requires
            -d <= x <= d,
            0 <= y,
            p == x * y,
    ;
    lemma_div_multiples_vanish(y, d);
    if p >= 0 {
        lemma_div_is_ordered(0, p, d);
        lemma_div_is_ordered(p, d * y, d);
    } else {
        lemma_div_is_ordered(0, -p, d);
        lemma_div_is_ordered(-p, d * y, d);
    }
}

/// A scaled product with a zero factor is zero.
pub proof fn lemma_muldiv_zero(x: int, d: int)
    requires
        0 < d,
    ensures
        spec_muldiv(x, 0, d) == 0,
        spec_muldiv(0, x, d) == 0,
{
    assert(x * 0 == 0 && 0 * x == 0) by (nonlinear_arith);
    lemma_div_multiples_vanish(0, d);
}

/// Multiplies and rescales without overflow: `x * y / d` rounded toward
/// zero, for a small factor `x`, a modulation-sized factor `y` and an
/// amplitude-sized divisor `d`.
pub fn muldiv(x: i64, y: i64, d: i64) -> (r: i64)
    requires
        0 < d <= 2 * AMP_ONE,
        -2 * AMP_ONE <= x <= 2 * AMP_ONE,
        -MOD_INDEX_MAX <= y <= MOD_INDEX_MAX,
    ensures
        r == spec_muldiv(x as int, y as int, d as int),
        (-d <= x && x <= d && 0 <= y) ==> -y <= r <= y,
        (0 <= x && 0 <= y) ==> 0 <= r,
{
    let xm: u64 = if x >= 0 {
        x as u64
    } else {
        (-x) as u64
    };
    let ym: u64 = if y >= 0 {
        y as u64
    } else {
        (-y) as u64
    };
    proof {
        assert(xm * ym <= 2097152 * 1000000000000) by (nonlinear_arith)
            requires
                xm <= 2097152,
                ym <= 1000000000000,
        ;
        assert(xm as int * ym as int == if x as int * y as int >= 0 {
            x as int * y as int
        } else {
            -(x as int * y as int)
        }) by (nonlinear_arith)
            requires
                (x >= 0 ==> xm == x as int),
                (x < 0 ==> xm == -(x as int)),
                (y >= 0 ==> ym == y as int),
                (y < 0 ==> ym == -(y as int)),
        ;
    }
    let pm: u64 = xm * ym;
    let q: u64 = pm / (d as u64);
    proof {
        let big: int = 2097152int * 1000000000000int;
        lemma_div_is_ordered(0, pm as int, d as int);
        lemma_div_is_ordered(pm as int, big, d as int);
        lemma_div_is_ordered(big, big * (d as int), d as int);
        lemma_mul_inequality(1, d as int, big);
        lemma_div_multiples_vanish(big, d as int);
        assert(q <= big);
        if -d <= x && x <= d && 0 <= y {
            lemma_mul_inequality(xm as int, d as int, ym as int);
            lemma_div_is_ordered(pm as int, d as int * ym as int, d as int);
            lemma_div_multiples_vanish(ym as int, d as int);
            assert(d as int * ym as int == ym as int * d as int) by (nonlinear_arith);
            assert(q <= ym);
        }
    }
    let neg: bool = (x < 0) != (y < 0);
    proof {
        let xi = x as int;
        let yi = y as int;
        let di = d as int;
        let p = xi * yi;
        lemma_div_multiples_vanish(0, di);
        assert(((xi >= 0 && yi >= 0) ==> p >= 0) && ((xi <= 0 && yi <= 0) ==> p >= 0) && ((xi >= 0 && yi
            <= 0) ==> p <= 0) && ((xi <= 0 && yi >= 0) ==> p <= 0) && ((xi == 0 || yi == 0) ==> p == 0))
            by (nonlinear_arith)
            requires
                p == xi * yi,
        ;
    }
    if neg {
        -(q as i64)
    } else {
        q as i64
    }
}

/// `2^e` as a machine word, for exponents that fit in a `u64`.
pub fn pow2_u64(e: u32) -> (r: u64)
    requires
        e <= 62,
    ensures
        r == pow2(e as nat),
{
    let mut i: u32 = 0;
    let mut acc: u64 = 1;
    proof {
        lemma2_to64();
    }
    while i < e
        invariant
            i <= e,
            e <= 62,
            acc == pow2(i as nat),
        decreases e - i,
    {
        proof {
            lemma2_to64();
            lemma2_to64_rest();
            if (i as nat) < 62 {
                lemma_pow2_strictly_increases(i as nat, 62);
            }
            lemma_pow2_unfold((i + 1) as nat);
        }
        acc = acc * 2;
        i = i + 1;
    }
    acc
}

} // verus!
