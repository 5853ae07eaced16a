//! Saturating fixed-point arithmetic shared by the whole simulation.
//!
//! Money amounts live in `[-MONEY_CAP, MONEY_CAP]`; every stored update is
//! clamped into that interval, so no i64 operation here can overflow. Rates
//! are applied by a multiply in parts per million followed by a division that
//! truncates toward zero, exactly as the spec-level mirrors below state.

use vstd::prelude::*;

use crate::consts::{MONEY_CAP, RATE_SCALE};

verus! {

/// Clamp an unbounded amount into the representable money interval.
pub open spec fn s_clamp(v: int) -> int {
    if v > MONEY_CAP as int {
        MONEY_CAP as int
    } else if v < -(MONEY_CAP as int) {
        -(MONEY_CAP as int)
    } else {
        v
    }
}

/// Integer division truncating toward zero (the rounding of `/` on machine
/// integers), for a positive divisor.
pub open spec fn s_div_trunc(a: int, d: int) -> int
    recommends
        d > 0,
{
    if a >= 0 {
        a / d
    } else {
        -((-a) / d)
    }
}

/// Apply a ppm-scaled rate to an amount: truncate `x * r / RATE_SCALE`
/// toward zero, then clamp into the money interval.
pub open spec fn s_mul_rate(x: int, r: int) -> int {
    s_clamp(s_div_trunc(x * r, RATE_SCALE as int))
}

/// One compounding step: `x * (1 + r)` in ppm fixed point, clamped.
pub open spec fn s_grow(x: int, r: int) -> int {
    s_clamp(x + s_mul_rate(x, r))
}

pub fn clamp_money(v: i64) -> (r: i64)
    ensures
        r as int == s_clamp(v as int),
{
    if v > MONEY_CAP {
        MONEY_CAP
    } else if v < -MONEY_CAP {
        -MONEY_CAP
    } else {
        v
    }
}

pub fn div_trunc(a: i64, d: i64) -> (r: i64)
    requires
        d > 0,
        a > i64::MIN,
    ensures
        r as int == s_div_trunc(a as int, d as int),
{
    if a >= 0 {
        let q: u64 = (a as u64) / (d as u64);
        proof {
            vstd::arithmetic::div_mod::lemma_div_is_ordered(q as int, a as int, 1);
        }
        q as i64
    } else {
        let m: u64 = ((-a) as u64) / (d as u64);
        proof {
            vstd::arithmetic::div_mod::lemma_div_is_ordered(m as int, (-a) as int, 1);
        }
        -(m as i64)
    }
}

proof fn lemma_abs_mul(x: int, r: int)
    by (nonlinear_arith)
    ensures
        (if x * r >= 0 {
            x * r
        } else {
            -(x * r)
        }) == (if x >= 0 {
            x
        } else {
            -x
        }) * (if r >= 0 {
            r
        } else {
            -r
        }),
{
}

pub fn mul_rate(x: i64, r: i64) -> (res: i64)
    requires
        -100 * MONEY_CAP <= x <= 100 * MONEY_CAP,
        -MONEY_CAP <= r <= MONEY_CAP,
    ensures
        res as int == s_mul_rate(x as int, r as int),
{
    let neg: bool = (x < 0) != (r < 0);
    let xa: u128 = if x >= 0 {
        x as u128
    } else {
        (-x) as u128
    };
    let ra: u128 = if r >= 0 {
        r as u128
    } else {
        (-r) as u128
    };
    proof {
        lemma_abs_mul(x as int, r as int);
        assert(xa * ra <= 100 * (MONEY_CAP as u128) * (MONEY_CAP as u128)) by (nonlinear_arith)
            requires
                xa <= 100 * (MONEY_CAP as u128),
                ra <= MONEY_CAP as u128,
        ;
    }
    let q: u128 = (xa * ra) / (RATE_SCALE as u128);
    proof {
        let p: int = (x as int) * (r as int);
        let pabs: int = if p >= 0 { p } else { -p };
        assert(xa as int * ra as int == pabs);
        assert(q as int == pabs / (RATE_SCALE as int));
        if p < 0 {
            assert(s_div_trunc(p, RATE_SCALE as int) == -(q as int));
        } else {
            assert(s_div_trunc(p, RATE_SCALE as int) == q as int);
        }
        vstd::arithmetic::div_mod::lemma_div_pos_is_pos(pabs, RATE_SCALE as int);
    }
    let m: i64 = if q >= MONEY_CAP as u128 {
        MONEY_CAP
    } else {
        q as i64
    };
    let res: i64 = if neg {
        -m
    } else {
        m
    };
    proof {
        let p: int = (x as int) * (r as int);
        let pabs: int = if p >= 0 { p } else { -p };
        assert((x as int) * (r as int) >= 0 ==> !neg || (x as int) * (r as int) == 0)
            by (nonlinear_arith)
            requires
                neg == ((x < 0) != (r < 0)),
        ;
        assert((x as int) * (r as int) < 0 ==> neg) by (nonlinear_arith)
            requires
                neg == ((x < 0) != (r < 0)),
        ;
        assert(q as int == pabs / (RATE_SCALE as int));
        vstd::arithmetic::div_mod::lemma_div_pos_is_pos(pabs, RATE_SCALE as int);
        if p >= 0 {
            assert(s_div_trunc(p, RATE_SCALE as int) == q as int);
        } else {
            assert(s_div_trunc(p, RATE_SCALE as int) == -(q as int));
        }
    }
    res
}

pub fn grow(x: i64, r: i64) -> (res: i64)
    requires
        0 <= x <= MONEY_CAP,
        -MONEY_CAP <= r <= MONEY_CAP,
    ensures
        res as int == s_grow(x as int, r as int),
{
    let d: i64 = mul_rate(x, r);
    clamp_money(x + d)
}

/// Truncating division keeps the order of its numerators.
pub proof fn lemma_div_trunc_ordered(a: int, b: int, d: int)
    requires
        d > 0,
        a <= b,
    ensures
        s_div_trunc(a, d) <= s_div_trunc(b, d),
{
    if a >= 0 {
        vstd::arithmetic::div_mod::lemma_div_is_ordered(a, b, d);
    } else if b >= 0 {
        vstd::arithmetic::div_mod::lemma_div_pos_is_pos(-a, d);
        vstd::arithmetic::div_mod::lemma_div_pos_is_pos(b, d);
    } else {
        vstd::arithmetic::div_mod::lemma_div_is_ordered(-b, -a, d);
    }
}

/// Truncating division never grows the magnitude of its numerator.
pub proof fn lemma_div_trunc_abs_le(a: int, d: int)
    requires
        d >= 1,
    ensures
        a >= 0 ==> 0 <= s_div_trunc(a, d) <= a,
        a < 0 ==> a <= s_div_trunc(a, d) <= 0,
{
    if a >= 0 {
        vstd::arithmetic::div_mod::lemma_div_basics_5(a, d);
    } else {
        vstd::arithmetic::div_mod::lemma_div_basics_5(-a, d);
    }
}

/// Applying a rate no smaller than a full negative year never costs more
/// than the amount itself: the result of `s_mul_rate` stays above `-x`.
pub proof fn lemma_mul_rate_lower(x: int, r: int)
    requires
        0 <= x,
        -(RATE_SCALE as int) <= r,
    ensures
        s_mul_rate(x, r) >= -x,
        s_mul_rate(x, r) >= s_clamp(-x),
{
    assert(x * r >= x * -(RATE_SCALE as int)) by (nonlinear_arith)
        requires
            0 <= x,
            -(RATE_SCALE as int) <= r,
    ;
    assert(x * -(RATE_SCALE as int) == -(x * (RATE_SCALE as int))) by (nonlinear_arith);
    lemma_div_trunc_ordered(-(x * (RATE_SCALE as int)), x * r, RATE_SCALE as int);
    assert((x * (RATE_SCALE as int)) / (RATE_SCALE as int) == x) by {
        vstd::arithmetic::div_mod::lemma_div_multiples_vanish(x, RATE_SCALE as int);
    }
}

/// Growing a non-negative amount by any rate of at most a full negative
/// year keeps it non-negative, and clamping keeps it at most the cap.
pub proof fn lemma_grow_bounds(x: int, r: int)
    requires
        0 <= x <= MONEY_CAP as int,
        -(RATE_SCALE as int) <= r,
    ensures
        0 <= s_grow(x, r) <= MONEY_CAP as int,
{
    lemma_mul_rate_lower(x, r);
}

} // verus!
