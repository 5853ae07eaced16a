//! Owner-side mortgage arithmetic: the fixed installment, the monthly
//! interest/principal split, and the owner's monthly housing expenses.
//!
//! The installment follows the standard fixed-payment amortization formula
//! `principal * r(1+r)^n / ((1+r)^n - 1)` in ppm fixed point, with a
//! dedicated straight-line branch when the monthly rate is zero, and a zero
//! result when the term is zero (no months to pay over).

use vstd::prelude::*;

use crate::arith::{clamp_money, div_trunc, mul_rate, s_clamp, s_div_trunc, s_mul_rate};
use crate::consts::{MONEY_CAP, POW_CAP, PROPERTY_TAX_MONTHLY_PPM, RATE_SCALE};
use crate::saver::{s_mortgage_interest, s_owner_expenses_value, s_owner_step, same_frame, Saver};

verus! {

/// `(1 + r)^n` in ppm fixed point, truncating toward zero at every step and
/// clamped at [`POW_CAP`].
pub open spec fn s_pow(r: int, n: nat) -> int
    decreases n,
{
    if n == 0 {
        RATE_SCALE as int
    } else {
        let q = s_div_trunc(s_pow(r, (n - 1) as nat) * (RATE_SCALE as int + r), RATE_SCALE as int);
        if q > POW_CAP as int {
            POW_CAP as int
        } else {
            q
        }
    }
}

/// The fixed monthly mortgage installment for a debt, an annual rate (ppm)
/// and a term in years.
pub open spec fn s_installment(debt: int, rate: int, term_years: int) -> int {
    let mr = s_div_trunc(rate, 12);
    let tm = term_years * 12;
    if tm == 0 {
        0
    } else if mr == 0 {
        s_div_trunc(debt, tm)
    } else {
        let p = s_pow(mr, tm as nat);
        s_clamp(
            s_div_trunc(debt * mr * p, (RATE_SCALE as int) * (p - RATE_SCALE as int)),
        )
    }
}

/// The compounding factor stays between one (the starting factor) and the cap.
pub proof fn lemma_pow_bounds(r: int, n: nat)
    requires
        0 <= r <= RATE_SCALE as int,
    ensures
        RATE_SCALE as int <= s_pow(r, n) <= POW_CAP as int,
    decreases n,
{
    if n > 0 {
        lemma_pow_bounds(r, (n - 1) as nat);
        let p = s_pow(r, (n - 1) as nat);
        assert(p * (RATE_SCALE as int + r) >= p * (RATE_SCALE as int)) by (nonlinear_arith)
            requires
                p >= 0,
                r >= 0,
        ;
        crate::arith::lemma_div_trunc_ordered(
            p * (RATE_SCALE as int),
            p * (RATE_SCALE as int + r),
            RATE_SCALE as int,
        );
        assert((p * (RATE_SCALE as int)) / (RATE_SCALE as int) == p) by {
            vstd::arithmetic::div_mod::lemma_div_multiples_vanish(p, RATE_SCALE as int);
        }
    }
}

/// With a positive monthly rate, one month of compounding already lifts the
/// factor by at least the rate, so the formula's denominator is positive.
pub proof fn lemma_pow_lower(r: int, n: nat)
    requires
        1 <= r <= RATE_SCALE as int,
        n >= 1,
    ensures
        s_pow(r, n) >= RATE_SCALE as int + r,
    decreases n,
{
    lemma_pow_bounds(r, (n - 1) as nat);
    let p = s_pow(r, (n - 1) as nat);
    if n == 1 {
        assert(((RATE_SCALE as int) * (RATE_SCALE as int + r)) / (RATE_SCALE as int)
            == RATE_SCALE as int + r) by {
            vstd::arithmetic::div_mod::lemma_div_multiples_vanish(
                RATE_SCALE as int + r,
                RATE_SCALE as int,
            );
            assert((RATE_SCALE as int) * (RATE_SCALE as int + r) == (RATE_SCALE as int + r) * (
            RATE_SCALE as int)) by (nonlinear_arith);
        }
    } else {
        lemma_pow_lower(r, (n - 1) as nat);
        assert(p * (RATE_SCALE as int + r) >= (RATE_SCALE as int + r) * (RATE_SCALE as int))
            by (nonlinear_arith)
            requires
                p >= RATE_SCALE as int + r,
                r >= 1,
                p >= 0,
        ;
        crate::arith::lemma_div_trunc_ordered(
            (RATE_SCALE as int + r) * (RATE_SCALE as int),
            p * (RATE_SCALE as int + r),
            RATE_SCALE as int,
        );
        assert(((RATE_SCALE as int + r) * (RATE_SCALE as int)) / (RATE_SCALE as int)
            == RATE_SCALE as int + r) by {
            vstd::arithmetic::div_mod::lemma_div_multiples_vanish(
                RATE_SCALE as int + r,
                RATE_SCALE as int,
            );
        }
    }
}

/// Iteratively computes [`s_pow`]`(r, n)`.
fn pow_factor(r: i64, n: i64) -> (p: i64)
    requires
        1 <= r <= RATE_SCALE,
        1 <= n <= 3060,
    ensures
        p as int == s_pow(r as int, n as nat),
{
    let mut p: i64 = RATE_SCALE;
    let mut i: i64 = 0;
    while i < n
        invariant
            1 <= r <= RATE_SCALE,
            0 <= i <= n,
            n <= 3060,
            p as int == s_pow(r as int, i as nat),
            RATE_SCALE <= p <= POW_CAP,
        decreases n - i,
    {
        proof {
            assert((p as u128) * ((RATE_SCALE + r) as u128) <= (POW_CAP as u128) * (2 * RATE_SCALE
                as u128)) by (nonlinear_arith)
                requires
                    p as u128 <= POW_CAP as u128,
                    (RATE_SCALE + r) as u128 <= 2 * RATE_SCALE as u128,
            ;
        }
        let prod: u128 = (p as u128) * ((RATE_SCALE + r) as u128);
        let q: u128 = prod / (RATE_SCALE as u128);
        proof {
            lemma_pow_bounds(r as int, (i + 1) as nat);
            assert(prod == (p as int) * (RATE_SCALE as int + r as int));
            assert(q as int == s_div_trunc((p as int) * (RATE_SCALE as int + r as int),
                RATE_SCALE as int));
        }
        p = if q > POW_CAP as u128 {
            POW_CAP
        } else {
            q as i64
        };
        i = i + 1;
        proof {
            assert(p as int == s_pow(r as int, i as nat));
        }
    }
    p
}

impl Saver {
    /// The monthly mortgage rate: one twelfth of the annual rate, in ppm.
    pub fn monthly_mortgage_rate(&self) -> (r: i64)
        requires
            self.wf(),
        ensures
            r as int == s_div_trunc(self.sim().mortgage_rate, 12),
    {
        div_trunc(self.mortgage_rate, 12)
    }

    /// The mortgage term in months.
    pub fn mortgage_term_months(&self) -> (r: i64)
        ensures
            r as int == self.mortgage_term as int * 12,
    {
        (self.mortgage_term as i64) * 12
    }

    /// The fixed monthly installment for this household's mortgage.
    pub fn mortgage_installments(&self) -> (r: i64)
        requires
            self.wf(),
        ensures
            r as int == s_installment(
                self.sim().debt,
                self.sim().mortgage_rate,
                self.mortgage_term as int,
            ),
            // Straight-line split of the principal when the mortgage is free
            // of interest and has months to run.
            s_div_trunc(self.sim().mortgage_rate, 12) == 0 && self.mortgage_term as int > 0
                ==> r as int == s_div_trunc(self.sim().debt, self.mortgage_term as int * 12),
            -MONEY_CAP <= r <= MONEY_CAP,
    {
        let mr: i64 = self.monthly_mortgage_rate();
        let tm: i64 = self.mortgage_term_months();
        if tm == 0 {
            0
        } else if mr == 0 {
            let q = div_trunc(self.mortgage_debt, tm);
            proof {
                crate::arith::lemma_div_trunc_abs_le(self.sim().debt, tm as int);
            }
            q
        } else {
            proof {
                crate::arith::lemma_div_trunc_abs_le(self.sim().mortgage_rate, 12);
            }
            let p: i64 = pow_factor(mr, tm);
            proof {
                lemma_pow_bounds(mr as int, tm as nat);
                lemma_pow_lower(mr as int, tm as nat);
            }
            let neg: bool = self.mortgage_debt < 0;
            let da: u128 = if self.mortgage_debt >= 0 {
                self.mortgage_debt as u128
            } else {
                (-self.mortgage_debt) as u128
            };
            proof {
                assert(da * (mr as u128) <= (MONEY_CAP as u128) * (RATE_SCALE as u128))
                    by (nonlinear_arith)
                    requires
                        da <= MONEY_CAP as u128,
                        mr as u128 <= RATE_SCALE as u128,
                ;
                assert(da * (mr as u128) * (p as u128) <= (MONEY_CAP as u128) * (RATE_SCALE
                    as u128) * (POW_CAP as u128)) by (nonlinear_arith)
                    requires
                        da * (mr as u128) <= (MONEY_CAP as u128) * (RATE_SCALE as u128),
                        p as u128 <= POW_CAP as u128,
                ;
            }
            let num: u128 = da * (mr as u128) * (p as u128);
            let den: u128 = (RATE_SCALE as u128) * ((p - RATE_SCALE) as u128);
            let q: u128 = num / den;
            proof {
                let debt: int = self.sim().debt;
                let dai: int = if debt >= 0 { debt } else { -debt };
                let numer: int = debt * (mr as int) * (p as int);
                assert(num as int == dai * (mr as int) * (p as int)) by (nonlinear_arith)
                    requires
                        da as int == dai,
                        num as int == (da as int) * (mr as int) * (p as int),
                ;
                assert(numer == if debt >= 0 {
                    dai * (mr as int) * (p as int)
                } else {
                    -(dai * (mr as int) * (p as int))
                }) by (nonlinear_arith)
                    requires
                        numer == debt * (mr as int) * (p as int),
                        dai == (if debt >= 0 { debt } else { -debt }),
                ;
                assert(den as int == (RATE_SCALE as int) * ((p as int) - (RATE_SCALE as int)));
                assert(den as int > 0) by (nonlinear_arith)
                    requires
                        den as int == (RATE_SCALE as int) * ((p as int) - (RATE_SCALE as int)),
                        (p as int) - (RATE_SCALE as int) > 0,
                ;
                assert(q as int == (num as int) / (den as int));
                vstd::arithmetic::div_mod::lemma_div_pos_is_pos(num as int, den as int);
                assert(s_div_trunc(numer, den as int) == if debt >= 0 {
                    q as int
                } else {
                    -(q as int)
                });
            }
            let m: i64 = if q >= MONEY_CAP as u128 {
                MONEY_CAP
            } else {
                q as i64
            };
            if neg {
                -m
            } else {
                m
            }
        }
    }

    /// This month's mortgage interest payment.
    pub fn monthly_mortgage_interest_payment(&self) -> (r: i64)
        requires
            self.wf(),
        ensures
            r as int == s_mortgage_interest(self.sim()),
            -MONEY_CAP <= r <= MONEY_CAP,
    {
        let mr: i64 = self.monthly_mortgage_rate();
        mul_rate(self.mortgage_debt, mr)
    }

    /// The home-upkeep part of the owner's monthly expenses.
    pub fn monthly_home_expenses(&self) -> (r: i64)
        requires
            self.wf(),
        ensures
            r as int == s_mul_rate(
                self.sim().home_value,
                s_div_trunc(self.sim().home_exp_rate, 12),
            ),
    {
        let hr: i64 = div_trunc(self.home_expenses, 12);
        mul_rate(self.home_value, hr)
    }

    /// The owner side of one month: returns the owner's monthly expense
    /// value and performs the month's mortgage accounting (principal
    /// pay-down while debt remains, otherwise the mortgage-free marker).
    pub fn owner_expenses(&mut self) -> (r: i64)
        requires
            old(self).wf(),
        ensures
            final(self).wf(),
            r as int == s_owner_expenses_value(old(self).sim()),
            final(self).sim() == s_owner_step(old(self).sim()),
            same_frame(*old(self), *final(self)),
            -3 * MONEY_CAP <= r <= 3 * MONEY_CAP,
    {
        let mortgage_interest: i64 = self.monthly_mortgage_interest_payment();
        let cached: i64 = match self.cached_mortgage_installment {
            Some(v) => v,
            None => 0,
        };
        let monthly_principle: i64 = cached - mortgage_interest;
        let pt: i64 = mul_rate(self.home_value, PROPERTY_TAX_MONTHLY_PPM);
        let home_part: i64 = self.monthly_home_expenses();
        let value: i64 = pt + home_part + mortgage_interest;
        if self.mortgage_debt > 0 {
            self.mortgage_debt = clamp_money(self.mortgage_debt - monthly_principle);
        } else if self.home_owned_age.is_none() {
            self.home_owned_age = Some(self.current_age);
        }
        value
    }
}

} // verus!
