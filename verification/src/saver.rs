//! The household simulation state and its year-by-year evolution.
//!
//! A [`Saver`] holds one household's configuration and mutable simulation
//! state. Its behaviour is specified against [`SimState`], a ghost mirror of
//! the scalar fields: every mutating method states exactly which `SimState`
//! it leaves behind, and `calculate_savings` ties the whole run to the
//! recursive spec functions [`s_run`] and [`s_calculate`].

use vstd::prelude::*;
use vstd::pervasive::VecAdditionalExecFns;

use crate::arith::{
    clamp_money, div_trunc, grow, lemma_grow_bounds, mul_rate, s_clamp, s_div_trunc, s_grow,
    s_mul_rate,
};
use crate::consts::{DEATH, MONEY_CAP, PROPERTY_TAX_MONTHLY_PPM, RATE_SCALE,
    STD_MONTHLY_WITHDRAWAL_RATE_PPM};

verus! {

/// Which housing strategy a simulation run is for.
#[derive(Clone)]
pub enum SaverType {
    HomeOwner,
    Renter,
}

/// One household's configuration and simulation state.
///
/// Money fields are in cents; `mortgage_rate` and `home_expenses` are annual
/// fractions in ppm; the rate tables hold one annual ppm rate per age.
pub struct Saver {
    pub current_age: u8,
    pub retirement_age: u8,
    pub total_savings: i64,
    pub monthly_income: i64,
    pub monthly_expenses: i64,
    pub home_value: i64,
    pub monthly_rent: i64,
    pub mortgage_debt: i64,
    pub mortgage_rate: i64,
    pub mortgage_term: u8,
    pub min_baseline_retirement_income: i64,
    pub max_baseline_retirement_income: i64,
    pub interest_rates: Vec<i64>,
    pub inflation_rates: Vec<i64>,
    pub home_savings: Vec<i64>,
    pub rental_savings: Vec<i64>,
    pub active_retirement: bool,
    pub home_owned_age: Option<u8>,
    pub cached_mortgage_installment: Option<i64>,
    pub home_expenses: i64,
}

/// Ghost mirror of the scalar simulation state: every monetary amount as an
/// unbounded integer, ages as integers, plus the two policy flags.
///
/// `installment` is the effective cached mortgage installment: the cached
/// value when one is present, and zero otherwise, which is exactly how the
/// simulation reads it.
pub ghost struct SimState {
    pub age: int,
    pub retirement_age: int,
    pub savings: int,
    pub m_income: int,
    pub m_expenses: int,
    pub rent: int,
    pub home_value: int,
    pub debt: int,
    pub mortgage_rate: int,
    pub min_baseline: int,
    pub max_baseline: int,
    pub home_exp_rate: int,
    pub installment: int,
    pub retired: bool,
    pub owned_age: Option<int>,
}

pub open spec fn money_ok(v: int) -> bool {
    0 <= v <= MONEY_CAP as int
}

pub open spec fn money_signed_ok(v: int) -> bool {
    -(MONEY_CAP as int) <= v <= MONEY_CAP as int
}

/// A rate table: one annual ppm rate per simulated age, each within one
/// whole unit (|rate| <= 100% per year).
pub open spec fn rate_seq_ok(s: Seq<i64>) -> bool {
    &&& s.len() == DEATH as int
    &&& forall|i: int| 0 <= i < s.len() ==> -RATE_SCALE <= #[trigger] s[i] <= RATE_SCALE
}

/// Bounds on a ghost simulation state; preserved by every step function.
pub open spec fn sim_ok(s: SimState) -> bool {
    &&& money_signed_ok(s.savings)
    &&& money_ok(s.m_income)
    &&& money_ok(s.m_expenses)
    &&& money_ok(s.rent)
    &&& money_ok(s.home_value)
    &&& money_signed_ok(s.debt)
    &&& 0 <= s.mortgage_rate <= RATE_SCALE as int
    &&& money_ok(s.min_baseline)
    &&& money_ok(s.max_baseline)
    &&& money_ok(s.home_exp_rate)
    &&& money_signed_ok(s.installment)
}

impl Saver {
    /// Well-formedness: tables of the right length, every amount in range.
    pub open spec fn wf(self) -> bool {
        &&& rate_seq_ok(self.interest_rates@)
        &&& rate_seq_ok(self.inflation_rates@)
        &&& self.home_savings@.len() == DEATH as int
        &&& self.rental_savings@.len() == DEATH as int
        &&& sim_ok(self.sim())
    }

    /// The ghost scalar state this household is in.
    pub open spec fn sim(self) -> SimState {
        SimState {
            age: self.current_age as int,
            retirement_age: self.retirement_age as int,
            savings: self.total_savings as int,
            m_income: self.monthly_income as int,
            m_expenses: self.monthly_expenses as int,
            rent: self.monthly_rent as int,
            home_value: self.home_value as int,
            debt: self.mortgage_debt as int,
            mortgage_rate: self.mortgage_rate as int,
            min_baseline: self.min_baseline_retirement_income as int,
            max_baseline: self.max_baseline_retirement_income as int,
            home_exp_rate: self.home_expenses as int,
            installment: match self.cached_mortgage_installment {
                Some(v) => v as int,
                None => 0,
            },
            retired: self.active_retirement,
            owned_age: match self.home_owned_age {
                Some(a) => Some(a as int),
                None => None,
            },
        }
    }
}

impl Saver {
    /// Runtime check of [`Saver::wf`], for callers outside the verified
    /// world that need to validate a configuration before simulating.
    pub fn is_well_formed(&self) -> (r: bool)
        ensures
            r == self.wf(),
    {
        let mut ok: bool = self.home_savings.len() == DEATH && self.rental_savings.len() == DEATH
            && -MONEY_CAP <= self.total_savings && self.total_savings <= MONEY_CAP
            && 0 <= self.monthly_income && self.monthly_income <= MONEY_CAP
            && 0 <= self.monthly_expenses && self.monthly_expenses <= MONEY_CAP
            && 0 <= self.monthly_rent && self.monthly_rent <= MONEY_CAP
            && 0 <= self.home_value && self.home_value <= MONEY_CAP
            && -MONEY_CAP <= self.mortgage_debt && self.mortgage_debt <= MONEY_CAP
            && 0 <= self.mortgage_rate && self.mortgage_rate <= RATE_SCALE
            && 0 <= self.min_baseline_retirement_income
            && self.min_baseline_retirement_income <= MONEY_CAP
            && 0 <= self.max_baseline_retirement_income
            && self.max_baseline_retirement_income <= MONEY_CAP
            && 0 <= self.home_expenses && self.home_expenses <= MONEY_CAP
            && (match self.cached_mortgage_installment {
            Some(v) => -MONEY_CAP <= v && v <= MONEY_CAP,
            None => true,
        }) && self.interest_rates.len() == DEATH && self.inflation_rates.len() == DEATH;
        let mut i: usize = 0;
        while i < self.interest_rates.len()
            invariant
                0 <= i <= self.interest_rates@.len(),
                ok == ({
                    &&& self.home_savings@.len() == DEATH as int
                    &&& self.rental_savings@.len() == DEATH as int
                    &&& sim_ok(self.sim())
                    &&& self.interest_rates@.len() == DEATH as int
                    &&& self.inflation_rates@.len() == DEATH as int
                    &&& forall|k: int|
                        0 <= k < i as int ==> -RATE_SCALE <= #[trigger] self.interest_rates@[k]
                            <= RATE_SCALE
                }),
            decreases self.interest_rates@.len() - i,
        {
            let v: i64 = self.interest_rates[i];
            ok = ok && -RATE_SCALE <= v && v <= RATE_SCALE;
            i += 1;
        }
        let mut j: usize = 0;
        while j < self.inflation_rates.len()
            invariant
                0 <= j <= self.inflation_rates@.len(),
                ok == ({
                    &&& self.home_savings@.len() == DEATH as int
                    &&& self.rental_savings@.len() == DEATH as int
                    &&& sim_ok(self.sim())
                    &&& self.interest_rates@.len() == DEATH as int
                    &&& self.inflation_rates@.len() == DEATH as int
                    &&& rate_seq_ok(self.interest_rates@)
                    &&& forall|k: int|
                        0 <= k < j as int ==> -RATE_SCALE <= #[trigger] self.inflation_rates@[k]
                            <= RATE_SCALE
                }),
            decreases self.inflation_rates@.len() - j,
        {
            let v: i64 = self.inflation_rates[j];
            ok = ok && -RATE_SCALE <= v && v <= RATE_SCALE;
            j += 1;
        }
        ok
    }
}

/// Everything a single month leaves alone: the rate tables, the recorded
/// trajectories, the mortgage term and the cached installment option.
pub open spec fn same_frame(a: Saver, b: Saver) -> bool {
    &&& a.interest_rates@ == b.interest_rates@
    &&& a.inflation_rates@ == b.inflation_rates@
    &&& a.home_savings@ == b.home_savings@
    &&& a.rental_savings@ == b.rental_savings@
    &&& a.mortgage_term == b.mortgage_term
    &&& a.cached_mortgage_installment == b.cached_mortgage_installment
}

/// Liquid assets: total savings minus net home equity, floored at zero.
pub open spec fn s_liquid(s: SimState) -> int {
    if s.savings - (s.home_value - s.debt) < 0 {
        0
    } else {
        s.savings - (s.home_value - s.debt)
    }
}

/// The monthly retirement withdrawal, as a negative cash flow: minus the 4%
/// standard monthly rate on liquid assets, bounded below by the minimum and
/// above by the maximum baseline retirement income.
pub open spec fn s_withdrawal(s: SimState) -> int {
    let std_amt = s_mul_rate(s_liquid(s), STD_MONTHLY_WITHDRAWAL_RATE_PPM as int);
    if s_liquid(s) <= 0 {
        0
    } else if s.min_baseline <= std_amt && s.max_baseline >= std_amt {
        -std_amt
    } else if s.min_baseline > std_amt {
        -s.min_baseline
    } else {
        -s.max_baseline
    }
}

/// Liquid assets are never negative, in every state a simulation can
/// reach: the withdrawal base is floored at zero before any rate is
/// applied to it.
pub proof fn lemma_liquid_assets_nonnegative(s: SimState)
    ensures
        s_liquid(s) >= 0,
{
}

/// This month's mortgage interest: remaining debt times the monthly rate.
pub open spec fn s_mortgage_interest(s: SimState) -> int {
    s_mul_rate(s.debt, s_div_trunc(s.mortgage_rate, 12))
}

/// The owner-side monthly expense value: property tax, home upkeep at the
/// (inflating) home-expense rate, and mortgage interest.
pub open spec fn s_owner_expenses_value(s: SimState) -> int {
    s_mul_rate(s.home_value, PROPERTY_TAX_MONTHLY_PPM as int) + s_mul_rate(
        s.home_value,
        s_div_trunc(s.home_exp_rate, 12),
    ) + s_mortgage_interest(s)
}

/// The owner-side state change of one month: while debt remains, pay down
/// the principal share of the cached installment; once it is gone, record
/// the first mortgage-free age.
pub open spec fn s_owner_step(s: SimState) -> SimState {
    let principal = s.installment - s_mortgage_interest(s);
    if s.debt > 0 {
        SimState { debt: s_clamp(s.debt - principal), ..s }
    } else if s.owned_age is None {
        SimState { owned_age: Some(s.age), ..s }
    } else {
        s
    }
}

/// Monthly income: the configured income while accumulating, the (negative)
/// withdrawal once retired.
pub open spec fn s_income_value(s: SimState) -> int {
    if s.retired {
        s_withdrawal(s)
    } else {
        s.m_income
    }
}

/// Entering a retired month zeroes the non-housing expenses.
pub open spec fn s_income_step(s: SimState) -> SimState {
    if s.retired {
        SimState { m_expenses: 0, ..s }
    } else {
        s
    }
}

/// Total monthly expenses: non-housing expenses, the owner-side value and rent.
pub open spec fn s_expenses_value(s: SimState) -> int {
    s.m_expenses + s_owner_expenses_value(s) + s.rent
}

/// The balance a month closes with, before interest: prior savings plus
/// income minus expenses, where income is taken first (so a retired month
/// sees its non-housing expenses zeroed).
pub open spec fn s_month_end(s: SimState) -> int {
    let s1 = s_income_step(s);
    s.savings + s_income_value(s) - s_expenses_value(s1)
}

/// The full state change of `apply_monthly_changes`: income step, owner
/// step, then one month of inflation on income, expenses, rent, the
/// home-expense rate and both baselines.
pub open spec fn s_monthly(s: SimState, fr: int) -> SimState {
    let mi = s_div_trunc(fr, 12);
    let s1 = s_owner_step(s_income_step(s));
    SimState {
        m_income: s_grow(s1.m_income, mi),
        m_expenses: s_grow(s1.m_expenses, mi),
        rent: s_grow(s1.rent, mi),
        home_exp_rate: s_grow(s1.home_exp_rate, mi),
        min_baseline: s_grow(s1.min_baseline, mi),
        max_baseline: s_grow(s1.max_baseline, mi),
        ..s1
    }
}

impl Saver {
    /// The monthly inflation rate for the household's current age, in ppm.
    pub fn monthly_inflation(&self) -> (r: i64)
        requires
            self.wf(),
            (self.current_age as int) < DEATH as int,
        ensures
            r as int == s_div_trunc(self.inflation_rates@[self.current_age as int] as int, 12),
            -RATE_SCALE <= r <= RATE_SCALE,
    {
        let rate: i64 = self.inflation_rates[self.current_age as usize];
        proof {
            crate::arith::lemma_div_trunc_abs_le(rate as int, 12);
        }
        div_trunc(rate, 12)
    }

    /// The monthly interest rate for the household's current age, in ppm.
    pub fn monthly_interest(&self) -> (r: i64)
        requires
            self.wf(),
            (self.current_age as int) < DEATH as int,
        ensures
            r as int == s_div_trunc(self.interest_rates@[self.current_age as int] as int, 12),
            -RATE_SCALE <= r <= RATE_SCALE,
    {
        let rate: i64 = self.interest_rates[self.current_age as usize];
        proof {
            crate::arith::lemma_div_trunc_abs_le(rate as int, 12);
        }
        div_trunc(rate, 12)
    }

    /// Liquid assets: total savings minus net home equity, floored at zero.
    pub fn liquid_assets(&self) -> (r: i64)
        requires
            self.wf(),
        ensures
            r as int == s_liquid(self.sim()),
            0 <= r <= 3 * MONEY_CAP,
    {
        if self.total_savings - (self.home_value - self.mortgage_debt) < 0 {
            0
        } else {
            self.total_savings - (self.home_value - self.mortgage_debt)
        }
    }

    /// The monthly retirement withdrawal as a negative cash flow: the 4%
    /// standard monthly rate on liquid assets, floored at the minimum and
    /// capped at the maximum baseline retirement income; zero once nothing
    /// liquid is left.
    pub fn monthly_withdrawal(&self) -> (r: i64)
        requires
            self.wf(),
        ensures
            r as int == s_withdrawal(self.sim()),
            -MONEY_CAP <= r <= 0,
    {
        let liquid: i64 = self.liquid_assets();
        if liquid <= 0 {
            0
        } else {
            let std_amt: i64 = mul_rate(liquid, STD_MONTHLY_WITHDRAWAL_RATE_PPM);
            proof {
                crate::arith::lemma_mul_rate_lower(s_liquid(self.sim()),
                    STD_MONTHLY_WITHDRAWAL_RATE_PPM as int);
            }
            if self.min_baseline_retirement_income <= std_amt
                && self.max_baseline_retirement_income >= std_amt {
                -std_amt
            } else if self.min_baseline_retirement_income > std_amt {
                -self.min_baseline_retirement_income
            } else {
                // The three tests above are exhaustive: reaching this branch
                // means the standard amount exceeds the maximum baseline.
                proof {
                    assert(self.sim().max_baseline < s_mul_rate(
                        s_liquid(self.sim()),
                        STD_MONTHLY_WITHDRAWAL_RATE_PPM as int,
                    ));
                }
                -self.max_baseline_retirement_income
            }
        }
    }

    /// This month's interest earnings: liquid assets times the monthly
    /// interest rate in effect for the current age.
    pub fn interest_earnings(&self) -> (r: i64)
        requires
            self.wf(),
            (self.current_age as int) < DEATH as int,
        ensures
            r as int == s_mul_rate(
                s_liquid(self.sim()),
                s_div_trunc(self.interest_rates@[self.current_age as int] as int, 12),
            ),
            -MONEY_CAP <= r <= MONEY_CAP,
    {
        let liquid: i64 = self.liquid_assets();
        let mi: i64 = self.monthly_interest();
        mul_rate(liquid, mi)
    }

    /// Monthly income: the configured income while accumulating; once
    /// retired, zeroes the non-housing expenses and returns the (negative)
    /// monthly withdrawal.
    pub fn income(&mut self) -> (r: i64)
        requires
            old(self).wf(),
        ensures
            final(self).wf(),
            r as int == s_income_value(old(self).sim()),
            final(self).sim() == s_income_step(old(self).sim()),
            same_frame(*old(self), *final(self)),
            -MONEY_CAP <= r <= MONEY_CAP,
    {
        if self.active_retirement {
            self.monthly_expenses = 0;
            let w: i64 = self.monthly_withdrawal();
            proof {
                assert(s_liquid(self.sim()) == s_liquid(old(self).sim()));
                assert(s_withdrawal(self.sim()) == s_withdrawal(old(self).sim()));
            }
            w
        } else {
            self.monthly_income
        }
    }

    /// Total monthly expenses: non-housing expenses, the owner-side value
    /// (property tax, upkeep, mortgage interest) and rent; performs the
    /// month's mortgage accounting.
    pub fn expenses(&mut self) -> (r: i64)
        requires
            old(self).wf(),
        ensures
            final(self).wf(),
            r as int == s_expenses_value(old(self).sim()),
            final(self).sim() == s_owner_step(old(self).sim()),
            same_frame(*old(self), *final(self)),
            -4 * MONEY_CAP <= r <= 5 * MONEY_CAP,
    {
        let o: i64 = self.owner_expenses();
        self.monthly_expenses + o + self.monthly_rent
    }

    /// One month of the simulation, except for interest and the depletion
    /// test: take income, pay expenses, then inflate income, expenses,
    /// rent, the home-expense rate and both baselines by one month of the
    /// current age's inflation rate. Returns the month-end balance.
    pub fn apply_monthly_changes(&mut self) -> (month_end: i64)
        requires
            old(self).wf(),
            (old(self).current_age as int) < DEATH as int,
        ensures
            final(self).wf(),
            month_end as int == s_month_end(old(self).sim()),
            final(self).sim() == s_monthly(
                old(self).sim(),
                old(self).inflation_rates@[old(self).current_age as int] as int,
            ),
            same_frame(*old(self), *final(self)),
            final(self).current_age == old(self).current_age,
            -7 * MONEY_CAP <= month_end <= 7 * MONEY_CAP,
    {
        let monthly_inflation: i64 = self.monthly_inflation();
        let inc: i64 = self.income();
        let exp: i64 = self.expenses();
        let month_end: i64 = self.total_savings + inc - exp;
        proof {
            lemma_grow_bounds(self.sim().m_income, monthly_inflation as int);
            lemma_grow_bounds(self.sim().m_expenses, monthly_inflation as int);
            lemma_grow_bounds(self.sim().rent, monthly_inflation as int);
            lemma_grow_bounds(self.sim().home_exp_rate, monthly_inflation as int);
            lemma_grow_bounds(self.sim().min_baseline, monthly_inflation as int);
            lemma_grow_bounds(self.sim().max_baseline, monthly_inflation as int);
        }
        self.monthly_income = grow(self.monthly_income, monthly_inflation);
        self.monthly_expenses = grow(self.monthly_expenses, monthly_inflation);
        self.monthly_rent = grow(self.monthly_rent, monthly_inflation);
        self.home_expenses = grow(self.home_expenses, monthly_inflation);
        self.min_baseline_retirement_income = grow(
            self.min_baseline_retirement_income,
            monthly_inflation,
        );
        self.max_baseline_retirement_income = grow(
            self.max_baseline_retirement_income,
            monthly_inflation,
        );
        month_end
    }
}

/// One full month of the year loop: interest on the pre-month liquid
/// assets, the monthly changes, then the depletion test. Returns the new
/// state and whether the year may continue (false once depleted).
pub open spec fn s_month(s: SimState, ir: int, fr: int) -> (SimState, bool) {
    let interest = s_mul_rate(s_liquid(s), s_div_trunc(ir, 12));
    let me = s_month_end(s);
    let s2 = s_monthly(s, fr);
    if me > s2.home_value - s2.debt {
        (SimState { savings: s_clamp(me + interest), ..s2 }, true)
    } else {
        (SimState { savings: 0, ..s2 }, false)
    }
}

/// Up to `n` months in sequence, stopping early on depletion.
pub open spec fn s_months(s: SimState, ir: int, fr: int, n: nat) -> SimState
    decreases n,
{
    if n == 0 {
        s
    } else {
        let sc = s_month(s, ir, fr);
        if sc.1 {
            s_months(sc.0, ir, fr, (n - 1) as nat)
        } else {
            sc.0
        }
    }
}

/// One simulated year: twelve months under the rates in effect for the
/// household's current age.
pub open spec fn s_year(s: SimState, ir: int, fr: int) -> SimState {
    s_months(s, ir, fr, 12)
}

impl Saver {
    /// One simulated year: twelve monthly steps (stopping the year early on
    /// depletion), then record the end-of-year savings in the trajectory of
    /// the given strategy at the current age.
    pub fn apply_annual_changes(&mut self, st: &SaverType)
        requires
            old(self).wf(),
            (old(self).current_age as int) < DEATH as int,
        ensures
            final(self).wf(),
            final(self).sim() == s_year(
                old(self).sim(),
                old(self).interest_rates@[old(self).current_age as int] as int,
                old(self).inflation_rates@[old(self).current_age as int] as int,
            ),
            final(self).current_age == old(self).current_age,
            final(self).interest_rates@ == old(self).interest_rates@,
            final(self).inflation_rates@ == old(self).inflation_rates@,
            final(self).mortgage_term == old(self).mortgage_term,
            final(self).cached_mortgage_installment == old(self).cached_mortgage_installment,
            st is HomeOwner ==> final(self).home_savings@ == old(self).home_savings@.update(
                old(self).current_age as int,
                final(self).total_savings,
            ) && final(self).rental_savings@ == old(self).rental_savings@,
            st is Renter ==> final(self).rental_savings@ == old(self).rental_savings@.update(
                old(self).current_age as int,
                final(self).total_savings,
            ) && final(self).home_savings@ == old(self).home_savings@,
    {
        let ghost s0 = self.sim();
        let ghost ir = self.interest_rates@[self.current_age as int] as int;
        let ghost fr = self.inflation_rates@[self.current_age as int] as int;
        let mut m: usize = 0;
        while m < 12
            invariant_except_break
                s_year(s0, ir, fr) == s_months(self.sim(), ir, fr, (12 - m) as nat),
            invariant
                0 <= m <= 12,
                self.wf(),
                (old(self).current_age as int) < DEATH as int,
                self.current_age == old(self).current_age,
                same_frame(*old(self), *self),
                ir == old(self).interest_rates@[old(self).current_age as int] as int,
                fr == old(self).inflation_rates@[old(self).current_age as int] as int,
                s0 == old(self).sim(),
            ensures
                self.wf(),
                self.current_age == old(self).current_age,
                same_frame(*old(self), *self),
                s_year(s0, ir, fr) == self.sim(),
            decreases 12 - m,
        {
            let ghost before = self.sim();
            let interest: i64 = self.interest_earnings();
            let me: i64 = self.apply_monthly_changes();
            if me > self.home_value - self.mortgage_debt {
                self.total_savings = clamp_money(me + interest);
                proof {
                    assert(self.sim() == s_month(before, ir, fr).0);
                    assert(s_month(before, ir, fr).1);
                    assert(s_months(before, ir, fr, (12 - m) as nat) == s_months(
                        self.sim(),
                        ir,
                        fr,
                        (12 - (m + 1)) as nat,
                    ));
                }
                m += 1;
            } else {
                self.total_savings = 0;
                proof {
                    assert(self.sim() == s_month(before, ir, fr).0);
                    assert(!s_month(before, ir, fr).1);
                    assert(s_months(before, ir, fr, (12 - m) as nat) == self.sim());
                }
                break ;
            }
        }
        let idx: usize = self.current_age as usize;
        match st {
            SaverType::HomeOwner => {
                self.home_savings.set(idx, self.total_savings);
            },
            SaverType::Renter => {
                self.rental_savings.set(idx, self.total_savings);
            },
        }
    }
}

/// The simulated years from `s.age` up to `death`, stopping once savings
/// are no longer positive. Each year sets the retirement flag from the
/// current age, runs one year under that age's rates, records the
/// end-of-year savings at the current age, and moves one age forward.
/// Returns the final state and the finished trajectory.
pub open spec fn s_run(
    s: SimState,
    irates: Seq<i64>,
    frates: Seq<i64>,
    traj: Seq<int>,
    death: int,
) -> (SimState, Seq<int>)
    decreases death - s.age,
{
    if s.age >= death || s.savings <= 0 {
        (s, traj)
    } else {
        let s0 = SimState { retired: s.age >= s.retirement_age, ..s };
        let s1 = s_year(s0, irates[s.age] as int, frates[s.age] as int);
        s_run(
            SimState { age: s.age + 1, ..s1 },
            irates,
            frates,
            traj.update(s.age, s1.savings),
            death,
        )
    }
}

/// An all-zero trajectory over the whole horizon.
pub open spec fn s_zero_traj() -> Seq<int> {
    Seq::new(DEATH as nat, |i: int| 0)
}

/// The pre-run setup of `calculate_savings`: for the owning strategy,
/// cache the fixed installment and initialize the mortgage-free marker;
/// the renting strategy starts from the state as it stands.
pub open spec fn s_setup(s: Saver, sty: SaverType) -> SimState {
    let b = s.sim();
    match sty {
        SaverType::HomeOwner => SimState {
            installment: crate::owner::s_installment(b.debt, b.mortgage_rate,
                s.mortgage_term as int),
            owned_age: if b.debt == 0 {
                Some(b.age)
            } else {
                None
            },
            ..b
        },
        SaverType::Renter => b,
    }
}

/// The full simulation: setup, a fresh trajectory holding the starting
/// savings at the starting age, then the years from the next age on.
pub open spec fn s_calculate(s: Saver, sty: SaverType, death: int) -> (SimState, Seq<int>) {
    let s0 = s_setup(s, sty);
    let traj0 = s_zero_traj().update(s0.age, s0.savings);
    s_run(
        SimState { age: s0.age + 1, ..s0 },
        s.interest_rates@,
        s.inflation_rates@,
        traj0,
        death,
    )
}

/// A fresh all-zero trajectory vector over the whole horizon.
pub(crate) fn zero_vec() -> (out: Vec<i64>)
    ensures
        out@.len() == DEATH as int,
        forall|i: int| 0 <= i < DEATH as int ==> out@[i] == 0i64,
{
    let mut out: Vec<i64> = Vec::new();
    let mut i: usize = 0;
    while i < DEATH
        invariant
            0 <= i <= DEATH,
            out@.len() == i as int,
            forall|j: int| 0 <= j < i as int ==> out@[j] == 0i64,
        decreases DEATH - i,
    {
        out.push(0);
        i += 1;
    }
    out
}

/// A fresh copy of a trajectory vector.
pub(crate) fn copy_vec(src: &Vec<i64>) -> (out: Vec<i64>)
    ensures
        out@ == src@,
{
    let mut out: Vec<i64> = Vec::new();
    let mut i: usize = 0;
    while i < src.len()
        invariant
            0 <= i <= src@.len(),
            out@.len() == i as int,
            forall|j: int| 0 <= j < i as int ==> out@[j] == src@[j],
        decreases src@.len() - i,
    {
        out.push(src[i]);
        i += 1;
    }
    proof {
        assert(out@ =~= src@);
    }
    out
}

impl Saver {
    /// Run the whole simulation for one strategy: cache the installment and
    /// the mortgage-free marker (owning strategy), reset that strategy's
    /// trajectory, snapshot the starting savings at the starting age, then
    /// simulate year by year from the next age until the death age or until
    /// savings stop being positive. Returns a fresh copy of the trajectory.
    pub fn calculate_savings(&mut self, st: SaverType, death_age: u8) -> (traj: Vec<i64>)
        requires
            old(self).wf(),
            (old(self).current_age as int) < DEATH as int,
            death_age as int <= DEATH as int,
        ensures
            final(self).wf(),
            ({
                let res = s_calculate(*old(self), st, death_age as int);
                &&& traj@.map_values(|v: i64| v as int) =~= res.1
                &&& (SimState { installment: res.0.installment, ..final(self).sim() }) == res.0
                &&& final(self).interest_rates@ == old(self).interest_rates@
                &&& final(self).inflation_rates@ == old(self).inflation_rates@
                &&& final(self).mortgage_term == old(self).mortgage_term
                &&& (st is HomeOwner ==> {
                    &&& final(self).cached_mortgage_installment is None
                    &&& final(self).home_savings@ == traj@
                    &&& final(self).rental_savings@ == old(self).rental_savings@
                })
                &&& (st is Renter ==> {
                    &&& final(self).cached_mortgage_installment
                        == old(self).cached_mortgage_installment
                    &&& final(self).rental_savings@ == traj@
                    &&& final(self).home_savings@ == old(self).home_savings@
                })
            }),
    {
        let ghost target = s_calculate(*old(self), st, death_age as int);
        let idx0: usize = self.current_age as usize;
        match st {
            SaverType::HomeOwner => {
                let inst: i64 = self.mortgage_installments();
                self.cached_mortgage_installment = Some(inst);
                self.home_savings = zero_vec();
                if self.mortgage_debt == 0 {
                    self.home_owned_age = Some(self.current_age);
                } else {
                    self.home_owned_age = None;
                }
                self.home_savings.set(idx0, self.total_savings);
            },
            SaverType::Renter => {
                self.rental_savings = zero_vec();
                self.rental_savings.set(idx0, self.total_savings);
            },
        }
        proof {
            let s0 = s_setup(*old(self), st);
            let traj0 = s_zero_traj().update(s0.age, s0.savings);
            let view = match st {
                SaverType::HomeOwner => self.home_savings@,
                SaverType::Renter => self.rental_savings@,
            };
            assert(view.map_values(|v: i64| v as int) =~= traj0);
            assert(self.sim() == s0);
        }
        self.current_age = self.current_age + 1;
        while self.current_age < death_age && self.total_savings > 0
            invariant
                self.wf(),
                death_age as int <= DEATH as int,
                self.current_age as int <= DEATH as int,
                self.interest_rates@ == old(self).interest_rates@,
                self.inflation_rates@ == old(self).inflation_rates@,
                self.mortgage_term == old(self).mortgage_term,
                st is HomeOwner ==> self.cached_mortgage_installment is Some
                    && self.rental_savings@ == old(self).rental_savings@
                    && self.home_savings@.len() == DEATH as int,
                st is Renter ==> self.cached_mortgage_installment
                    == old(self).cached_mortgage_installment
                    && self.home_savings@ == old(self).home_savings@
                    && self.rental_savings@.len() == DEATH as int,
                target == s_run(
                    self.sim(),
                    old(self).interest_rates@,
                    old(self).inflation_rates@,
                    (match st {
                        SaverType::HomeOwner => self.home_savings@,
                        SaverType::Renter => self.rental_savings@,
                    }).map_values(|v: i64| v as int),
                    death_age as int,
                ),
            decreases death_age as int - self.current_age as int,
        {
            let ghost pre = self.sim();
            let ghost pre_view = (match st {
                SaverType::HomeOwner => self.home_savings@,
                SaverType::Renter => self.rental_savings@,
            }).map_values(|v: i64| v as int);
            self.active_retirement = self.current_age >= self.retirement_age;
            self.apply_annual_changes(&st);
            proof {
                let s0 = SimState { retired: pre.age >= pre.retirement_age, ..pre };
                let s1 = s_year(
                    s0,
                    old(self).interest_rates@[pre.age] as int,
                    old(self).inflation_rates@[pre.age] as int,
                );
                assert(self.sim() == s1);
                let post_view = (match st {
                    SaverType::HomeOwner => self.home_savings@,
                    SaverType::Renter => self.rental_savings@,
                }).map_values(|v: i64| v as int);
                assert(post_view =~= pre_view.update(pre.age, s1.savings));
            }
            self.current_age = self.current_age + 1;
        }
        proof {
            let view = (match st {
                SaverType::HomeOwner => self.home_savings@,
                SaverType::Renter => self.rental_savings@,
            }).map_values(|v: i64| v as int);
            assert(target == (self.sim(), view));
        }
        let out: Vec<i64> = match st {
            SaverType::HomeOwner => {
                self.cached_mortgage_installment = None;
                copy_vec(&self.home_savings)
            },
            SaverType::Renter => copy_vec(&self.rental_savings),
        };
        out
    }
}

/// Re-simulation is idempotent: two configurations in the same scalar
/// state, with the same rate tables and mortgage term, produce identical
/// final states and identical trajectories — the run reads nothing else,
/// and in particular nothing left over from earlier runs.
pub proof fn lemma_simulation_deterministic(a: Saver, b: Saver, sty: SaverType, death: int)
    requires
        a.sim() == b.sim(),
        a.interest_rates@ == b.interest_rates@,
        a.inflation_rates@ == b.inflation_rates@,
        a.mortgage_term == b.mortgage_term,
    ensures
        s_calculate(a, sty, death) == s_calculate(b, sty, death),
{
    assert(s_setup(a, sty) == s_setup(b, sty));
}

/// The run never touches trajectory entries below its starting age.
pub proof fn lemma_run_preserves_low(
    s: SimState,
    irates: Seq<i64>,
    frates: Seq<i64>,
    traj: Seq<int>,
    death: int,
    idx: int,
)
    requires
        idx < s.age,
        0 <= idx < traj.len(),
        traj.len() == DEATH as int,
        death <= DEATH as int,
    ensures
        s_run(s, irates, frates, traj, death).1.len() == traj.len(),
        s_run(s, irates, frates, traj, death).1[idx] == traj[idx],
    decreases death - s.age,
{
    if s.age >= death || s.savings <= 0 {
    } else {
        let s0 = SimState { retired: s.age >= s.retirement_age, ..s };
        let s1 = s_year(s0, irates[s.age] as int, frates[s.age] as int);
        lemma_run_preserves_low(
            SimState { age: s.age + 1, ..s1 },
            irates,
            frates,
            traj.update(s.age, s1.savings),
            death,
            idx,
        );
    }
}

/// If every trajectory entry from the run's starting age on is still zero,
/// then in the finished trajectory a zero entry at or after that age is
/// followed only by zero entries: once a year is recorded as zero the run
/// has stopped, and nothing after it is ever written.
pub proof fn lemma_run_zero_persists(
    s: SimState,
    irates: Seq<i64>,
    frates: Seq<i64>,
    traj: Seq<int>,
    death: int,
)
    requires
        traj.len() == DEATH as int,
        0 <= s.age,
        death <= DEATH as int,
        forall|idx: int| s.age <= idx < DEATH as int ==> traj[idx] == 0,
    ensures
        ({
            let out = s_run(s, irates, frates, traj, death).1;
            &&& out.len() == DEATH as int
            &&& forall|i: int, j: int|
                s.age <= i <= j < DEATH as int && out[i] == 0 ==> out[j] == 0
        }),
    decreases death - s.age,
{
    let out = s_run(s, irates, frates, traj, death).1;
    if s.age >= death || s.savings <= 0 {
        assert(out == traj);
    } else {
        let s0 = SimState { retired: s.age >= s.retirement_age, ..s };
        let s1 = s_year(s0, irates[s.age] as int, frates[s.age] as int);
        let snext = SimState { age: s.age + 1, ..s1 };
        let tnext = traj.update(s.age, s1.savings);
        lemma_run_zero_persists(snext, irates, frates, tnext, death);
        if s.age < DEATH as int {
            lemma_run_preserves_low(snext, irates, frates, tnext, death, s.age);
            assert(out[s.age] == s1.savings);
        }
        assert forall|i: int, j: int|
            s.age <= i <= j < DEATH as int && out[i] == 0 implies out[j] == 0 by {
            if i == s.age {
                if out[i] == 0 {
                    assert(s1.savings == 0);
                    assert(snext.savings <= 0);
                    assert(s_run(snext, irates, frates, tnext, death).1 == tnext);
                    if j > i {
                        assert(out[j] == tnext[j]);
                    }
                }
            }
        }
    }
}

/// Once a simulated year is recorded as zero, every later entry of that
/// run's trajectory is zero as well.
pub proof fn lemma_depletion_persists(s: Saver, sty: SaverType, death: int)
    requires
        s.wf(),
        (s.current_age as int) < DEATH as int,
        death <= DEATH as int,
    ensures
        ({
            let traj = s_calculate(s, sty, death).1;
            &&& traj.len() == DEATH as int
            &&& forall|i: int, j: int|
                s.current_age as int <= i <= j < DEATH as int && traj[i] == 0 ==> traj[j] == 0
        }),
{
    let s0 = s_setup(s, sty);
    let traj0 = s_zero_traj().update(s0.age, s0.savings);
    let srun = SimState { age: s0.age + 1, ..s0 };
    let out = s_run(srun, s.interest_rates@, s.inflation_rates@, traj0, death);
    lemma_run_zero_persists(srun, s.interest_rates@, s.inflation_rates@, traj0, death);
    lemma_run_preserves_low(srun, s.interest_rates@, s.inflation_rates@, traj0, death, s0.age);
    assert(out.1[s0.age] == s0.savings);
    assert forall|i: int, j: int|
        s.current_age as int <= i <= j < DEATH as int && out.1[i] == 0 implies out.1[j] == 0 by {
        if i == s0.age {
            if out.1[i] == 0 {
                assert(s0.savings == 0);
                assert(srun.savings <= 0);
                assert(out.1 == traj0);
            }
        }
    }
}

/// Two states that agree on everything but the mortgage-free marker. The
/// marker is write-only bookkeeping: no computation reads it, so states
/// related this way evolve in lockstep.
pub open spec fn eq_mod_owned(a: SimState, b: SimState) -> bool {
    (SimState { owned_age: b.owned_age, ..a }) == b
}

proof fn lemma_month_eq_mod_owned(a: SimState, b: SimState, ir: int, fr: int)
    requires
        eq_mod_owned(a, b),
    ensures
        eq_mod_owned(s_month(a, ir, fr).0, s_month(b, ir, fr).0),
        s_month(a, ir, fr).1 == s_month(b, ir, fr).1,
{
}

proof fn lemma_months_eq_mod_owned(a: SimState, b: SimState, ir: int, fr: int, n: nat)
    requires
        eq_mod_owned(a, b),
    ensures
        eq_mod_owned(s_months(a, ir, fr, n), s_months(b, ir, fr, n)),
    decreases n,
{
    if n > 0 {
        lemma_month_eq_mod_owned(a, b, ir, fr);
        if s_month(a, ir, fr).1 {
            lemma_months_eq_mod_owned(s_month(a, ir, fr).0, s_month(b, ir, fr).0, ir, fr,
                (n - 1) as nat);
        }
    }
}

proof fn lemma_run_eq_mod_owned(
    a: SimState,
    b: SimState,
    irates: Seq<i64>,
    frates: Seq<i64>,
    traj: Seq<int>,
    death: int,
)
    requires
        eq_mod_owned(a, b),
    ensures
        s_run(a, irates, frates, traj, death).1 == s_run(b, irates, frates, traj, death).1,
        eq_mod_owned(s_run(a, irates, frates, traj, death).0, s_run(
            b,
            irates,
            frates,
            traj,
            death,
        ).0),
    decreases death - a.age,
{
    if a.age >= death || a.savings <= 0 {
    } else {
        let a0 = SimState { retired: a.age >= a.retirement_age, ..a };
        let b0 = SimState { retired: b.age >= b.retirement_age, ..b };
        lemma_months_eq_mod_owned(a0, b0, irates[a.age] as int, frates[a.age] as int, 12);
        let a1 = s_year(a0, irates[a.age] as int, frates[a.age] as int);
        let b1 = s_year(b0, irates[b.age] as int, frates[b.age] as int);
        lemma_run_eq_mod_owned(
            SimState { age: a.age + 1, ..a1 },
            SimState { age: b.age + 1, ..b1 },
            irates,
            frates,
            traj.update(a.age, a1.savings),
            death,
        );
    }
}

/// A renting configuration with the same income, expenses, rent and
/// baselines as an owning configuration whose home value and mortgage debt
/// are both zero (zero net equity) at a zero mortgage rate produces exactly
/// the same trajectory: all housing cash flows vanish on both sides.
pub proof fn lemma_renter_owner_equivalence(o: Saver, r: Saver, death: int)
    requires
        o.wf(),
        r.wf(),
        o.home_value == 0,
        o.mortgage_debt == 0,
        o.mortgage_rate == 0,
        r.home_value == 0,
        r.mortgage_debt == 0,
        r.mortgage_rate == 0,
        r.cached_mortgage_installment is None,
        o.current_age == r.current_age,
        o.retirement_age == r.retirement_age,
        o.total_savings == r.total_savings,
        o.monthly_income == r.monthly_income,
        o.monthly_expenses == r.monthly_expenses,
        o.monthly_rent == r.monthly_rent,
        o.min_baseline_retirement_income == r.min_baseline_retirement_income,
        o.max_baseline_retirement_income == r.max_baseline_retirement_income,
        o.home_expenses == r.home_expenses,
        o.active_retirement == r.active_retirement,
        o.interest_rates@ == r.interest_rates@,
        o.inflation_rates@ == r.inflation_rates@,
    ensures
        s_calculate(o, SaverType::HomeOwner, death).1 == s_calculate(
            r,
            SaverType::Renter,
            death,
        ).1,
{
    let so = s_setup(o, SaverType::HomeOwner);
    let sr = s_setup(r, SaverType::Renter);
    assert(crate::owner::s_installment(0, 0, o.mortgage_term as int) == 0) by {
        let tm = o.mortgage_term as int * 12;
        assert(s_div_trunc(0, 12) == 0);
        if tm != 0 {
            vstd::arithmetic::div_mod::lemma_div_basics_5(0, tm);
        }
    }
    assert(so.installment == 0);
    assert(sr.installment == 0);
    assert(eq_mod_owned(SimState { age: so.age + 1, ..so }, SimState { age: sr.age + 1, ..sr }));
    lemma_run_eq_mod_owned(
        SimState { age: so.age + 1, ..so },
        SimState { age: sr.age + 1, ..sr },
        o.interest_rates@,
        o.inflation_rates@,
        s_zero_traj().update(so.age, so.savings),
        death,
    );
}

/// With the two baseline retirement incomes pinned to one value and
/// positive liquid assets, the monthly withdrawal is exactly that value
/// (as a negative cash flow), whatever the 4% standard amount works out to:
/// the three policy branches are exhaustive and each returns the pin.
pub proof fn lemma_withdrawal_pinned(s: SimState)
    requires
        s.min_baseline == s.max_baseline,
        s_liquid(s) > 0,
    ensures
        s_withdrawal(s) == -s.min_baseline,
{
}

} // verus!
