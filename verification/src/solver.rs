//! The equivalent-rent calibration search.
//!
//! Starting from a renting configuration, the solver repeatedly re-runs the
//! renter simulation, comparing the renter trajectory's value at a reference
//! age against the target (owner) trajectory's terminal value, and nudging
//! the rent by a fixed step: up while the renter is under-saving relative to
//! the target, down while over-saving. It stops once the difference falls
//! below a fixed tolerance, once the rent falls below a fixed floor, or
//! after a fixed number of iterations — a bounded best-effort search, not a
//! guaranteed convergence.

use vstd::prelude::*;

use crate::arith::{clamp_money, s_clamp};
use crate::consts::{DEATH, MONEY_CAP};
use crate::saver::{copy_vec, lemma_simulation_deterministic, s_calculate, zero_vec,
    Saver, SaverType, SimState};

verus! {

/// Stop once the renter value is within this of the target (cents).
pub const RENT_TOLERANCE: i64 = 10_000;

/// Never adjust a rent that has fallen below this floor (cents).
pub const RENT_FLOOR: i64 = 10_000;

/// The fixed adjustment step (cents).
pub const RENT_STEP: i64 = 10;

/// The iteration cap of the search.
pub const MAX_SOLVER_STEPS: usize = 1000;

/// The earliest index at or after `i` holding a non-negative entry, or 0 if
/// there is none.
pub open spec fn s_ref_index_from(t: Seq<i64>, i: int) -> int
    decreases t.len() - i,
{
    if i < 0 || i >= t.len() {
        0
    } else if t[i] >= 0 {
        i
    } else {
        s_ref_index_from(t, i + 1)
    }
}

/// The reference age of a target trajectory: the earliest index with a
/// non-negative entry (0 if none).
pub open spec fn s_ref_index(t: Seq<i64>) -> int {
    s_ref_index_from(t, 0)
}

/// The renter trajectory entry at the reference index, for a base
/// configuration simulated with the given rent.
pub open spec fn s_renter_value(base: Saver, rent: int, ref_i: int, death: int) -> int {
    s_calculate(
        Saver { monthly_rent: rent as i64, ..base },
        SaverType::Renter,
        death,
    ).1[ref_i]
}

/// The calibration loop: returns the final rent and the rent whose
/// simulation was the last one run (they differ only when the iteration cap
/// is exhausted right after an adjustment).
pub open spec fn s_solve(
    base: Saver,
    rent: int,
    terminal: int,
    ref_i: int,
    death: int,
    fuel: nat,
) -> (int, int)
    decreases fuel,
{
    if fuel == 0 {
        (rent, rent)
    } else {
        let v = s_renter_value(base, rent, ref_i, death);
        let diff = if v >= terminal {
            v - terminal
        } else {
            terminal - v
        };
        if diff < RENT_TOLERANCE as int || rent < RENT_FLOOR as int {
            (rent, rent)
        } else {
            let next = if v < terminal {
                s_clamp(rent + RENT_STEP as int)
            } else {
                s_clamp(rent - RENT_STEP as int)
            };
            if fuel == 1 {
                (next, rent)
            } else {
                s_solve(base, next, terminal, ref_i, death, (fuel - 1) as nat)
            }
        }
    }
}

/// A fresh copy of a base configuration with the rent replaced and both
/// trajectories reset.
fn with_rent(base: &Saver, rent: i64) -> (s: Saver)
    requires
        base.wf(),
        0 <= rent <= MONEY_CAP,
    ensures
        s.wf(),
        s.sim() == (SimState { rent: rent as int, ..base.sim() }),
        s.interest_rates@ == base.interest_rates@,
        s.inflation_rates@ == base.inflation_rates@,
        s.mortgage_term == base.mortgage_term,
        s.current_age == base.current_age,
{
    Saver {
        current_age: base.current_age,
        retirement_age: base.retirement_age,
        total_savings: base.total_savings,
        monthly_income: base.monthly_income,
        monthly_expenses: base.monthly_expenses,
        home_value: base.home_value,
        monthly_rent: rent,
        mortgage_debt: base.mortgage_debt,
        mortgage_rate: base.mortgage_rate,
        mortgage_term: base.mortgage_term,
        min_baseline_retirement_income: base.min_baseline_retirement_income,
        max_baseline_retirement_income: base.max_baseline_retirement_income,
        interest_rates: copy_vec(&base.interest_rates),
        inflation_rates: copy_vec(&base.inflation_rates),
        home_savings: zero_vec(),
        rental_savings: zero_vec(),
        active_retirement: base.active_retirement,
        home_owned_age: base.home_owned_age,
        cached_mortgage_installment: base.cached_mortgage_installment,
        home_expenses: base.home_expenses,
    }
}

/// With a uniformly zero target trajectory and a household whose starting
/// age is at least one, the search ends on its very first comparison: the
/// reference age resolves to index 0, the renter trajectory's entry there
/// is the untouched zero, the difference to the zero terminal value is
/// inside the tolerance, and the rent comes back unchanged — one iteration,
/// well inside the cap, with no step toward the floor.
pub proof fn lemma_solver_zero_target(base: Saver, target: Seq<i64>, death: int)
    requires
        base.wf(),
        1 <= base.current_age,
        (base.current_age as int) < DEATH as int,
        death <= DEATH as int,
        target.len() == DEATH as int,
        forall|i: int| 0 <= i < DEATH as int ==> target[i] == 0i64,
    ensures
        s_ref_index(target) == 0,
        s_solve(
            base,
            base.monthly_rent as int,
            target[DEATH as int - 1] as int,
            s_ref_index(target),
            death,
            MAX_SOLVER_STEPS as nat,
        ) == (base.monthly_rent as int, base.monthly_rent as int),
{
    assert(s_ref_index(target) == 0);
    let rent = base.monthly_rent as int;
    let b2 = Saver { monthly_rent: rent as i64, ..base };
    assert(b2 == base);
    let s0 = crate::saver::s_setup(b2, SaverType::Renter);
    let traj0 = crate::saver::s_zero_traj().update(s0.age, s0.savings);
    crate::saver::lemma_run_preserves_low(
        SimState { age: s0.age + 1, ..s0 },
        b2.interest_rates@,
        b2.inflation_rates@,
        traj0,
        death,
        0,
    );
    assert(traj0[0] == 0);
    assert(s_renter_value(base, rent, 0, death) == 0);
}

/// Search for the rent at which the renter trajectory's reference-age value
/// matches the target trajectory's terminal value. Returns the final rent
/// and the renter trajectory of the last simulation run.
pub fn find_equivalent_rent(base: &Saver, target: &Vec<i64>, death_age: u8) -> (res: (
    i64,
    Vec<i64>,
))
    requires
        base.wf(),
        (base.current_age as int) < DEATH as int,
        death_age as int <= DEATH as int,
        target@.len() == DEATH as int,
    ensures
        ({
            let sol = s_solve(
                *base,
                base.monthly_rent as int,
                target@[DEATH as int - 1] as int,
                s_ref_index(target@),
                death_age as int,
                MAX_SOLVER_STEPS as nat,
            );
            &&& res.0 as int == sol.0
            &&& res.1@.map_values(|v: i64| v as int) =~= s_calculate(
                (Saver { monthly_rent: sol.1 as i64, ..*base }),
                SaverType::Renter,
                death_age as int,
            ).1
        }),
{
    let terminal: i64 = target[DEATH - 1];
    let mut ref_i: usize = 0;
    let mut j: usize = 0;
    let mut found: bool = false;
    while j < DEATH && !found
        invariant
            0 <= j <= DEATH,
            target@.len() == DEATH as int,
            !found ==> s_ref_index(target@) == s_ref_index_from(target@, j as int),
            found ==> ref_i as int == s_ref_index(target@) && (ref_i as int) < DEATH as int,
            !found ==> ref_i == 0,
        decreases DEATH - j + (if found { 0int } else { 1int }),
    {
        if target[j] >= 0 {
            ref_i = j;
            found = true;
        } else {
            j += 1;
        }
    }
    let ghost sol = s_solve(
        *base,
        base.monthly_rent as int,
        terminal as int,
        ref_i as int,
        death_age as int,
        MAX_SOLVER_STEPS as nat,
    );
    let mut rent: i64 = base.monthly_rent;
    let mut rs: Vec<i64> = zero_vec();
    let mut k: usize = 0;
    while k < MAX_SOLVER_STEPS
        invariant_except_break
            k < MAX_SOLVER_STEPS ==> sol == s_solve(
                *base,
                rent as int,
                terminal as int,
                ref_i as int,
                death_age as int,
                (MAX_SOLVER_STEPS - k) as nat,
            ),
            k == MAX_SOLVER_STEPS ==> rent as int == sol.0 && rs@.map_values(|v: i64| v as int)
                =~= s_calculate(
                (Saver { monthly_rent: sol.1 as i64, ..*base }),
                SaverType::Renter,
                death_age as int,
            ).1,
        invariant
            0 <= k <= MAX_SOLVER_STEPS,
            0 <= rent <= MONEY_CAP,
            base.wf(),
            (base.current_age as int) < DEATH as int,
            death_age as int <= DEATH as int,
            (ref_i as int) < DEATH as int,
        ensures
            rent as int == sol.0,
            rs@.map_values(|v: i64| v as int) =~= s_calculate(
                (Saver { monthly_rent: sol.1 as i64, ..*base }),
                SaverType::Renter,
                death_age as int,
            ).1,
        decreases MAX_SOLVER_STEPS - k,
    {
        let mut sim_saver: Saver = with_rent(base, rent);
        proof {
            lemma_simulation_deterministic(
                sim_saver,
                Saver { monthly_rent: rent, ..*base },
                SaverType::Renter,
                death_age as int,
            );
        }
        rs = sim_saver.calculate_savings(SaverType::Renter, death_age);
        let v: i64 = rs[ref_i];
        proof {
            assert(rs@.map_values(|x: i64| x as int)[ref_i as int] == v as int);
            assert(v as int == s_renter_value(*base, rent as int, ref_i as int,
                death_age as int));
        }
        let diff: i128 = (v as i128) - (terminal as i128);
        let adiff: i128 = if diff >= 0 {
            diff
        } else {
            -diff
        };
        if adiff < RENT_TOLERANCE as i128 || rent < RENT_FLOOR {
            break ;
        }
        let ghost pre_rent = rent as int;
        if v < terminal {
            rent = clamp_money(rent + RENT_STEP);
        } else {
            rent = clamp_money(rent - RENT_STEP);
        }
        k += 1;
        proof {
            if k == MAX_SOLVER_STEPS {
                assert(sol == (rent as int, pre_rent));
            }
        }
    }
    (rent, rs)
}

} // verus!
