use homesim::consts::DEATH;
use homesim::saver::{Saver, SaverType};

fn zero_rates() -> Vec<i64> {
    vec![0; DEATH]
}

fn base_saver(interest: Vec<i64>, inflation: Vec<i64>) -> Saver {
    Saver {
        current_age: 10,
        retirement_age: 65,
        total_savings: 10_000_000,
        monthly_income: 1_000_000,
        monthly_expenses: 500_000,
        home_value: 1_000_000,
        monthly_rent: 0,
        mortgage_debt: 0,
        mortgage_rate: 0,
        mortgage_term: 0,
        min_baseline_retirement_income: 500_000,
        max_baseline_retirement_income: 1_000_000,
        interest_rates: interest,
        inflation_rates: inflation,
        home_savings: vec![0; DEATH],
        rental_savings: vec![0; DEATH],
        active_retirement: false,
        home_owned_age: None,
        cached_mortgage_installment: None,
        home_expenses: 0,
    }
}

// A cash-flow-positive owner household over flat zero rate tables: the
// trajectory holds zeros before the starting age, the starting savings at
// the starting age, then grows by the exact monthly surplus (income minus
// expenses minus property tax) until retirement, after which the capped
// withdrawal draws it down without ever depleting it.
#[test]
fn test_saver_with_zero_mortgage() {
    let mut s = base_saver(zero_rates(), zero_rates());
    assert!(s.is_well_formed());
    let traj = s.calculate_savings(SaverType::HomeOwner, DEATH as u8);
    assert_eq!(traj.len(), DEATH);
    for age in 0..10 {
        assert_eq!(traj[age], 0);
    }
    assert_eq!(traj[10], 10_000_000);
    // monthly surplus: 1_000_000 - (500_000 + 833 property tax) = 499_167
    assert_eq!(traj[11], 10_000_000 + 12 * 499_167);
    assert_eq!(traj[12], 10_000_000 + 24 * 499_167);
    assert_eq!(traj[64], 333_460_216);
    // retired: liquid assets exceed the cap's threshold, so the maximum
    // baseline (1_000_000 a month) plus property tax is drawn each month
    assert_eq!(traj[65], 333_460_216 - 12 * (1_000_000 + 833));
    assert_eq!(traj[99], 60_751_104);
    for age in 11..DEATH {
        assert!(traj[age] > 0);
    }
    for age in 11..64 {
        assert!(traj[age] < traj[age + 1]);
    }
}

// Zero-rate mortgage: the installment is the exact straight-line split.
#[test]
fn test_installment_straight_line() {
    let mut s = base_saver(zero_rates(), zero_rates());
    s.mortgage_debt = 36_000_000;
    s.mortgage_rate = 0;
    s.mortgage_term = 30;
    assert_eq!(s.mortgage_installments(), 100_000);
}

// Amortization formula: debt 100,000.00 at 12% a year over one year; the
// fixed-point factor (1.01)^12 truncates to 1.126822, giving this exact
// installment.
#[test]
fn test_installment_formula() {
    let mut s = base_saver(zero_rates(), zero_rates());
    s.mortgage_debt = 10_000_000;
    s.mortgage_rate = 120_000;
    s.mortgage_term = 1;
    assert_eq!(s.mortgage_installments(), 888_506);
}

// A mortgage with no months to pay over has no installment.
#[test]
fn test_installment_zero_term() {
    let mut s = base_saver(zero_rates(), zero_rates());
    s.mortgage_debt = 5_000_000;
    s.mortgage_rate = 50_000;
    s.mortgage_term = 0;
    assert_eq!(s.mortgage_installments(), 0);
}

// The withdrawal policy: the 4% standard monthly amount when it lies
// between the baselines, and each baseline when it does not.
#[test]
fn test_withdrawal_standard_rate() {
    let mut s = base_saver(zero_rates(), zero_rates());
    s.total_savings = 3_000_000;
    s.home_value = 0;
    s.min_baseline_retirement_income = 5_000;
    s.max_baseline_retirement_income = 20_000;
    // 3_000_000 * 3333 / 1_000_000 = 9999
    assert_eq!(s.monthly_withdrawal(), -9_999);
}

#[test]
fn test_withdrawal_pinned_baselines() {
    let mut s = base_saver(zero_rates(), zero_rates());
    s.home_value = 0;
    s.min_baseline_retirement_income = 77_700;
    s.max_baseline_retirement_income = 77_700;
    // standard amount below the pin: the minimum floor wins
    s.total_savings = 10_000_000;
    assert_eq!(s.monthly_withdrawal(), -77_700);
    // standard amount above the pin: the maximum cap wins
    s.total_savings = 100_000_000;
    assert_eq!(s.monthly_withdrawal(), -77_700);
}

#[test]
fn test_withdrawal_zero_liquid() {
    let mut s = base_saver(zero_rates(), zero_rates());
    s.total_savings = 1_000;
    s.home_value = 5_000;
    assert_eq!(s.liquid_assets(), 0);
    assert_eq!(s.monthly_withdrawal(), 0);
}

// Liquid assets exclude home equity and never go negative.
#[test]
fn test_liquid_assets() {
    let mut s = base_saver(zero_rates(), zero_rates());
    s.total_savings = 10_000_000;
    s.home_value = 4_000_000;
    s.mortgage_debt = 1_000_000;
    assert_eq!(s.liquid_assets(), 7_000_000);
    s.total_savings = 2_000_000;
    assert_eq!(s.liquid_assets(), 0);
}

// A household whose month-end balance cannot clear its home equity is
// depleted in its first simulated year; every entry from then on stays
// zero.
#[test]
fn test_depletion_pins_trajectory_at_zero() {
    let mut s = base_saver(zero_rates(), zero_rates());
    s.current_age = 40;
    s.total_savings = 2_000_000;
    s.monthly_income = 0;
    s.monthly_expenses = 100_000;
    s.home_value = 5_000_000;
    let traj = s.calculate_savings(SaverType::HomeOwner, DEATH as u8);
    assert_eq!(traj[40], 2_000_000);
    for age in 41..DEATH {
        assert_eq!(traj[age], 0);
    }
}

fn varied_rates() -> (Vec<i64>, Vec<i64>) {
    let mut interest: Vec<i64> = Vec::new();
    let mut inflation: Vec<i64> = Vec::new();
    for i in 0..DEATH as i64 {
        interest.push((i * 7_919) % 100_000 - 50_000);
        inflation.push((i * 104_729) % 40_000 - 5_000);
    }
    (interest, inflation)
}

// Identical configuration and identical rate tables give bit-identical
// trajectories on repeated runs.
#[test]
fn test_idempotent_simulation() {
    let (ir, fr) = varied_rates();
    let mut a = base_saver(ir.clone(), fr.clone());
    let mut b = base_saver(ir, fr);
    let ta = a.calculate_savings(SaverType::HomeOwner, DEATH as u8);
    let tb = b.calculate_savings(SaverType::HomeOwner, DEATH as u8);
    assert_eq!(ta, tb);
}

// A renter with zero rent and an owner with zero home value, zero debt and
// a zero mortgage rate face the same cash flows month by month, so their
// trajectories agree exactly, even over varying rates.
#[test]
fn test_renter_matches_equityless_owner() {
    let (ir, fr) = varied_rates();
    let mut owner = base_saver(ir.clone(), fr.clone());
    owner.current_age = 30;
    owner.total_savings = 20_000_000;
    owner.monthly_income = 600_000;
    owner.monthly_expenses = 300_000;
    owner.home_value = 0;
    owner.min_baseline_retirement_income = 300_000;
    owner.max_baseline_retirement_income = 800_000;
    let mut renter = base_saver(ir, fr);
    renter.current_age = 30;
    renter.total_savings = 20_000_000;
    renter.monthly_income = 600_000;
    renter.monthly_expenses = 300_000;
    renter.home_value = 0;
    renter.min_baseline_retirement_income = 300_000;
    renter.max_baseline_retirement_income = 800_000;
    let to = owner.calculate_savings(SaverType::HomeOwner, DEATH as u8);
    let tr = renter.calculate_savings(SaverType::Renter, DEATH as u8);
    assert_eq!(to, tr);
    assert_eq!(to[31], 23_505_412);
}

// The mortgage-free marker: immediately set when there is no debt, left
// unset while debt remains.
#[test]
fn test_home_owned_age_marker() {
    let mut s = base_saver(zero_rates(), zero_rates());
    s.calculate_savings(SaverType::HomeOwner, DEATH as u8);
    assert_eq!(s.home_owned_age, Some(10));
}

// A one-year zero-rate mortgage is amortized away during the first
// simulated year; the marker records the first age that starts without
// debt.
#[test]
fn test_mortgage_payoff_sets_marker() {
    let mut s = base_saver(zero_rates(), zero_rates());
    s.current_age = 30;
    s.mortgage_debt = 1_200_000;
    s.mortgage_rate = 0;
    s.mortgage_term = 1;
    let with_mortgage = s.calculate_savings(SaverType::HomeOwner, DEATH as u8);
    assert_eq!(s.home_owned_age, Some(32));
    assert_eq!(s.mortgage_debt, 0);
    // only mortgage interest is an expense; the principal comes out of the
    // debt, so at a zero rate the savings match the mortgage-free household
    let mut free = base_saver(zero_rates(), zero_rates());
    free.current_age = 30;
    let without = free.calculate_savings(SaverType::HomeOwner, DEATH as u8);
    assert_eq!(with_mortgage[31], without[31]);
}

// Amounts saturate at the representable cap instead of overflowing: a
// household already at the cap with cap-sized income stays exactly there.
#[test]
fn test_saturation_at_money_cap() {
    let cap: i64 = 1_000_000_000_000_000;
    let mut s = base_saver(zero_rates(), zero_rates());
    s.retirement_age = 100;
    s.total_savings = cap;
    s.monthly_income = cap;
    s.monthly_expenses = 0;
    s.home_value = 0;
    let traj = s.calculate_savings(SaverType::HomeOwner, DEATH as u8);
    for age in 10..DEATH {
        assert_eq!(traj[age], cap);
    }
}
