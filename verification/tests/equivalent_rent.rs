use homesim::consts::DEATH;
use homesim::saver::{Saver, SaverType};
use homesim::solver::find_equivalent_rent;

fn renter_config(rent: i64) -> Saver {
    Saver {
        current_age: 30,
        retirement_age: 65,
        total_savings: 20_000_000,
        monthly_income: 600_000,
        monthly_expenses: 300_000,
        home_value: 0,
        monthly_rent: rent,
        mortgage_debt: 0,
        mortgage_rate: 0,
        mortgage_term: 0,
        min_baseline_retirement_income: 300_000,
        max_baseline_retirement_income: 800_000,
        interest_rates: vec![0; DEATH],
        inflation_rates: vec![0; DEATH],
        home_savings: vec![0; DEATH],
        rental_savings: vec![0; DEATH],
        active_retirement: false,
        home_owned_age: None,
        cached_mortgage_installment: None,
        home_expenses: 0,
    }
}

// A uniformly zero target: the reference age resolves to index 0, the
// renter trajectory's entry there is the untouched zero, and the search
// stops on its first comparison with the rent unchanged — one iteration,
// nowhere near the thousand-iteration cap.
#[test]
fn test_solver_zero_target_stops_immediately() {
    let base = renter_config(50_000);
    let target: Vec<i64> = vec![0; DEATH];
    let (rent, traj) = find_equivalent_rent(&base, &target, DEATH as u8);
    assert_eq!(rent, 50_000);
    let mut direct = renter_config(50_000);
    let expected = direct.calculate_savings(SaverType::Renter, DEATH as u8);
    assert_eq!(traj, expected);
}

// An unreachable target far below the renter's savings: the renter always
// over-saves, so the rent is stepped down by a tenth of a unit per
// iteration until it crosses the floor, where the search stops.
#[test]
fn test_solver_walks_down_to_floor() {
    let base = renter_config(15_000);
    let mut target: Vec<i64> = vec![-1; DEATH];
    target[31] = 5;
    target[DEATH - 1] = -1_000_000_000;
    let (rent, _) = find_equivalent_rent(&base, &target, DEATH as u8);
    // 15_000 falls by 10 per iteration; the first value below the
    // 10_000-cent floor is where the search halts.
    assert_eq!(rent, 9_990);
}

// An unreachable target far above the renter's savings: the renter always
// under-saves, the rent is stepped up every iteration, and the cap of a
// thousand iterations bounds the search.
#[test]
fn test_solver_iteration_cap() {
    let base = renter_config(20_000);
    let mut target: Vec<i64> = vec![-1; DEATH];
    target[31] = 5;
    target[DEATH - 1] = 100_000_000_000_000;
    let (rent, _) = find_equivalent_rent(&base, &target, DEATH as u8);
    assert_eq!(rent, 20_000 + 10 * 1_000);
}

// A reachable target: the renter's own trajectory as the target stops
// within tolerance without any adjustment once the reference value and the
// terminal value agree closely enough.
#[test]
fn test_solver_tolerance_stop() {
    let mut probe = renter_config(40_000);
    let traj = probe.calculate_savings(SaverType::Renter, DEATH as u8);
    let mut target: Vec<i64> = vec![-1; DEATH];
    target[31] = traj[31];
    target[DEATH - 1] = traj[31] + 5_000;
    let base = renter_config(40_000);
    let (rent, _) = find_equivalent_rent(&base, &target, DEATH as u8);
    assert_eq!(rent, 40_000);
}
