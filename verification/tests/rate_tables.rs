use homesim::consts::DEATH;
use homesim::rates::new_rates;

fn bracket_low(age: usize) -> i64 {
    if age <= 35 {
        -75_000
    } else if age <= 49 {
        -50_000
    } else if age <= 64 {
        -35_000
    } else if age <= 80 {
        -20_000
    } else {
        -5_000
    }
}

fn bracket_high(age: usize) -> i64 {
    if age <= 35 {
        200_000
    } else if age <= 49 {
        175_000
    } else if age <= 64 {
        150_000
    } else if age <= 80 {
        125_000
    } else {
        100_000
    }
}

// Every generated entry respects its documented range: inflation within the
// two summed uniform draws, interest within its age bracket shifted by half
// that age's own inflation draw. Checked over several fresh tables so the
// bracket boundaries at ages 35/36, 49/50, 64/65 and 80/81 are all hit.
#[test]
fn test_rates_within_brackets() {
    for _ in 0..5 {
        let (interest, inflation) = new_rates();
        assert_eq!(interest.len(), DEATH);
        assert_eq!(inflation.len(), DEATH);
        for age in 0..DEATH {
            let infl = inflation[age];
            assert!((-5_000..50_000).contains(&infl));
            let half = infl / 2;
            assert!(interest[age] >= bracket_low(age) + half);
            assert!(interest[age] < bracket_high(age) + half);
        }
    }
}

// The draws really vary: a generator that returned a fixed point of its
// range would make every entry equal.
#[test]
fn test_rates_are_not_constant() {
    let (interest, inflation) = new_rates();
    assert!(interest.iter().any(|&v| v != interest[0]));
    assert!(inflation.iter().any(|&v| v != inflation[0]));
}

// Two fresh tables are independent draws: over a hundred ages of a
// continuous range, two runs never coincide entry for entry.
#[test]
fn test_rates_fresh_per_call() {
    let (i1, f1) = new_rates();
    let (i2, f2) = new_rates();
    assert!(i1 != i2 || f1 != f2);
}
