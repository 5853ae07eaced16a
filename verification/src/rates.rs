//! Monte-Carlo generation of the age-indexed annual rate tables.
//!
//! For every age the inflation rate is the sum of two independent uniform
//! draws, and the interest rate is drawn from an age-bracket range shifted
//! by half of that age's own inflation draw — a risk glide path whose
//! dispersion narrows with age.

use vstd::prelude::*;

use crate::arith::{div_trunc, s_div_trunc};
use crate::consts::{DEATH, RATE_SCALE};
use crate::saver::rate_seq_ok;

verus! {

/// Low end (ppm) of the interest bracket for an age, before the shift by
/// half the inflation draw.
pub open spec fn s_bracket_low(age: int) -> int {
    if age <= 35 {
        -75_000
    } else if age <= 49 {
        -50_000
    } else if age <= 64 {
        -35_000
    } else if age <= 80 {
        -20_000
    } else {
        -5_000
    }
}

/// High end (ppm) of the interest bracket for an age, before the shift by
/// half the inflation draw.
pub open spec fn s_bracket_high(age: int) -> int {
    if age <= 35 {
        200_000
    } else if age <= 49 {
        175_000
    } else if age <= 64 {
        150_000
    } else if age <= 80 {
        125_000
    } else {
        100_000
    }
}

/// Every inflation entry lies in the range the two summed draws allow.
pub open spec fn inflation_in_range(inflation: Seq<i64>) -> bool {
    forall|a: int| 0 <= a < inflation.len() ==> -5_000 <= #[trigger] inflation[a] < 50_000
}

/// Every interest entry lies within its age bracket's bounds, both shifted
/// by half of that age's own inflation entry.
pub open spec fn interest_in_brackets(interest: Seq<i64>, inflation: Seq<i64>) -> bool {
    forall|a: int|
        0 <= a < interest.len() ==> {
            &&& s_bracket_low(a) + s_div_trunc(inflation[a] as int, 2) <= (
            #[trigger] interest[a]) as int
            &&& (interest[a] as int) < s_bracket_high(a) + s_div_trunc(inflation[a] as int, 2)
        }
}

/// Relies on rand's `Rng::gen_range` on the thread-local generator from
/// `rand::thread_rng`: for a non-empty half-open integer range `lo..hi` it
/// returns a value in `[lo, hi)` and panics only on an empty range. Nothing
/// is assumed about which value of the range comes back.
#[verifier::external_body]
fn random_in_range(lo: i64, hi: i64) -> (r: i64)
    requires
        lo < hi,
    ensures
        lo <= r < hi,
{
    rand::Rng::gen_range(&mut rand::thread_rng(), lo..hi)
}

fn bracket_low(age: usize) -> (r: i64)
    ensures
        r as int == s_bracket_low(age as int),
{
    if age <= 35 {
        -75_000
    } else if age <= 49 {
        -50_000
    } else if age <= 64 {
        -35_000
    } else if age <= 80 {
        -20_000
    } else {
        -5_000
    }
}

fn bracket_high(age: usize) -> (r: i64)
    ensures
        r as int == s_bracket_high(age as int),
{
    if age <= 35 {
        200_000
    } else if age <= 49 {
        175_000
    } else if age <= 64 {
        150_000
    } else if age <= 80 {
        125_000
    } else {
        100_000
    }
}

/// Generate a fresh pair of rate tables `(interest, inflation)`, one annual
/// ppm rate per age over the whole horizon.
///
/// Inflation is `U(-0.005, 0.04) + U(0, 0.01)` per age; interest is drawn
/// from the age bracket's range, both ends shifted by half the age's own
/// inflation draw.
pub fn new_rates() -> (r: (Vec<i64>, Vec<i64>))
    ensures
        r.0@.len() == DEATH as int,
        r.1@.len() == DEATH as int,
        inflation_in_range(r.1@),
        interest_in_brackets(r.0@, r.1@),
        rate_seq_ok(r.0@),
        rate_seq_ok(r.1@),
{
    let mut inflation: Vec<i64> = Vec::new();
    let mut i: usize = 0;
    while i < DEATH
        invariant
            0 <= i <= DEATH,
            inflation@.len() == i as int,
            inflation_in_range(inflation@),
        decreases DEATH - i,
    {
        let a: i64 = random_in_range(-5_000, 40_000);
        let b: i64 = random_in_range(0, 10_000);
        inflation.push(a + b);
        i += 1;
    }
    let mut interest: Vec<i64> = Vec::new();
    let mut j: usize = 0;
    while j < DEATH
        invariant
            0 <= j <= DEATH,
            inflation@.len() == DEATH as int,
            inflation_in_range(inflation@),
            interest@.len() == j as int,
            interest_in_brackets(interest@, inflation@),
        decreases DEATH - j,
    {
        let infl: i64 = inflation[j];
        let half: i64 = div_trunc(infl, 2);
        let lo: i64 = bracket_low(j) + half;
        let hi: i64 = bracket_high(j) + half;
        proof {
            crate::arith::lemma_div_trunc_abs_le(infl as int, 2);
        }
        interest.push(random_in_range(lo, hi));
        j += 1;
    }
    (interest, inflation)
}

} // verus!
