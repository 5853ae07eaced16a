use vstd::prelude::*;

verus! {

/// Exclusive upper bound on simulated ages: the fixed simulation horizon.
pub const DEATH: usize = 100;

/// Rates are stored as annual fractions scaled by this factor (parts per million).
pub const RATE_SCALE: i64 = 1_000_000;

/// Money is stored in cents: one currency unit is this many stored units.
pub const MONEY_SCALE: i64 = 100;

/// All stored money amounts are clamped into [-MONEY_CAP, MONEY_CAP].
pub const MONEY_CAP: i64 = 1_000_000_000_000_000;

/// The compounding factor (1 + r)^n is clamped at this value (scaled by RATE_SCALE).
pub const POW_CAP: i64 = 1_000_000_000_000_000;

/// Property tax: 1% of the home value per year, charged monthly (ppm per month).
pub const PROPERTY_TAX_MONTHLY_PPM: i64 = 833;

/// Standard retirement withdrawal: 4% of liquid assets per year, drawn monthly
/// (ppm of liquid assets per month).
pub const STD_MONTHLY_WITHDRAWAL_RATE_PPM: i64 = 3_333;

} // verus!
