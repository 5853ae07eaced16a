//! Year-by-year projection of a household's liquid savings under two housing
//! strategies (owning with a mortgage, or renting), with a Monte-Carlo rate
//! generator and a calibration search for the rent level at which both
//! strategies end equally well off.
//!
//! All money amounts are fixed-point integers in cents; all rates are annual
//! fractions in parts per million (ppm).

pub mod arith;
pub mod consts;
pub mod owner;
pub mod rates;
pub mod saver;
pub mod solver;
