//! Simulated annealing for a randomly generated traveling-salesman instance,
//! driven by a generic Metropolis-Hastings sampler.
//!
//! All quantities are fixed-point integers: city coordinates are counted in
//! units of `1/UNIT`, and temperatures in whatever unit the caller picks, so
//! that every cost and every temperature comparison is exact. Randomness is
//! not ambient: every operation that draws takes a [`random::RandomSource`],
//! which makes runs reproducible with a scripted source.

use vstd::prelude::*;

pub mod annealing;
pub mod metropolis;
pub mod random;
pub mod salesman;

verus! {

/// One whole coordinate unit. A city coordinate of `UNIT` means `1.0`.
pub const UNIT: u64 = 1024;

/// Largest coordinate value a well-formed itinerary may hold. Together with
/// `MAX_CITIES` it keeps every tour cost strictly below `u64::MAX`.
pub const COORD_LIMIT: u64 = 0x7FFF_FFFF;

/// Largest supported city count.
pub const MAX_CITIES: usize = 0x7FFF_FFFF;

} // verus!
