//! A short-lived full-screen confetti animation: a fixed population of
//! particles is launched from the screen edges, advanced by a fixed-rate
//! timer, faded out over the last second, and discarded after four seconds.
//!
//! All quantities are fixed-point integers: positions and sizes in
//! millipixels, velocities in millipixels per second, angles in
//! milliradians, opacity and colour channels in thousandths, and time in
//! milliseconds.

use vstd::prelude::*;

pub mod driver;
pub mod num;
pub mod particle;
mod rng;
pub mod sim;

verus! {

/// Number of confetti particles in one animation run.
pub const PARTICLE_COUNT: usize = 300;

/// Total lifetime of the animation, in milliseconds.
pub const DURATION_MS: u64 = 4000;

/// Elapsed time at which the fade-out begins, in milliseconds.
pub const FADE_START_MS: u64 = 3000;

} // verus!
