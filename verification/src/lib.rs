//! Monte Carlo odds of reaching a character target and a lightcone target
//! within a fixed budget of warps, under soft pity, hard pity and the
//! guarantee that follows a lost featured roll.
//!
//! Probabilities are fixed-point: every chance is a whole number of parts
//! per million and every uniform sample is an integer in `[0, PPM)`, so a
//! roll succeeds exactly when `sample < chance`.
//!
//! - [`samples`]: where samples come from, and what a source promises.
//! - [`pity`]: one track, one warp at a time.
//! - [`trial`]: one budget of warps spent on the two tracks.
//! - [`estimator`]: many trials, counted.
//! - [`trial_laws`], [`estimator_laws`], [`worst_case`]: what is proved of
//!   every trial and every batch.

pub mod estimator;
pub mod estimator_laws;
pub mod pity;
pub mod samples;
pub mod trial;
pub mod trial_laws;
pub mod worst_case;
