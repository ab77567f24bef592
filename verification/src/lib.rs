//! An evolutionary trainer for an auto-runner game.
//!
//! A population of `Brain`s (sensor networks) controls a `Dinosaur` through
//! a deterministic, fixed-point simulation (`Game`).  Each generation every
//! brain is scored by running one simulation to a terminal state; the best
//! brains survive, are mutated into the next generation, and progress is
//! checkpointed so a run can resume.
//!
//! Conventions: positions and sizes are in thousandths of a pixel, times in
//! microseconds, velocities in thousandths of a pixel per second, and
//! probabilities in thousandths (a rate of 400 fires with probability 0.4).

pub mod brain;
pub mod codec;
pub mod entity;
pub mod error;
pub mod game;
pub mod neurone;
pub mod params;
pub mod program_args;
pub mod rng;
pub mod train;
pub mod utils;
