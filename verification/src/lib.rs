//! A single-queue service station on an integer clock, and a two-level
//! factorial experiment over it.
//!
//! Every quantity is an integer. Times are counted in ticks, a million to
//! the unit of time, and a quantity that is not whole (a rate, a load, a
//! coded factor level) is held in millionths; the coefficients of the
//! regression are held in eighths of a millionth. Products and quotients
//! round toward zero. The random durations come from
//! a [`model::random::RandomSource`] that the caller hands in. Nothing is
//! assumed of what a source returns: everything that is done with a draw is
//! verified for every value of it.
//!
//! - [`model`] is the engine: arrival processes, servers, the queue of their
//!   events, one run to a horizon, and rows of runs.
//! - [`planned_experiment`] is the experiment: the design of eight corners,
//!   the runs at each, and the regression that solves the design exactly.
//! - [`api`] answers the requests of a serving layer from plain values.
//! - [`fixed`] holds the arithmetic in millionths.

pub mod api;
pub mod fixed;
pub mod model;
pub mod planned_experiment;
