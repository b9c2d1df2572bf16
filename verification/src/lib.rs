//! A roulette wheel: a container of individuals, each with a fitness, from
//! which individuals are drawn with a chance proportional to their fitness.
//!
//! A fitness is a whole number of units; the unit is the caller's choice,
//! since only the proportions between fitnesses matter. The total of a wheel
//! is the exact sum of its fitnesses.
//!
//! A draw is decided by a sample, a number of `0..SAMPLE_SCALE` that stands
//! for the fraction `sample / SAMPLE_SCALE` of the unit interval. The entries
//! are scanned in storage order, each taking the share of the interval that
//! its fitness has in the total, and the entry on whose share the sample
//! falls is drawn.
//!
//! * [`RouletteWheel`] holds the entries and their total.
//! * [`IntoSelectIter`] owns the entries of a wheel and hands them out one by
//!   one.
//! * [`SelectIter`] borrows a wheel and hands out references, keeping count
//!   of what it has handed out already; the wheel stays as it was.
//! * [`Pool`] is the mathematical model that all three share, and the
//!   `laws` module states what follows from it.

pub mod laws;
pub mod pool;
pub mod scan;
pub mod select;
pub mod source;
pub mod wheel;

pub use pool::{Pool, WeightError, SAMPLE_SCALE};
pub use select::{IntoSelectIter, SelectIter};
pub use wheel::RouletteWheel;
