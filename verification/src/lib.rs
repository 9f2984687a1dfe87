//! The embarrassingly parallel benchmark kernel, in exact integers.
//!
//! A run draws `2^(m + 1)` uniform deviates from a 46-bit linear congruential
//! generator, two for each pair, and turns the pairs that fall inside the unit
//! disk into pairs of Gaussian deviates. The stream is cut into batches, and
//! the seed of any batch is found by skip-ahead, so the batches can be shared
//! out among any number of workers without changing what any of them holds.
//!
//! - [`lcg`]: one step of the generator, and a sequence of steps.
//! - [`skip`]: modular exponentiation, and the seed of a batch.
//! - [`batch`]: the stream in batches, and a worker's way through its range.
//! - [`partition`]: the range of batches of each worker.
//! - [`histogram`]: the tally of accepted pairs by magnitude.
//! - [`reduce`]: the sum of what the workers report.
//! - [`verify`]: the comparison of the sums with their reference values.
//! - [`problem`]: the problem classes and the sizes that follow from them.
//! - [`phase`]: the phases of a run.
//! - [`report`]: the size and the outcome as the report states them.
//! - [`timing`]: elapsed time, and the time spent in each phase.
//!
//! The library holds a state of the generator as the integer `x`; the uniform
//! deviate that it stands for is `x / 2^46`. Logarithms, square roots and sums
//! of Gaussian deviates are left to the caller, who hands back what became of
//! each pair and, at the end, the two sums as bit patterns.

pub mod batch;
pub mod histogram;
pub mod lcg;
pub mod partition;
pub mod phase;
pub mod problem;
pub mod reduce;
pub mod report;
pub mod skip;
pub mod timing;
pub mod verify;
