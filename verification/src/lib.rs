//! Letter-casing variants of a string: the model of a variant, the parallel
//! generator, the schedule of the batched writer and the decisions of the
//! progress monitor.

pub mod casing;
pub mod cli;
pub mod generate;
pub mod lines;
pub mod monitor;
pub mod progress;
pub mod writer;
