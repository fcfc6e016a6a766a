//! Evolutionary search over integer-encoded candidates: a bitstring genetic
//! algorithm, a self-adaptive evolution strategy, a parameter sweep that runs
//! both under a time budget, and the aggregation of the sweep's outcomes.
//!
//! Every real-valued quantity (fitness, rates, genes, step sizes) is held in
//! fixed point: an integer count of billionths, so that [`fixed::ONE`] stands
//! for 1.0.

pub mod bitstring;
mod clock;
pub mod encoding;
pub mod error;
pub mod evol_strat;
pub mod fitness;
pub mod fixed;
pub mod himmelblau;
pub mod maxones;
pub mod parameter_tuning;
pub mod random;
pub mod results_analyzer;
pub mod rosenbrock;
pub mod stats;
pub mod table;
pub mod timeout_runner;
