use vstd::prelude::*;

verus! {

/// A mistake in how a run was configured. None of these is retried: the run
/// that meets one ends at once.
#[derive(Clone, Copy, Debug, PartialEq, Eq, Structural)]
pub enum ConfigError {
    /// Two operands that must have the same length differ in length.
    LengthMismatch,
    /// A decoder was asked for zero dimensions.
    ZeroDimensions,
    /// The bit length is not a multiple of the number of dimensions.
    IndivisibleLength,
    /// A segment holds no bit, or more bits than a gene level can carry.
    SegmentWidth,
    /// Crossover was drawn on parents too short to have a crossover point.
    NoCrossoverPoint,
    /// A tournament was asked to draw no contestant.
    EmptyTournament,
    /// A parent had to be selected from a population without members.
    EmptyPopulation,
    /// Fitness-proportional selection met a population whose fitness sums to zero.
    ZeroTotalFitness,
    /// The range that initial genes are drawn from holds no value.
    EmptyGeneRange,
    /// The initial step size is zero.
    ZeroStepSize,
}

} // verus!
