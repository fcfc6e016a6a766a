use vstd::prelude::*;
use crate::error::ConfigError;

verus! {

/// An objective to be maximised. Scores are fixed-point and never negative;
/// the engines expect them between zero and [`crate::fixed::ONE`] wherever a
/// threshold is compared against a mean. An implementation must be a function
/// of its arguments alone.
///
/// Beside each method stands a relation that says which results the method
/// may return. An objective that says nothing of itself leaves every result
/// open; an objective with a specification states it there, and the engines'
/// contracts speak of the objective's results through these relations.
pub trait Fitness {
    /// Whether `score` is a result of [`Fitness::fitness`] on `genes`.
    open spec fn may_fit(&self, genes: Seq<i64>, score: u64) -> bool {
        true
    }

    /// Whether `score` is a result of [`Fitness::fitness_bitstring`] on
    /// `bits` and `num_dims`.
    open spec fn may_score(
        &self,
        bits: Seq<bool>,
        num_dims: usize,
        score: Result<u64, ConfigError>,
    ) -> bool {
        true
    }

    /// Whether `genes` is a result of [`Fitness::decode_bitstring`] on `bits`
    /// and `num_dims`.
    open spec fn may_decode(
        &self,
        bits: Seq<bool>,
        num_dims: usize,
        genes: Result<Seq<i64>, ConfigError>,
    ) -> bool {
        true
    }

    /// The score of a real-valued candidate, given by its genes.
    fn fitness(&self, member: &Vec<i64>) -> (score: u64)
        ensures
            self.may_fit(member@, score),
    ;

    /// The score of a bit-encoded candidate that stands for `num_dims` genes,
    /// or the error that keeps the candidate from being decoded.
    fn fitness_bitstring(&self, bitstring: &Vec<bool>, num_dims: usize) -> (score: Result<
        u64,
        ConfigError,
    >)
        ensures
            self.may_score(bitstring@, num_dims, score),
    ;

    /// The genes that a bit-encoded candidate stands for.
    fn decode_bitstring(&self, bitstring: &Vec<bool>, num_dims: usize) -> (genes: Result<
        Vec<i64>,
        ConfigError,
    >)
        ensures
            self.may_decode(bitstring@, num_dims, decoding(genes)),
    ;
}

/// The genes, or the error, as a value of specifications.
pub open spec fn decoding(genes: Result<Vec<i64>, ConfigError>) -> Result<Seq<i64>, ConfigError> {
    match genes {
        Ok(values) => Ok(values@),
        Err(e) => Err(e),
    }
}

} // verus!
