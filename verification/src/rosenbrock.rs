use vstd::prelude::*;
use crate::encoding::decode_segments;
use crate::encoding::decoded_gene;
use crate::encoding::decoding_error;
use crate::error::ConfigError;

verus! {

/// The bit encoding of the Rosenbrock benchmark.
pub struct Rosenbrock;

/// The lower end of every gene's range: -2.0.
pub const LOW: i64 = -2_000_000_000;

/// The upper end of a gene's range where a bitstring holds two genes: 2.0.
pub const PAIR_HIGH: i64 = 2_000_000_000;

/// The upper end of a gene's range in the general case: 8.24.
pub const HIGH: i64 = 8_240_000_000;

impl Rosenbrock {
    /// Decodes a bitstring of even length to the two genes that its halves
    /// spell, each between [`LOW`] and [`PAIR_HIGH`].
    pub fn decode(&self, bitstring: &Vec<bool>) -> (genes: Result<(i64, i64), ConfigError>)
        ensures
            match decoding_error(bitstring@.len() as int, 2, LOW, PAIR_HIGH) {
                Some(e) => genes == Err::<(i64, i64), ConfigError>(e),
                None => genes matches Ok(pair) && pair.0 == decoded_gene(
                    bitstring@,
                    2,
                    LOW,
                    PAIR_HIGH,
                    0,
                ) && pair.1 == decoded_gene(bitstring@, 2, LOW, PAIR_HIGH, 1),
            },
    {
        match decode_segments(bitstring, 2, LOW, PAIR_HIGH) {
            Ok(genes) => Ok((genes[0], genes[1])),
            Err(e) => Err(e),
        }
    }

    /// Decodes a bitstring to `num_dims` genes, each between [`LOW`] and
    /// [`HIGH`].
    pub fn decode_bitstring(&self, bitstring: &Vec<bool>, num_dims: usize) -> (genes: Result<
        Vec<i64>,
        ConfigError,
    >)
        ensures
            match decoding_error(bitstring@.len() as int, num_dims as int, LOW, HIGH) {
                Some(e) => genes == Err::<Vec<i64>, ConfigError>(e),
                None => genes matches Ok(values) && values@.len() == num_dims && forall|d: int|
                    0 <= d < num_dims ==> #[trigger] values@[d] == decoded_gene(
                        bitstring@,
                        num_dims as int,
                        LOW,
                        HIGH,
                        d,
                    ),
            },
    {
        decode_segments(bitstring, num_dims, LOW, HIGH)
    }
}

} // verus!
