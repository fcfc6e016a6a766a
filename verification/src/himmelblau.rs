use vstd::prelude::*;
use crate::encoding::decode_segments;
use crate::encoding::decoded_gene;
use crate::encoding::decoding_error;
use crate::error::ConfigError;

verus! {

/// The bit encoding of the Himmelblau benchmark.
pub struct Himmelblau;

/// The lower end of both genes' range: -10.0.
pub const LOW: i64 = -10_000_000_000;

/// The upper end of both genes' range: 10.0.
pub const HIGH: i64 = 10_000_000_000;

impl Himmelblau {
    /// Decodes a bitstring of even length to the two genes that its halves
    /// spell, each between [`LOW`] and [`HIGH`].
    pub fn decode_bitstring(&self, bitstring: &Vec<bool>) -> (genes: Result<
        (i64, i64),
        ConfigError,
    >)
        ensures
            match decoding_error(bitstring@.len() as int, 2, LOW, HIGH) {
                Some(e) => genes == Err::<(i64, i64), ConfigError>(e),
                None => genes matches Ok(pair) && pair.0 == decoded_gene(
                    bitstring@,
                    2,
                    LOW,
                    HIGH,
                    0,
                ) && pair.1 == decoded_gene(bitstring@, 2, LOW, HIGH, 1),
            },
    {
        match decode_segments(bitstring, 2, LOW, HIGH) {
            Ok(genes) => Ok((genes[0], genes[1])),
            Err(e) => Err(e),
        }
    }
}

} // verus!
