use vstd::prelude::*;
use crate::error::ConfigError;
use crate::fitness::Fitness;
use crate::fixed::ONE;

verus! {

/// The objective that counts set bits: the fraction of a bitstring's bits
/// that are set.
pub struct MaxOnes;

/// The number of set bits among the first `n`.
pub open spec fn ones_upto(bits: Seq<bool>, n: int) -> int
    decreases n,
{
    if n <= 0 {
        0
    } else {
        ones_upto(bits, n - 1) + if bits[n - 1] {
            1int
        } else {
            0int
        }
    }
}

/// The fraction of set bits, in fixed point and rounded down; zero for the
/// empty bitstring.
pub open spec fn ones_fraction(bits: Seq<bool>) -> int {
    if bits.len() == 0 {
        0
    } else {
        ones_upto(bits, bits.len() as int) * ONE / (bits.len() as int)
    }
}

impl Fitness for MaxOnes {
    /// Real-valued candidates have no set bits to count: the score is zero.
    open spec fn may_fit(&self, genes: Seq<i64>, score: u64) -> bool {
        score == 0
    }

    /// The score is the fraction of set bits, whatever the number of
    /// dimensions.
    open spec fn may_score(
        &self,
        bits: Seq<bool>,
        num_dims: usize,
        score: Result<u64, ConfigError>,
    ) -> bool {
        score == Ok::<u64, ConfigError>(ones_fraction(bits) as u64)
    }

    /// Every dimension decodes to zero.
    open spec fn may_decode(
        &self,
        bits: Seq<bool>,
        num_dims: usize,
        genes: Result<Seq<i64>, ConfigError>,
    ) -> bool {
        genes == Ok::<Seq<i64>, ConfigError>(Seq::new(num_dims as nat, |d: int| 0i64))
    }

    /// Real-valued candidates have no set bits to count: the score is zero.
    fn fitness(&self, member: &Vec<i64>) -> (score: u64)
        ensures
            score == 0,
    {
        0
    }

    /// The fraction of set bits. The number of dimensions plays no part.
    fn fitness_bitstring(&self, bitstring: &Vec<bool>, num_dims: usize) -> (score: Result<
        u64,
        ConfigError,
    >)
        ensures
            score matches Ok(s) && s == ones_fraction(bitstring@) && s <= ONE,
    {
        if bitstring.len() == 0 {
            return Ok(0);
        }
        let mut ones: usize = 0;
        let mut i: usize = 0;
        while i < bitstring.len()
            invariant
                i <= bitstring.len(),
                ones == ones_upto(bitstring@, i as int),
                ones <= i,
            decreases bitstring.len() - i,
        {
            if bitstring[i] {
                ones += 1;
            }
            i += 1;
        }
        let len: u128 = bitstring.len() as u128;
        assert(ones * ONE / (len as int) <= ONE) by (nonlinear_arith)
            requires
                0 <= ones <= len,
                0 < len,
                ONE == 1_000_000_000,
        ;
        let score: u128 = ones as u128 * ONE as u128 / len;
        Ok(score as u64)
    }

    /// A bitstring of this objective stands for no genes: every dimension
    /// decodes to zero.
    fn decode_bitstring(&self, bitstring: &Vec<bool>, num_dims: usize) -> (genes: Result<
        Vec<i64>,
        ConfigError,
    >)
        ensures
            genes matches Ok(g) && g@.len() == num_dims && forall|d: int|
                0 <= d < num_dims ==> g@[d] == 0,
    {
        let mut genes: Vec<i64> = Vec::new();
        let mut d: usize = 0;
        while d < num_dims
            invariant
                d <= num_dims,
                genes@.len() == d,
                forall|k: int| 0 <= k < d ==> genes@[k] == 0,
            decreases num_dims - d,
        {
            genes.push(0);
            d += 1;
        }
        assert(genes@ =~= Seq::new(num_dims as nat, |d: int| 0i64));
        Ok(genes)
    }
}

} // verus!
