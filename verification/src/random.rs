use vstd::prelude::*;
use rand::Rng;
use rand::SeedableRng;
use rand::seq::IteratorRandom;
use rand_chacha::ChaCha8Rng;
use crate::fixed::ONE;

verus! {

/// `rand_chacha::ChaCha8Rng`, the generator that every stochastic operation
/// is handed. Its state is opaque here.
#[verifier::external_type_specification]
#[verifier::external_body]
pub struct ExChaCha8Rng(ChaCha8Rng);

/// `ChaCha8Rng::seed_from_u64`: a fresh generator whose stream is fixed by
/// `seed`. Nothing is claimed of the generator's state.
#[verifier::external_body]
pub(crate) fn seeded_rng(seed: u64) -> ChaCha8Rng {
    ChaCha8Rng::seed_from_u64(seed)
}

/// `Rng::random::<bool>()`: one fair bit. Nothing is claimed of its value.
#[verifier::external_body]
pub(crate) fn random_bit(rng: &mut ChaCha8Rng) -> bool {
    rng.random::<bool>()
}

/// `Rng::random_range(0..bound)`: the call panics on an empty range, so the
/// bound must be positive; the value it returns lies in the range.
#[verifier::external_body]
pub(crate) fn random_below(rng: &mut ChaCha8Rng, bound: u128) -> (drawn: u128)
    requires
        bound > 0,
    ensures
        drawn < bound,
{
    rng.random_range(0..bound)
}

/// The largest number of positions that are asked for at once: the call
/// below sets aside room for as many before it draws.
pub const MAX_CHOICES: usize = 0xffff;

/// `IteratorRandom::choose_multiple(0..n, rng, amount)`: `amount` distinct
/// positions below `n`, or all of them where there are fewer.
#[verifier::external_body]
pub(crate) fn choose_positions(rng: &mut ChaCha8Rng, n: usize, amount: usize) -> (chosen: Vec<
    usize,
>)
    requires
        amount <= MAX_CHOICES,
    ensures
        chosen@.len() == if n < amount { n } else { amount },
        forall|i: int| 0 <= i < chosen@.len() ==> chosen@[i] < n,
        forall|i: int, j: int| 0 <= i < j < chosen@.len() ==> chosen@[i] != chosen@[j],
{
    (0..n).choose_multiple(rng, amount)
}

/// A uniform draw from the unit interval, in fixed point: a value below
/// [`ONE`].
pub fn unit_draw(rng: &mut ChaCha8Rng) -> (drawn: u64)
    ensures
        drawn < ONE,
{
    let drawn: u128 = random_below(rng, ONE as u128);
    drawn as u64
}

/// A uniform draw from `lo..hi`, or `None` where the range is empty.
pub fn random_index(rng: &mut ChaCha8Rng, lo: usize, hi: usize) -> (drawn: Option<usize>)
    ensures
        drawn.is_some() <==> lo < hi,
        drawn.is_some() ==> lo <= drawn.unwrap() < hi,
{
    if lo < hi {
        let offset: u128 = random_below(rng, (hi - lo) as u128);
        Some(lo + offset as usize)
    } else {
        None
    }
}

/// A uniform draw from `lo..hi`, or `None` where the range is empty.
pub fn random_between(rng: &mut ChaCha8Rng, lo: i64, hi: i64) -> (drawn: Option<i64>)
    ensures
        drawn.is_some() <==> lo < hi,
        drawn.is_some() ==> lo <= drawn.unwrap() < hi,
{
    if lo < hi {
        let width: u128 = (hi as i128 - lo as i128) as u128;
        let offset: u128 = random_below(rng, width);
        Some((lo as i128 + offset as i128) as i64)
    } else {
        None
    }
}

} // verus!
