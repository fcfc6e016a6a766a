use vstd::prelude::*;

verus! {

/// The fixed-point representation of 1.0: values count billionths.
pub const ONE: u64 = 1_000_000_000;

} // verus!
