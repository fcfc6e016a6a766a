use vstd::prelude::*;
use vstd::arithmetic::div_mod::lemma_div_by_multiple;
use vstd::arithmetic::div_mod::lemma_div_denominator;
use vstd::arithmetic::div_mod::lemma_basic_div;
use vstd::arithmetic::div_mod::lemma_div_is_ordered;
use vstd::arithmetic::div_mod::lemma_fundamental_div_mod;
use vstd::arithmetic::power2::lemma2_to64;
use vstd::arithmetic::power2::lemma2_to64_rest;
use vstd::arithmetic::power2::lemma_pow2_pos;
use vstd::arithmetic::power2::lemma_pow2_unfold;
use vstd::arithmetic::power2::pow2;
use crate::error::ConfigError;

verus! {

/// The widest segment that decodes to one gene.
pub const MAX_SEGMENT_BITS: usize = 63;

/// The number that `n` bits from `start` on spell, most significant bit
/// first.
pub open spec fn level_of(bits: Seq<bool>, start: int, n: int) -> int
    decreases n,
{
    if n <= 0 {
        0
    } else {
        2 * level_of(bits, start, n - 1) + if bits[start + n - 1] {
            1int
        } else {
            0int
        }
    }
}

/// The largest number that `width` bits spell: `2^width - 1`.
pub open spec fn max_level(width: nat) -> int {
    pow2(width) - 1
}

/// The gene that a level stands for: the levels from zero to the largest
/// divide the range from `low` to `high` evenly; the quotient is rounded
/// down.
pub open spec fn gene_value(level: int, width: nat, low: i64, high: i64) -> int {
    low + (level * (high - low)) / max_level(width)
}

/// The error that keeps `len` bits from decoding to `num_dims` genes between
/// `low` and `high`, if there is one.
pub open spec fn decoding_error(len: int, num_dims: int, low: i64, high: i64) -> Option<
    ConfigError,
> {
    if num_dims == 0 {
        Some(ConfigError::ZeroDimensions)
    } else if len % num_dims != 0 {
        Some(ConfigError::IndivisibleLength)
    } else if len / num_dims == 0 || len / num_dims > MAX_SEGMENT_BITS {
        Some(ConfigError::SegmentWidth)
    } else if low > high {
        Some(ConfigError::EmptyGeneRange)
    } else {
        None
    }
}

/// Gene `d` of a bitstring that decodes to `num_dims` genes: the value of
/// its `d`-th segment.
pub open spec fn decoded_gene(bits: Seq<bool>, num_dims: int, low: i64, high: i64, d: int) -> int {
    let width = bits.len() as int / num_dims;
    gene_value(level_of(bits, d * width, width), width as nat, low, high)
}

/// The number that `n` bits spell lies between zero and the largest level.
proof fn lemma_level_bounds(bits: Seq<bool>, start: int, n: int)
    requires
        0 <= n,
    ensures
        0 <= level_of(bits, start, n) <= max_level(n as nat),
    decreases n,
{
    if n > 0 {
        lemma_level_bounds(bits, start, n - 1);
        lemma_pow2_unfold(n as nat);
    } else {
        lemma2_to64();
    }
}

/// Bits that are all clear spell zero.
proof fn lemma_level_all_zero(bits: Seq<bool>, start: int, n: int)
    requires
        0 <= n,
        forall|i: int| start <= i < start + n ==> !bits[i],
    ensures
        level_of(bits, start, n) == 0,
    decreases n,
{
    if n > 0 {
        lemma_level_all_zero(bits, start, n - 1);
    }
}

/// Bits that are all set spell the largest level.
proof fn lemma_level_all_one(bits: Seq<bool>, start: int, n: int)
    requires
        0 <= n,
        forall|i: int| start <= i < start + n ==> bits[i],
    ensures
        level_of(bits, start, n) == max_level(n as nat),
    decreases n,
{
    if n > 0 {
        lemma_level_all_one(bits, start, n - 1);
        lemma_pow2_unfold(n as nat);
    } else {
        lemma2_to64();
    }
}

/// The largest level of an admissible width is positive and fits an `i64`.
proof fn lemma_max_level_fits(width: nat)
    requires
        1 <= width <= MAX_SEGMENT_BITS,
    ensures
        1 <= max_level(width) <= 0x7fff_ffff_ffff_ffff,
{
    lemma2_to64();
    lemma2_to64_rest();
}

/// The gene of an admissible level lies in the range, and the product that
/// scales it fits a `u128`.
proof fn lemma_gene_value_bounds(level: int, width: nat, low: i64, high: i64)
    requires
        1 <= width <= MAX_SEGMENT_BITS,
        0 <= level <= max_level(width),
        low <= high,
    ensures
        low <= gene_value(level, width, low, high) <= high,
        0 <= level * (high - low) <= 0x7fff_ffff_ffff_ffff * 0xffff_ffff_ffff_ffff,
{
    lemma_max_level_fits(width);
    let span = high - low;
    let top = max_level(width);
    assert(0 <= level * span <= top * span) by (nonlinear_arith)
        requires
            0 <= level <= top,
            0 <= span,
    ;
    assert(top * span <= 0x7fff_ffff_ffff_ffff * 0xffff_ffff_ffff_ffff) by (nonlinear_arith)
        requires
            0 <= top <= 0x7fff_ffff_ffff_ffff,
            0 <= span <= 0xffff_ffff_ffff_ffff,
    ;
    lemma_div_is_ordered(level * span, top * span, top);
    lemma_div_by_multiple(span, top);
}

/// The all-zero bitstring decodes to the lower end of the range in every
/// gene, and the all-one bitstring to the upper end, for any number of
/// dimensions that the bitstring decodes to.
pub proof fn law_decode_extremes(bits: Seq<bool>, num_dims: int, low: i64, high: i64, d: int)
    requires
        decoding_error(bits.len() as int, num_dims, low, high) is None,
        0 <= d < num_dims,
    ensures
        (forall|i: int| 0 <= i < bits.len() ==> !bits[i]) ==> decoded_gene(
            bits,
            num_dims,
            low,
            high,
            d,
        ) == low,
        (forall|i: int| 0 <= i < bits.len() ==> bits[i]) ==> decoded_gene(
            bits,
            num_dims,
            low,
            high,
            d,
        ) == high,
{
    let width = bits.len() as int / num_dims;
    let top = max_level(width as nat);
    let span = high - low;
    lemma_segment_inside(bits.len() as int, num_dims, d);
    lemma_max_level_fits(width as nat);
    if forall|i: int| 0 <= i < bits.len() ==> !bits[i] {
        lemma_level_all_zero(bits, d * width, width);
    }
    if forall|i: int| 0 <= i < bits.len() ==> bits[i] {
        lemma_level_all_one(bits, d * width, width);
        lemma_div_by_multiple(span, top);
        assert(top * span == span * top) by (nonlinear_arith);
    }
}

/// Every segment of a bitstring that divides evenly lies inside it.
proof fn lemma_segment_inside(len: int, num_dims: int, d: int)
    requires
        0 <= len,
        0 < num_dims,
        len % num_dims == 0,
        0 <= d < num_dims,
    ensures
        len == num_dims * (len / num_dims),
        0 <= len / num_dims,
        0 <= d * (len / num_dims),
        d * (len / num_dims) + len / num_dims <= len,
{
    let width = len / num_dims;
    lemma_fundamental_div_mod(len, num_dims);
    assert(0 <= d * width && d * width + width <= num_dims * width) by (nonlinear_arith)
        requires
            0 <= d < num_dims,
            0 <= width,
    ;
}

/// Decodes a bitstring to `num_dims` genes between `low` and `high`: the
/// bitstring is cut into segments of equal width, and each segment's level
/// is scaled to the range.
pub fn decode_segments(bits: &Vec<bool>, num_dims: usize, low: i64, high: i64) -> (genes: Result<
    Vec<i64>,
    ConfigError,
>)
    ensures
        match decoding_error(bits@.len() as int, num_dims as int, low, high) {
            Some(e) => genes == Err::<Vec<i64>, ConfigError>(e),
            None => genes matches Ok(values) && values@.len() == num_dims && forall|d: int|
                0 <= d < num_dims ==> #[trigger] values@[d] == decoded_gene(
                    bits@,
                    num_dims as int,
                    low,
                    high,
                    d,
                ),
        },
{
    if num_dims == 0 {
        return Err(ConfigError::ZeroDimensions);
    }
    if bits.len() % num_dims != 0 {
        return Err(ConfigError::IndivisibleLength);
    }
    let width: usize = bits.len() / num_dims;
    if width == 0 || width > MAX_SEGMENT_BITS {
        return Err(ConfigError::SegmentWidth);
    }
    if low > high {
        return Err(ConfigError::EmptyGeneRange);
    }
    let span: u128 = (high as i128 - low as i128) as u128;
    let mut genes: Vec<i64> = Vec::new();
    let mut d: usize = 0;
    while d < num_dims
        invariant
            d <= num_dims,
            0 < num_dims,
            bits@.len() <= usize::MAX,
            bits@.len() as int % (num_dims as int) == 0,
            width == bits@.len() as int / (num_dims as int),
            1 <= width <= MAX_SEGMENT_BITS,
            low <= high,
            span == high - low,
            genes@.len() == d,
            forall|g: int|
                0 <= g < d ==> #[trigger] genes@[g] == decoded_gene(
                    bits@,
                    num_dims as int,
                    low,
                    high,
                    g,
                ),
        decreases num_dims - d,
    {
        assert(0 <= d * width && d * width + width <= bits@.len()) by {
            lemma_segment_inside(bits@.len() as int, num_dims as int, d as int);
        }
        proof {
            lemma2_to64();
        }
        let start: usize = d * width;
        let mut level: u64 = 0;
        let mut top: u64 = 0;
        let mut k: usize = 0;
        while k < width
            invariant
                k <= width,
                1 <= width <= MAX_SEGMENT_BITS,
                start + width <= bits@.len() <= usize::MAX,
                level == level_of(bits@, start as int, k as int),
                top == max_level(k as nat),
                level <= top,
            decreases width - k,
        {
            proof {
                lemma_pow2_unfold((k + 1) as nat);
                lemma_max_level_fits((k + 1) as nat);
            }
            level = 2 * level + if bits[start + k] { 1 } else { 0 };
            top = 2 * top + 1;
            k += 1;
        }
        proof {
            lemma_max_level_fits(width as nat);
            lemma_gene_value_bounds(level as int, width as nat, low, high);
        }
        let offset: u128 = level as u128 * span / top as u128;
        let value: i64 = (low as i128 + offset as i128) as i64;
        genes.push(value);
        d += 1;
    }
    Ok(genes)
}

/// The value held to the range from `low` to `high`.
pub open spec fn held_within(value: i64, low: i64, high: i64) -> i64 {
    if value < low {
        low
    } else if value > high {
        high
    } else {
        value
    }
}

/// The level that encodes a gene: the position of the value in its range,
/// scaled to the levels of `width` bits and rounded down. A value outside
/// the range is encoded as the nearest end.
pub open spec fn level_for(value: i64, width: nat, low: i64, high: i64) -> int {
    ((held_within(value, low, high) - low) * max_level(width)) / (high - low)
}

/// The distance between two neighbouring levels' genes, rounded up: the
/// quantization step.
pub open spec fn quantization_step(width: nat, low: i64, high: i64) -> int {
    ((high - low) + max_level(width) - 1) / max_level(width)
}

/// The error that keeps a gene between `low` and `high` from being encoded
/// in `width` bits, if there is one.
pub open spec fn encoding_error(width: int, low: i64, high: i64) -> Option<ConfigError> {
    if width == 0 || width > MAX_SEGMENT_BITS {
        Some(ConfigError::SegmentWidth)
    } else if low >= high {
        Some(ConfigError::EmptyGeneRange)
    } else {
        None
    }
}

/// The level of a gene is an admissible level, and the product that scales
/// it fits a `u128`.
proof fn lemma_level_for_bounds(value: i64, width: nat, low: i64, high: i64)
    requires
        1 <= width <= MAX_SEGMENT_BITS,
        low < high,
    ensures
        0 <= level_for(value, width, low, high) <= max_level(width),
        0 <= (held_within(value, low, high) - low) * max_level(width) <= 0xffff_ffff_ffff_ffff
            * 0x7fff_ffff_ffff_ffff,
{
    lemma_max_level_fits(width);
    let x = held_within(value, low, high) - low;
    let span = high - low;
    let top = max_level(width);
    assert(0 <= x * top <= span * top) by (nonlinear_arith)
        requires
            0 <= x <= span,
            0 <= top,
    ;
    assert(span * top <= 0xffff_ffff_ffff_ffff * 0x7fff_ffff_ffff_ffff) by (nonlinear_arith)
        requires
            0 <= span <= 0xffff_ffff_ffff_ffff,
            0 <= top <= 0x7fff_ffff_ffff_ffff,
    ;
    lemma_div_is_ordered(x * top, span * top, span);
    lemma_div_by_multiple(top, span);
}

/// Round trip: a value inside the range, encoded and decoded again, comes
/// back no greater than it was and less than it was by at most one
/// quantization step.
pub proof fn law_round_trip(value: i64, width: nat, low: i64, high: i64)
    requires
        1 <= width <= MAX_SEGMENT_BITS,
        low < high,
        low <= value <= high,
    ensures
        0 <= value - gene_value(level_for(value, width, low, high), width, low, high)
            <= quantization_step(width, low, high),
{
    lemma_max_level_fits(width);
    let x = value - low;
    let span = high - low;
    let top = max_level(width);
    let level = level_for(value, width, low, high);
    let back = (level * span) / top;
    let step = quantization_step(width, low, high);
    lemma_fundamental_div_mod(x * top, span);
    lemma_fundamental_div_mod(level * span, top);
    lemma_fundamental_div_mod(span + top - 1, top);
    let r1 = (x * top) % span;
    let r2 = (level * span) % top;
    let r3 = (span + top - 1) % top;
    assert(back <= x) by (nonlinear_arith)
        requires
            x * top == span * level + r1,
            level * span == top * back + r2,
            0 <= r1,
            0 <= r2,
            0 < top,
    ;
    assert(x - back <= step) by (nonlinear_arith)
        requires
            x * top == span * level + r1,
            level * span == top * back + r2,
            span + top - 1 == top * step + r3,
            0 <= r1 < span,
            0 <= r2 < top,
            0 <= r3 < top,
            0 < top,
    ;
}

/// The level that encodes a gene between `low` and `high` in `width` bits.
pub fn quantize(value: i64, width: usize, low: i64, high: i64) -> (level: Result<u64, ConfigError>)
    ensures
        match encoding_error(width as int, low, high) {
            Some(e) => level == Err::<u64, ConfigError>(e),
            None => level matches Ok(l) && l == level_for(value, width as nat, low, high) && l
                <= max_level(width as nat),
        },
{
    if width == 0 || width > MAX_SEGMENT_BITS {
        return Err(ConfigError::SegmentWidth);
    }
    if low >= high {
        return Err(ConfigError::EmptyGeneRange);
    }
    let held: i64 = if value < low {
        low
    } else if value > high {
        high
    } else {
        value
    };
    let mut top: u64 = 0;
    let mut k: usize = 0;
    proof {
        lemma2_to64();
    }
    while k < width
        invariant
            k <= width,
            1 <= width <= MAX_SEGMENT_BITS,
            top == max_level(k as nat),
        decreases width - k,
    {
        proof {
            lemma_pow2_unfold((k + 1) as nat);
            lemma_max_level_fits((k + 1) as nat);
        }
        top = 2 * top + 1;
        k += 1;
    }
    proof {
        lemma_level_for_bounds(value, width as nat, low, high);
    }
    let offset: u128 = (held as i128 - low as i128) as u128;
    let span: u128 = (high as i128 - low as i128) as u128;
    let level: u128 = offset * top as u128 / span;
    Ok(level as u64)
}

/// The bits that spell a level in `width` bits, most significant bit first.
pub fn encode_level(level: u64, width: usize) -> (bits: Result<Vec<bool>, ConfigError>)
    ensures
        width == 0 || width > MAX_SEGMENT_BITS || level > max_level(width as nat) ==> bits
            == Err::<Vec<bool>, ConfigError>(ConfigError::SegmentWidth),
        1 <= width <= MAX_SEGMENT_BITS && level <= max_level(width as nat) ==> (bits matches Ok(b)
            && b@.len() == width && level_of(b@, 0, width as int) == level),
{
    if width == 0 || width > MAX_SEGMENT_BITS {
        return Err(ConfigError::SegmentWidth);
    }
    let mut unit: u64 = 1;
    let mut k: usize = 1;
    proof {
        lemma2_to64();
    }
    while k < width
        invariant
            1 <= k <= width,
            1 <= width <= MAX_SEGMENT_BITS,
            unit == pow2((k - 1) as nat),
        decreases width - k,
    {
        proof {
            lemma_pow2_unfold(k as nat);
            lemma_max_level_fits(k as nat);
        }
        unit = 2 * unit;
        k += 1;
    }
    proof {
        lemma_pow2_unfold(width as nat);
        lemma_max_level_fits(width as nat);
    }
    if level > 2 * (unit - 1) + 1 {
        return Err(ConfigError::SegmentWidth);
    }
    let mut bits: Vec<bool> = Vec::new();
    let mut j: usize = 0;
    proof {
        lemma_basic_div(level as int, pow2(width as nat) as int);
    }
    while j < width
        invariant
            j <= width,
            1 <= width <= MAX_SEGMENT_BITS,
            bits@.len() == j,
            j < width ==> unit == pow2((width - j - 1) as nat),
            level_of(bits@, 0, j as int) == level as int / (pow2((width - j) as nat) as int),
        decreases width - j,
    {
        proof {
            lemma_pow2_pos((width - j - 1) as nat);
        }
        let quotient: u64 = level / unit;
        let bit: bool = quotient % 2 == 1;
        proof {
            let rest = (width - j - 1) as nat;
            lemma_pow2_unfold((width - j) as nat);
            lemma_div_denominator(level as int, pow2(rest) as int, 2);
            lemma_level_prefix(bits@, bits@.push(bit), j as int);
            if rest > 0 {
                lemma_pow2_unfold(rest);
            }
        }
        bits.push(bit);
        if j + 1 < width {
            unit = unit / 2;
        }
        j += 1;
    }
    proof {
        assert(level_of(bits@, 0, width as int) == level as int / 1);
    }
    Ok(bits)
}

/// Bitstrings that agree on their first `n` bits spell the same number
/// there.
proof fn lemma_level_prefix(shorter: Seq<bool>, longer: Seq<bool>, n: int)
    requires
        0 <= n <= shorter.len() <= longer.len(),
        forall|i: int| 0 <= i < n ==> shorter[i] == longer[i],
    ensures
        level_of(shorter, 0, n) == level_of(longer, 0, n),
    decreases n,
{
    if n > 0 {
        lemma_level_prefix(shorter, longer, n - 1);
    }
}

/// The bits that encode a gene between `low` and `high` in `width` bits.
pub fn encode_gene(value: i64, width: usize, low: i64, high: i64) -> (bits: Result<
    Vec<bool>,
    ConfigError,
>)
    ensures
        match encoding_error(width as int, low, high) {
            Some(e) => bits == Err::<Vec<bool>, ConfigError>(e),
            None => bits matches Ok(b) && b@.len() == width && level_of(b@, 0, width as int)
                == level_for(value, width as nat, low, high),
        },
{
    match quantize(value, width, low, high) {
        Ok(level) => encode_level(level, width),
        Err(e) => Err(e),
    }
}

} // verus!
