use evo_engine::encoding::{decode_segments, encode_gene, encode_level, quantize, MAX_SEGMENT_BITS};
use evo_engine::error::ConfigError;
use evo_engine::fitness::Fitness;
use evo_engine::fixed::ONE;
use evo_engine::himmelblau::Himmelblau;
use evo_engine::maxones::MaxOnes;
use evo_engine::rosenbrock::Rosenbrock;
use evo_engine::stats::{
    best_score, check_mean_at_least, check_mean_exceeds, squared_diameter,
    squared_distance_between, sum_scores,
};

fn bits(text: &str) -> Vec<bool> {
    text.chars().map(|c| c == '1').collect()
}

#[test]
fn all_zero_decodes_to_the_minimum_and_all_one_to_the_maximum() {
    for width in [1usize, 2, 5, 16, 32, 63] {
        for dims in [1usize, 2, 3, 10] {
            let zeros = vec![false; width * dims];
            let ones = vec![true; width * dims];
            assert_eq!(decode_segments(&zeros, dims, -2_000_000_000, 8_240_000_000), Ok(vec![-2_000_000_000; dims]));
            assert_eq!(decode_segments(&ones, dims, -2_000_000_000, 8_240_000_000), Ok(vec![8_240_000_000; dims]));
        }
    }
}

#[test]
fn halves_and_whole_agree_on_the_extremes() {
    for len in [2usize, 4, 20, 48, 126] {
        let zeros = vec![false; len];
        let ones = vec![true; len];
        assert_eq!(Rosenbrock.decode(&zeros), Ok((-2_000_000_000, -2_000_000_000)));
        assert_eq!(Rosenbrock.decode(&ones), Ok((2_000_000_000, 2_000_000_000)));
        assert_eq!(Himmelblau.decode_bitstring(&zeros), Ok((-10_000_000_000, -10_000_000_000)));
        assert_eq!(Himmelblau.decode_bitstring(&ones), Ok((10_000_000_000, 10_000_000_000)));
        assert_eq!(Rosenbrock.decode_bitstring(&zeros, 2), Ok(vec![-2_000_000_000; 2]));
        assert_eq!(Rosenbrock.decode_bitstring(&ones, 2), Ok(vec![8_240_000_000; 2]));
        assert_eq!(Rosenbrock.decode_bitstring(&zeros, 1).map(|g| g.len()).unwrap_or(1), 1);
    }
}

#[test]
fn segments_decode_most_significant_bit_first() {
    assert_eq!(decode_segments(&bits("1100"), 2, 0, 3), Ok(vec![3, 0]));
    assert_eq!(decode_segments(&bits("0110"), 2, 0, 3), Ok(vec![1, 2]));
    assert_eq!(decode_segments(&bits("100"), 1, 0, 7), Ok(vec![4]));
    assert_eq!(decode_segments(&bits("001"), 1, 0, 7), Ok(vec![1]));
    assert_eq!(decode_segments(&bits("101"), 3, -1, 1), Ok(vec![1, -1, 1]));
}

#[test]
fn levels_scale_to_the_range_rounded_down() {
    assert_eq!(decode_segments(&bits("01"), 1, 0, 10), Ok(vec![3]));
    assert_eq!(decode_segments(&bits("10"), 1, 0, 10), Ok(vec![6]));
    assert_eq!(decode_segments(&bits("10"), 1, -10, 0), Ok(vec![-4]));
    assert_eq!(Rosenbrock.decode(&bits("0110")), Ok((-666_666_667, 666_666_666)));
    assert_eq!(Himmelblau.decode_bitstring(&bits("1001")), Ok((3_333_333_333, -3_333_333_334)));
    assert_eq!(
        Rosenbrock.decode_bitstring(&bits("011011"), 3),
        Ok(vec![1_413_333_333, 4_826_666_666, 8_240_000_000])
    );
}

#[test]
fn sixteen_bit_genes_decode_as_the_formula_says() {
    let mut member = vec![false; 16];
    member[0] = true;
    let genes = Rosenbrock.decode_bitstring(&member, 1).unwrap();
    let expected = (32768u128 * 10_240_000_000u128 / 65535u128) as i64 - 2_000_000_000;
    assert_eq!(genes, vec![expected]);
    let real = genes[0] as f64 / ONE as f64;
    assert!((real - ((32768.0 / 65535.0) * 10.24 - 2.0)).abs() < 1e-8);
}

#[test]
fn decoding_reports_its_errors() {
    assert_eq!(decode_segments(&bits("1100"), 0, 0, 3), Err(ConfigError::ZeroDimensions));
    assert_eq!(decode_segments(&bits(""), 0, 0, 3), Err(ConfigError::ZeroDimensions));
    assert_eq!(decode_segments(&bits("11001"), 2, 0, 3), Err(ConfigError::IndivisibleLength));
    assert_eq!(decode_segments(&bits(""), 2, 0, 3), Err(ConfigError::SegmentWidth));
    assert_eq!(decode_segments(&vec![true; 64], 1, 0, 3), Err(ConfigError::SegmentWidth));
    assert_eq!(decode_segments(&bits("1100"), 2, 3, 2), Err(ConfigError::EmptyGeneRange));
    assert_eq!(decode_segments(&bits("1100"), 2, 3, 3), Ok(vec![3, 3]));
    assert_eq!(Rosenbrock.decode(&bits("110")), Err(ConfigError::IndivisibleLength));
    assert_eq!(Rosenbrock.decode(&bits("")), Err(ConfigError::SegmentWidth));
    assert_eq!(Himmelblau.decode_bitstring(&bits("1")), Err(ConfigError::IndivisibleLength));
    assert_eq!(Rosenbrock.decode_bitstring(&bits("1100"), 0), Err(ConfigError::ZeroDimensions));
    assert_eq!(Rosenbrock.decode_bitstring(&bits("1100"), 3), Err(ConfigError::IndivisibleLength));
}

#[test]
fn decoding_spans_the_whole_range_of_an_i64() {
    assert_eq!(MAX_SEGMENT_BITS, 63);
    let ones = vec![true; 63];
    let zeros = vec![false; 63];
    assert_eq!(decode_segments(&ones, 1, i64::MIN, i64::MAX), Ok(vec![i64::MAX]));
    assert_eq!(decode_segments(&zeros, 1, i64::MIN, i64::MAX), Ok(vec![i64::MIN]));
}

#[test]
fn levels_are_spelled_most_significant_bit_first() {
    assert_eq!(encode_level(5, 3), Ok(bits("101")));
    assert_eq!(encode_level(1, 3), Ok(bits("001")));
    assert_eq!(encode_level(0, 4), Ok(bits("0000")));
    assert_eq!(encode_level(15, 4), Ok(bits("1111")));
    assert_eq!(encode_level(i64::MAX as u64, 63), Ok(vec![true; 63]));
    assert_eq!(encode_level(16, 4), Err(ConfigError::SegmentWidth));
    assert_eq!(encode_level(0, 0), Err(ConfigError::SegmentWidth));
    assert_eq!(encode_level(0, 64), Err(ConfigError::SegmentWidth));
}

#[test]
fn quantize_scales_a_gene_to_its_level() {
    assert_eq!(quantize(0, 2, 0, 3), Ok(0));
    assert_eq!(quantize(3, 2, 0, 3), Ok(3));
    assert_eq!(quantize(5, 2, 0, 10), Ok(1));
    assert_eq!(quantize(-2_000_000_000, 16, -2_000_000_000, 8_240_000_000), Ok(0));
    assert_eq!(quantize(8_240_000_000, 16, -2_000_000_000, 8_240_000_000), Ok(65535));
    assert_eq!(quantize(99, 2, 0, 3), Ok(3));
    assert_eq!(quantize(-99, 2, 0, 3), Ok(0));
    assert_eq!(quantize(1, 0, 0, 3), Err(ConfigError::SegmentWidth));
    assert_eq!(quantize(1, 64, 0, 3), Err(ConfigError::SegmentWidth));
    assert_eq!(quantize(1, 2, 3, 3), Err(ConfigError::EmptyGeneRange));
}

#[test]
fn encoding_and_decoding_returns_within_one_quantization_step() {
    let low: i64 = -2_000_000_000;
    let high: i64 = 8_240_000_000;
    for width in [1usize, 3, 8, 16, 33, 63] {
        let top: i128 = (1i128 << width) - 1;
        let step = ((high - low) as i128 + top - 1) / top;
        let mut value = low;
        while value <= high {
            let encoded = encode_gene(value, width, low, high).unwrap();
            assert_eq!(encoded.len(), width);
            let decoded = decode_segments(&encoded, 1, low, high).unwrap()[0];
            assert!(decoded <= value);
            assert!((value - decoded) as i128 <= step);
            value += 97_654_321;
        }
        let at_top = encode_gene(high, width, low, high).unwrap();
        assert_eq!(decode_segments(&at_top, 1, low, high), Ok(vec![high]));
    }
}

#[test]
fn decoded_genes_encode_to_the_bits_they_came_from() {
    for text in ["0000", "0001", "0110", "1010", "1111"] {
        let original = bits(text);
        let gene = decode_segments(&original, 1, 0, 15).unwrap()[0];
        assert_eq!(encode_gene(gene, 4, 0, 15), Ok(original));
    }
}

#[test]
fn max_ones_scores_the_fraction_of_set_bits() {
    assert_eq!(MaxOnes.fitness_bitstring(&bits("1111"), 2), Ok(ONE));
    assert_eq!(MaxOnes.fitness_bitstring(&bits("0000"), 2), Ok(0));
    assert_eq!(MaxOnes.fitness_bitstring(&bits("1010"), 0), Ok(ONE / 2));
    assert_eq!(MaxOnes.fitness_bitstring(&bits("100"), 7), Ok(333_333_333));
    assert_eq!(MaxOnes.fitness_bitstring(&bits(""), 1), Ok(0));
    let mut member = vec![false; 32];
    member[3] = true;
    assert_eq!(MaxOnes.fitness_bitstring(&member, 2), Ok(31_250_000));
    assert_eq!(MaxOnes.fitness(&vec![1, 2, 3]), 0);
    assert_eq!(MaxOnes.decode_bitstring(&bits("1010"), 3), Ok(vec![0, 0, 0]));
}

#[test]
fn scores_sum_and_peak() {
    assert_eq!(sum_scores(&vec![1, 2, 3]), 6);
    assert_eq!(sum_scores(&vec![]), 0);
    assert_eq!(sum_scores(&vec![u64::MAX, u64::MAX]), 2 * (u64::MAX as u128));
    assert_eq!(best_score(&vec![1, 7, 3]), 7);
    assert_eq!(best_score(&vec![0, 0]), 0);
    assert_eq!(best_score(&vec![]), 0);
}

#[test]
fn means_are_compared_without_dividing() {
    assert!(check_mean_at_least(30, 3, 10));
    assert!(!check_mean_at_least(29, 3, 10));
    assert!(!check_mean_at_least(0, 0, 0));
    assert!(check_mean_exceeds(31, 3, 10));
    assert!(!check_mean_exceeds(30, 3, 10));
    assert!(!check_mean_exceeds(u128::MAX, 0, 0));
    assert!(check_mean_at_least(u128::MAX, usize::MAX, u64::MAX));
}

#[test]
fn distances_are_squared_and_capped() {
    assert_eq!(squared_distance_between(&vec![0, 0], &vec![3, 4]), 25);
    assert_eq!(squared_distance_between(&vec![-3, 4], &vec![3, -4]), 100);
    assert_eq!(squared_distance_between(&vec![1, 2, 3], &vec![1, 2]), 0);
    assert_eq!(squared_distance_between(&vec![], &vec![]), 0);
    assert_eq!(
        squared_distance_between(&vec![i64::MAX, i64::MAX], &vec![i64::MIN, i64::MIN]),
        u128::MAX
    );
    assert_eq!(squared_diameter(&vec![vec![0, 0], vec![1, 1], vec![3, 4]]), 25);
    assert_eq!(squared_diameter(&vec![vec![5, 5]]), 0);
    assert_eq!(squared_diameter(&vec![vec![2], vec![2]]), 0);
    assert_eq!(squared_diameter(&vec![]), 0);
}
