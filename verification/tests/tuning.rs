use evo_engine::bitstring::GAParameters;
use evo_engine::error::ConfigError;
use evo_engine::evol_strat::{ESParameters, Individual, Variation};
use evo_engine::fitness::Fitness;
use evo_engine::fixed::ONE;
use evo_engine::maxones::MaxOnes;
use evo_engine::parameter_tuning::{
    to_i64, to_u64, to_usize, Algorithm, ParamKey, ParamMap, ParameterGrid, TuningConfig,
    TuningResult, PARAM_KEYS,
};
use evo_engine::results_analyzer::{
    analyze, fingerprint_of, to_millis, ESAnalysis, ResultsAnalyzer, SGAAnalysis,
};
use evo_engine::table::{push_count, push_decimal, push_fixed, push_flag, push_padded, push_text};
use evo_engine::timeout_runner::{
    budget_nanos, cap_nanos, close_run, close_timed_run, es_timed_step, may_start_generation,
    sga_timed_step, EsTimedStep, TimedStep, outcome, run_seed, score, ExecutionStats, TimeoutRunner, BASE_SEED,
};
use rand::Rng;
use rand::SeedableRng;
use rand_chacha::ChaCha8Rng;
use rand_distr::StandardNormal;
use std::time::Instant;

struct Sphere;

impl Fitness for Sphere {
    fn fitness(&self, member: &Vec<i64>) -> u64 {
        let distance: f64 = member.iter().map(|gene| (*gene as f64 / ONE as f64).powi(2)).sum();
        (ONE as f64 / (1.0 + distance)) as u64
    }

    fn fitness_bitstring(&self, _bitstring: &Vec<bool>, _num_dims: usize) -> Result<u64, ConfigError> {
        Ok(0)
    }

    fn decode_bitstring(&self, _bitstring: &Vec<bool>, num_dims: usize) -> Result<Vec<i64>, ConfigError> {
        Ok(vec![0; num_dims])
    }
}

struct Failing;

impl Fitness for Failing {
    fn fitness(&self, _member: &Vec<i64>) -> u64 {
        0
    }

    fn fitness_bitstring(&self, _bitstring: &Vec<bool>, _num_dims: usize) -> Result<u64, ConfigError> {
        Err(ConfigError::IndivisibleLength)
    }

    fn decode_bitstring(&self, _bitstring: &Vec<bool>, _num_dims: usize) -> Result<Vec<i64>, ConfigError> {
        Err(ConfigError::IndivisibleLength)
    }
}

struct Gaussian;

impl Variation for Gaussian {
    fn standard_normal(&self, rng: &mut ChaCha8Rng) -> i64 {
        let draw: f64 = rng.sample(StandardNormal);
        (draw * ONE as f64) as i64
    }

    fn step_factor(&self, tau: u64, rng: &mut ChaCha8Rng) -> u64 {
        let draw: f64 = rng.sample(StandardNormal);
        ((tau as f64 / ONE as f64 * draw).exp() * ONE as f64) as u64
    }
}

fn ga(pop_size: usize, mutation_rate: u64) -> GAParameters {
    GAParameters {
        pop_size,
        mem_size: 16,
        mutation_rate,
        crossover_rate: 750_000_000,
        max_iters: 20,
        convergence_threshold: 950_000_000,
    }
}

fn es(lambda: usize, sigma: u64) -> ESParameters {
    ESParameters {
        mu: lambda / 2,
        lambda,
        mem_size: 3,
        mem_range: (-5_120_000_000, 5_110_000_000),
        sigma,
        tau: 223_606_798,
        max_gens: 10,
    }
}

fn config(num_runs: usize, timeout_seconds: u64) -> TuningConfig {
    TuningConfig { num_runs, timeout_seconds, num_dimensions: 2, bits_per_dimension: 8 }
}

fn result(algorithm: Algorithm, parameters: ParamMap, run_id: usize, score: u64) -> TuningResult {
    TuningResult {
        algorithm,
        parameters,
        run_id,
        max_fitness: score,
        execution_time: 1_000_000_000,
        score,
        converged: false,
        generations: 3,
        timeout_reached: false,
    }
}

#[test]
fn default_tuning_config_runs_five_times_for_a_minute() {
    let config = TuningConfig::default();
    assert_eq!(config.num_runs, 5);
    assert_eq!(config.timeout_seconds, 60);
    assert_eq!(config.num_dimensions, 10);
    assert_eq!(config.bits_per_dimension, 16);
}

#[test]
fn sga_grid_is_the_product_of_sizes_and_rates() {
    let grid = ParameterGrid::generate_sga_grid();
    assert_eq!(grid.len(), 25);
    let sizes = [50usize, 162, 275, 387, 500];
    let rates = [1_000_000u64, 50_000_000, 100_000_000, 150_000_000, 200_000_000];
    for (i, size) in sizes.iter().enumerate() {
        for (j, rate) in rates.iter().enumerate() {
            assert_eq!(
                grid[i * 5 + j],
                GAParameters {
                    pop_size: *size,
                    mem_size: 160,
                    mutation_rate: *rate,
                    crossover_rate: 750_000_000,
                    max_iters: 1000,
                    convergence_threshold: 950_000_000,
                }
            );
        }
    }
}

#[test]
fn es_grid_is_the_product_of_offspring_counts_and_step_sizes() {
    let grid = ParameterGrid::generate_es_grid();
    assert_eq!(grid.len(), 25);
    let lambdas = [50usize, 162, 275, 387, 500];
    let sigmas = [100_000_000u64, 575_000_000, 1_050_000_000, 1_525_000_000, 2_000_000_000];
    for (i, lambda) in lambdas.iter().enumerate() {
        for (j, sigma) in sigmas.iter().enumerate() {
            assert_eq!(
                grid[i * 5 + j],
                ESParameters {
                    mu: lambda / 2,
                    lambda: *lambda,
                    mem_size: 10,
                    mem_range: (-5_120_000_000, 5_110_000_000),
                    sigma: *sigma,
                    tau: 223_606_798,
                    max_gens: 1000,
                }
            );
        }
    }
    assert_eq!(grid[7].mu, 81);
    let tau = 1.0 / 20.0f64.sqrt();
    assert!((grid[0].tau as f64 / ONE as f64 - tau).abs() < 1e-9);
}

#[test]
fn parameter_names_are_in_alphabetical_order() {
    let mut names = Vec::new();
    for index in 0..PARAM_KEYS {
        let key = ParamKey::from_index(index).unwrap();
        assert_eq!(key.index(), index);
        names.push(key.name().to_string());
    }
    assert_eq!(ParamKey::from_index(PARAM_KEYS), None);
    let mut sorted = names.clone();
    sorted.sort();
    assert_eq!(names, sorted);
    assert_eq!(names.len(), 13);
    assert_eq!(ParamKey::PopSize.name(), "pop_size");
    assert_eq!(ParamKey::MemRangeMin.name(), "mem_range_min");
    assert_eq!(Algorithm::Sga.name(), "SGA");
    assert_eq!(Algorithm::Es.name(), "ES");
}

#[test]
fn parameter_map_holds_what_was_inserted() {
    let mut map = ParamMap::new();
    assert!(map.keys().is_empty());
    assert_eq!(map.get(ParamKey::Tau), None);
    map.insert(ParamKey::Tau, 5);
    map.insert(ParamKey::Lambda, -7);
    map.insert(ParamKey::Tau, 6);
    assert_eq!(map.get(ParamKey::Tau), Some(6));
    assert_eq!(map.get(ParamKey::Lambda), Some(-7));
    assert_eq!(map.get(ParamKey::Mu), None);
    assert_eq!(map.keys(), vec![ParamKey::Lambda, ParamKey::Tau]);
}

#[test]
fn ga_parameters_map_to_six_named_values() {
    let params = ga(50, 1_000_000);
    let map = ParameterGrid::params_to_map_ga(&params);
    assert_eq!(
        map.keys(),
        vec![
            ParamKey::ConvergenceThreshold,
            ParamKey::CrossoverRate,
            ParamKey::MaxIters,
            ParamKey::MemSize,
            ParamKey::MutationRate,
            ParamKey::PopSize,
        ]
    );
    assert_eq!(map.get(ParamKey::PopSize), Some(50));
    assert_eq!(map.get(ParamKey::MemSize), Some(16));
    assert_eq!(map.get(ParamKey::MutationRate), Some(1_000_000));
    assert_eq!(map.get(ParamKey::CrossoverRate), Some(750_000_000));
    assert_eq!(map.get(ParamKey::MaxIters), Some(20));
    assert_eq!(map.get(ParamKey::ConvergenceThreshold), Some(950_000_000));
    assert_eq!(map.get(ParamKey::Sigma), None);
}

#[test]
fn es_parameters_map_to_eight_named_values() {
    let params = es(50, 575_000_000);
    let map = ParameterGrid::params_to_map_es(&params);
    assert_eq!(map.keys().len(), 8);
    assert_eq!(map.get(ParamKey::Mu), Some(25));
    assert_eq!(map.get(ParamKey::Lambda), Some(50));
    assert_eq!(map.get(ParamKey::MemSize), Some(3));
    assert_eq!(map.get(ParamKey::MemRangeMin), Some(-5_120_000_000));
    assert_eq!(map.get(ParamKey::MemRangeMax), Some(5_110_000_000));
    assert_eq!(map.get(ParamKey::Sigma), Some(575_000_000));
    assert_eq!(map.get(ParamKey::Tau), Some(223_606_798));
    assert_eq!(map.get(ParamKey::MaxGens), Some(10));
    assert_eq!(map.get(ParamKey::PopSize), None);
}

#[test]
fn parameters_come_back_from_their_map() {
    for params in ParameterGrid::generate_sga_grid() {
        let map = ParameterGrid::params_to_map_ga(&params);
        assert_eq!(ResultsAnalyzer::key_to_ga_params(&map), Some(params));
        assert_eq!(ResultsAnalyzer::key_to_es_params(&map), None);
    }
    for params in ParameterGrid::generate_es_grid() {
        let map = ParameterGrid::params_to_map_es(&params);
        assert_eq!(ResultsAnalyzer::key_to_es_params(&map), Some(params));
        assert_eq!(ResultsAnalyzer::key_to_ga_params(&map), None);
    }
    let extreme = GAParameters {
        pop_size: usize::MAX,
        mem_size: 0,
        mutation_rate: u64::MAX,
        crossover_rate: 0,
        max_iters: usize::MAX,
        convergence_threshold: u64::MAX,
    };
    let map = ParameterGrid::params_to_map_ga(&extreme);
    assert_eq!(ResultsAnalyzer::key_to_ga_params(&map), Some(extreme));
}

#[test]
fn incomplete_or_out_of_range_maps_are_handled() {
    let mut map = ParameterGrid::params_to_map_ga(&ga(50, 1_000_000));
    map.mem_size = None;
    assert_eq!(ResultsAnalyzer::key_to_ga_params(&map), None);
    map.mem_size = Some(-4);
    map.pop_size = Some(i128::MAX);
    map.mutation_rate = Some(-1);
    let clamped = ResultsAnalyzer::key_to_ga_params(&map).unwrap();
    assert_eq!(clamped.mem_size, 0);
    assert_eq!(clamped.pop_size, usize::MAX);
    assert_eq!(clamped.mutation_rate, 0);
    assert_eq!(to_usize(-1), 0);
    assert_eq!(to_usize(17), 17);
    assert_eq!(to_u64(i128::MAX), u64::MAX);
    assert_eq!(to_u64(42), 42);
    assert_eq!(to_i64(i128::MIN), i64::MIN);
    assert_eq!(to_i64(i128::MAX), i64::MAX);
    assert_eq!(to_i64(-42), -42);
}

#[test]
fn seeds_count_up_from_the_base_seed() {
    assert_eq!(BASE_SEED, 5000);
    assert_eq!(run_seed(0), Some(5000));
    assert_eq!(run_seed(4), Some(5004));
    assert_eq!(run_seed(usize::MAX), None);
    assert_eq!(run_seed(usize::MAX - 5000), Some(u64::MAX));
}

#[test]
fn score_is_fitness_per_second() {
    assert_eq!(score(500_000_000, 2_000_000_000), 250_000_000);
    assert_eq!(score(500_000_000, 500_000_000), 1_000_000_000);
    assert_eq!(score(ONE, 60_000_000_000), 16_666_666);
    assert_eq!(score(1, 3), 333_333_333);
    assert_eq!(score(0, 5), 0);
}

#[test]
fn score_is_zero_when_no_time_has_passed() {
    assert_eq!(score(ONE, 0), 0);
    assert_eq!(score(u64::MAX, 0), 0);
    assert_eq!(score(0, 0), 0);
}

#[test]
fn score_is_capped_at_the_largest_value() {
    assert_eq!(score(u64::MAX, 1), u64::MAX);
    assert_eq!(score(u64::MAX, 1_000_000_000), u64::MAX);
    assert_eq!(score(u64::MAX, 2_000_000_000), u64::MAX / 2);
}

#[test]
fn clock_readings_are_held_to_a_u64() {
    assert_eq!(cap_nanos(0), 0);
    assert_eq!(cap_nanos(1_500_000_000), 1_500_000_000);
    assert_eq!(cap_nanos(u64::MAX as u128), u64::MAX);
    assert_eq!(cap_nanos(u64::MAX as u128 + 1), u64::MAX);
    assert_eq!(cap_nanos(u128::MAX), u64::MAX);
}

#[test]
fn a_run_that_may_do_no_generation_measures_nothing() {
    let idle = GAParameters { max_iters: 0, ..ga(10, ONE / 100) };
    let result = TimeoutRunner::run_sga_with_timeout(&Failing, &idle, &config(5, 30), 0);
    assert_eq!(result.generations, 0);
    assert_eq!(result.max_fitness, 0);
    assert!(!result.converged);
    assert!(!result.timeout_reached);
    assert!(result.execution_time < 30_000_000_000);
    let nobody = ga(0, ONE / 100);
    let empty = TimeoutRunner::run_sga_with_timeout(&Failing, &nobody, &config(5, 30), 0);
    assert_eq!(empty.generations, 20);
    assert_eq!(empty.max_fitness, 0);
    assert!(!empty.converged);
    assert!(!empty.timeout_reached);
    let barren = ESParameters { mu: 0, lambda: 0, ..es(8, ONE) };
    let none = TimeoutRunner::run_es_with_timeout(&Sphere, &Gaussian, &barren, &config(5, 30), 0);
    assert_eq!(none.generations, 10);
    assert_eq!(none.max_fitness, 0);
    assert!(!none.converged);
    assert!(!none.timeout_reached);
    let parentless = ESParameters { mu: 0, ..es(8, ONE) };
    let failed = TimeoutRunner::run_es_with_timeout(&Sphere, &Gaussian, &parentless, &config(5, 30), 0);
    assert_eq!(failed.execution_time, 30_000_000_000);
    assert!(failed.timeout_reached);
    let rangeless = ESParameters { mem_range: (3, 3), ..es(8, ONE) };
    let broken = TimeoutRunner::run_es_with_timeout(&Sphere, &Gaussian, &rangeless, &config(5, 30), 0);
    assert_eq!(broken.execution_time, 30_000_000_000);
    assert_eq!(broken.generations, 0);
}

struct Flat;

impl Fitness for Flat {
    fn fitness(&self, _member: &Vec<i64>) -> u64 {
        1
    }

    fn fitness_bitstring(&self, _bitstring: &Vec<bool>, _num_dims: usize) -> Result<u64, ConfigError> {
        Ok(1)
    }

    fn decode_bitstring(&self, _bitstring: &Vec<bool>, num_dims: usize) -> Result<Vec<i64>, ConfigError> {
        Ok(vec![0; num_dims])
    }
}

#[test]
fn a_generation_starts_only_under_the_budget() {
    assert!(may_start_generation(0, 1));
    assert!(may_start_generation(59_999_999_999, 60_000_000_000));
    assert!(!may_start_generation(60_000_000_000, 60_000_000_000));
    assert!(!may_start_generation(60_000_000_001, 60_000_000_000));
    assert!(!may_start_generation(0, 0));
    assert!(!may_start_generation(u64::MAX, u64::MAX));
}

#[test]
fn a_timed_run_closes_with_its_flag() {
    let under = close_timed_run(7, 3, true, false, 10, 20);
    assert_eq!(
        under,
        ExecutionStats {
            max_fitness: 7,
            generations: 3,
            converged: true,
            timeout_reached: false,
            execution_time: 10,
        }
    );
    assert!(close_timed_run(7, 3, false, true, 10, 20).timeout_reached);
    assert!(close_timed_run(7, 3, false, false, 20, 20).timeout_reached);
    assert!(close_timed_run(7, 3, false, false, 21, 20).timeout_reached);
    assert!(!close_timed_run(7, 3, false, false, 19, 20).timeout_reached);
    assert!(close_timed_run(0, 0, false, false, 0, 0).timeout_reached);
}

#[test]
fn a_timed_step_does_nothing_once_the_budget_is_reached() {
    let mut rng = ChaCha8Rng::seed_from_u64(5000);
    let population = vec![vec![true, false, true, true]; 4];
    for (reading, budget) in [(10u64, 10u64), (11, 10), (0, 0), (u64::MAX, 5)] {
        let step = sga_timed_step(&Failing, &ga(4, 0), 2, &population, reading, budget, &mut rng);
        assert!(matches!(step, Ok(TimedStep::OutOfTime)));
        let parents = vec![Individual { genes: vec![0, 0, 0], sigma: ONE }];
        let step =
            es_timed_step(&Sphere, &Gaussian, &es(8, ONE), &parents, reading, budget, &mut rng);
        assert!(matches!(step, Ok(EsTimedStep::OutOfTime)));
    }
}

#[test]
fn a_timed_step_under_the_budget_measures_and_tests_convergence() {
    let mut rng = ChaCha8Rng::seed_from_u64(5000);
    let params = GAParameters { mem_size: 4, convergence_threshold: 900_000_000, ..ga(3, 0) };
    let ones = vec![vec![true; 4], vec![true, true, true, false], vec![true; 4]];
    match sga_timed_step(&MaxOnes, &params, 2, &ones, 9, 10, &mut rng) {
        Ok(TimedStep::Converged(stats)) => {
            assert_eq!(stats.max_fitness, ONE);
            assert_eq!(stats.total_fitness, 2 * ONE as u128 + 750_000_000);
            assert_eq!(stats.size, 3);
            assert_eq!(stats.duplicates, 2);
        }
        _ => panic!("a generation with a mean of eleven twelfths has converged"),
    }
    let mixed = vec![vec![true, false, false, false], vec![false; 4], vec![true, true, false, false]];
    match sga_timed_step(&MaxOnes, &params, 2, &mixed, 0, 1, &mut rng) {
        Ok(TimedStep::Bred(stats, next)) => {
            assert_eq!(stats.max_fitness, ONE / 2);
            assert_eq!(stats.duplicates, 0);
            assert_eq!(next.len(), 3);
            assert!(next.iter().all(|member| member.len() == 4));
        }
        _ => panic!("a generation below the threshold is replaced"),
    }
    let twins = vec![vec![false; 4]; 3];
    assert!(matches!(
        sga_timed_step(&MaxOnes, &params, 2, &twins, 0, 1, &mut rng),
        Ok(TimedStep::Converged(_))
    ));
    let failed = sga_timed_step(&Failing, &params, 2, &mixed, 0, 1, &mut rng);
    assert!(matches!(failed, Err(ConfigError::IndivisibleLength)));
    let short = GAParameters { mem_size: 1, crossover_rate: ONE, ..ga(3, 0) };
    let bits = vec![vec![true], vec![false], vec![false]];
    assert!(matches!(
        sga_timed_step(&MaxOnes, &short, 1, &bits, 0, 1, &mut rng),
        Err(ConfigError::NoCrossoverPoint)
    ));
}

#[test]
fn a_timed_es_step_under_the_budget_measures_and_tests_the_early_stop() {
    let mut rng = ChaCha8Rng::seed_from_u64(5000);
    let params = es(8, ONE);
    let at_optimum: Vec<Individual> =
        (0..4).map(|_| Individual { genes: vec![0, 0, 0], sigma: ONE }).collect();
    match es_timed_step(&Sphere, &Gaussian, &params, &at_optimum, 0, 1, &mut rng) {
        Ok(EsTimedStep::Converged(stats)) => {
            assert_eq!(stats.best_fitness, ONE);
            assert_eq!(stats.total_fitness, 4 * ONE as u128);
            assert_eq!(stats.size, 4);
        }
        _ => panic!("parents at the optimum stop the run"),
    }
    let far: Vec<Individual> = (0..4)
        .map(|k| Individual { genes: vec![k * ONE as i64, 3 * ONE as i64, 0], sigma: ONE })
        .collect();
    match es_timed_step(&Sphere, &Gaussian, &params, &far, 0, 1, &mut rng) {
        Ok(EsTimedStep::Bred(stats, next)) => {
            assert_eq!(stats.best_fitness, ONE / 10);
            assert_eq!(stats.size, 4);
            assert_eq!(next.len(), 4);
            assert!(next.iter().all(|member| member.genes.len() == 3 && member.sigma > 0));
        }
        _ => panic!("parents far from the optimum are replaced"),
    }
    assert!(matches!(
        es_timed_step(&Sphere, &Gaussian, &params, &vec![], 0, 1, &mut rng),
        Err(ConfigError::EmptyPopulation)
    ));
    let barren = ESParameters { lambda: 0, ..es(8, ONE) };
    match es_timed_step(&Sphere, &Gaussian, &barren, &vec![], 0, 1, &mut rng) {
        Ok(EsTimedStep::Bred(stats, next)) => {
            assert_eq!((stats.best_fitness, stats.size), (0, 0));
            assert!(next.is_empty());
        }
        _ => panic!("no offspring to breed is no failure"),
    }
}

#[test]
fn a_run_that_ended_in_an_error_is_closed_as_the_worst_case() {
    let limits = config(5, 60);
    let stats = ExecutionStats {
        max_fitness: 7,
        generations: 3,
        converged: true,
        timeout_reached: false,
        execution_time: 10,
    };
    assert_eq!(close_run(Ok(stats), &limits), stats);
    for error in [
        ConfigError::IndivisibleLength,
        ConfigError::NoCrossoverPoint,
        ConfigError::EmptyPopulation,
        ConfigError::ZeroStepSize,
    ] {
        assert_eq!(close_run(Err(error), &limits), TimeoutRunner::worst_case_stats(&limits));
    }
    assert_eq!(close_run(Err(ConfigError::ZeroDimensions), &limits).execution_time, 60_000_000_000);
}

#[test]
fn timed_generations_succeed_where_the_objective_is_not_asked() {
    let limits = config(5, 30);
    let mut rng = ChaCha8Rng::seed_from_u64(5000);
    let start = Instant::now();
    let idle = GAParameters { max_iters: 0, ..ga(10, ONE / 100) };
    let stats = TimeoutRunner::sga_generations(&Failing, &idle, &limits, &start, &mut rng).unwrap();
    assert_eq!((stats.generations, stats.max_fitness, stats.converged), (0, 0, false));
    let nobody = ga(0, ONE / 100);
    let stats = TimeoutRunner::sga_generations(&Failing, &nobody, &limits, &start, &mut rng).unwrap();
    assert_eq!((stats.generations, stats.max_fitness, stats.converged), (20, 0, false));
    let no_budget = config(5, 0);
    let stats =
        TimeoutRunner::sga_generations(&Failing, &ga(10, 0), &no_budget, &start, &mut rng).unwrap();
    assert_eq!((stats.generations, stats.timeout_reached), (0, true));
    let failed = TimeoutRunner::sga_generations(&Failing, &ga(10, 0), &limits, &start, &mut rng);
    assert_eq!(failed, Err(ConfigError::IndivisibleLength));
}

#[test]
fn timed_es_generations_fail_only_on_their_configuration() {
    let limits = config(5, 30);
    let mut rng = ChaCha8Rng::seed_from_u64(5000);
    let start = Instant::now();
    let stepless = ESParameters { sigma: 0, ..es(8, ONE) };
    assert_eq!(
        TimeoutRunner::es_generations(&Sphere, &Gaussian, &stepless, &limits, &start, &mut rng),
        Err(ConfigError::ZeroStepSize)
    );
    let rangeless = ESParameters { mem_range: (3, 3), ..es(8, ONE) };
    assert_eq!(
        TimeoutRunner::es_generations(&Sphere, &Gaussian, &rangeless, &limits, &start, &mut rng),
        Err(ConfigError::EmptyGeneRange)
    );
    let parentless = ESParameters { mu: 0, ..es(8, ONE) };
    assert_eq!(
        TimeoutRunner::es_generations(&Sphere, &Gaussian, &parentless, &limits, &start, &mut rng),
        Err(ConfigError::EmptyPopulation)
    );
    let no_budget = config(5, 0);
    let cut = TimeoutRunner::es_generations(&Sphere, &Gaussian, &parentless, &no_budget, &start, &mut rng)
        .unwrap();
    assert_eq!((cut.generations, cut.timeout_reached, cut.converged), (0, true, false));
    let whole = TimeoutRunner::es_generations(&Sphere, &Gaussian, &es(8, ONE), &limits, &start, &mut rng)
        .unwrap();
    assert!(whole.converged || whole.generations == 10);
    assert!(!whole.timeout_reached);
}

#[test]
fn a_timed_sga_run_converges_on_duplicates_too() {
    let params = GAParameters {
        pop_size: 20,
        mem_size: 16,
        mutation_rate: 0,
        crossover_rate: 0,
        max_iters: 500,
        convergence_threshold: 950_000_000,
    };
    let result = TimeoutRunner::run_sga_with_timeout(&Flat, &params, &config(5, 30), 1);
    assert!(result.converged);
    assert!(result.generations < 500);
    assert!(result.generations > 0);
    assert_eq!(result.max_fitness, 1);
    assert!(!result.timeout_reached);
}

#[test]
fn budget_is_the_timeout_in_nanoseconds() {
    assert_eq!(budget_nanos(0), 0);
    assert_eq!(budget_nanos(60), 60_000_000_000);
    assert_eq!(budget_nanos(u64::MAX), u64::MAX);
}

#[test]
fn a_failed_run_is_reported_as_the_worst_case() {
    let stats = TimeoutRunner::worst_case_stats(&config(5, 60));
    assert_eq!(
        stats,
        ExecutionStats {
            max_fitness: 0,
            generations: 0,
            converged: false,
            timeout_reached: true,
            execution_time: 60_000_000_000,
        }
    );
    let params = ga(6, ONE / 100);
    let failed = TimeoutRunner::run_sga_with_timeout(&Failing, &params, &config(5, 60), 3);
    assert_eq!(
        failed,
        outcome(Algorithm::Sga, ParameterGrid::params_to_map_ga(&params), 3, &stats)
    );
    assert_eq!(failed.score, 0);
    assert_eq!(failed.run_id, 3);
    let unseedable = TimeoutRunner::run_sga_with_timeout(&MaxOnes, &params, &config(5, 60), usize::MAX);
    assert_eq!(unseedable.execution_time, 60_000_000_000);
    assert!(unseedable.timeout_reached);
    assert_eq!(unseedable.generations, 0);
    let stepless = ESParameters { sigma: 0, ..es(8, ONE) };
    let broken = TimeoutRunner::run_es_with_timeout(&Sphere, &Gaussian, &stepless, &config(5, 7), 1);
    assert_eq!(
        broken,
        outcome(
            Algorithm::Es,
            ParameterGrid::params_to_map_es(&stepless),
            1,
            &TimeoutRunner::worst_case_stats(&config(5, 7))
        )
    );
}

#[test]
fn a_timed_sga_run_reports_what_it_did() {
    let params = ga(10, ONE / 100);
    let limits = config(5, 30);
    let result = TimeoutRunner::run_sga_with_timeout(&MaxOnes, &params, &limits, 2);
    assert_eq!(result.algorithm, Algorithm::Sga);
    assert_eq!(result.run_id, 2);
    assert_eq!(result.parameters, ParameterGrid::params_to_map_ga(&params));
    assert_eq!(result.score, score(result.max_fitness, result.execution_time));
    assert!(result.generations <= 20);
    assert!(!result.timeout_reached);
    assert!(result.converged || result.generations == 20);
    assert!(result.max_fitness > 0 && result.max_fitness <= ONE);
    assert!(result.execution_time < 30_000_000_000);
}

#[test]
fn a_timed_es_run_reports_what_it_did() {
    let params = es(8, ONE);
    let limits = config(5, 30);
    let result = TimeoutRunner::run_es_with_timeout(&Sphere, &Gaussian, &params, &limits, 0);
    assert_eq!(result.algorithm, Algorithm::Es);
    assert_eq!(result.run_id, 0);
    assert_eq!(result.parameters, ParameterGrid::params_to_map_es(&params));
    assert_eq!(result.score, score(result.max_fitness, result.execution_time));
    assert!(result.generations <= 10);
    assert!(!result.timeout_reached);
    assert!(result.converged || result.generations == 10);
    assert!(result.max_fitness > 0);
}

#[test]
fn a_run_without_budget_starts_no_generation() {
    let limits = config(5, 0);
    let sga = TimeoutRunner::run_sga_with_timeout(&MaxOnes, &ga(10, ONE / 100), &limits, 0);
    assert!(sga.timeout_reached);
    assert!(!sga.converged);
    assert_eq!(sga.generations, 0);
    assert_eq!(sga.max_fitness, 0);
    assert_eq!(sga.score, 0);
    let es_run = TimeoutRunner::run_es_with_timeout(&Sphere, &Gaussian, &es(8, ONE), &limits, 0);
    assert!(es_run.timeout_reached);
    assert_eq!(es_run.generations, 0);
}

#[test]
fn timed_runs_repeat_under_the_same_run_number() {
    let params = ga(10, ONE / 100);
    let limits = config(5, 30);
    let first = TimeoutRunner::run_sga_with_timeout(&MaxOnes, &params, &limits, 4);
    let second = TimeoutRunner::run_sga_with_timeout(&MaxOnes, &params, &limits, 4);
    assert_eq!(first.max_fitness, second.max_fitness);
    assert_eq!(first.generations, second.generations);
    assert_eq!(first.converged, second.converged);
    let es_first = TimeoutRunner::run_es_with_timeout(&Sphere, &Gaussian, &es(8, ONE), &limits, 4);
    let es_second = TimeoutRunner::run_es_with_timeout(&Sphere, &Gaussian, &es(8, ONE), &limits, 4);
    assert_eq!(es_first.max_fitness, es_second.max_fitness);
    assert_eq!(es_first.generations, es_second.generations);
}

#[test]
fn a_sweep_yields_one_outcome_for_each_cell_and_run() {
    let ga_grid = vec![ga(4, ONE / 100), ga(6, ONE / 10), ga(8, ONE / 5)];
    let limits = config(4, 2);
    let results = TimeoutRunner::sweep_sga(&MaxOnes, &ga_grid, &limits);
    assert_eq!(results.len(), 12);
    for (cell, params) in ga_grid.iter().enumerate() {
        for run in 0..4 {
            let outcome = &results[cell * 4 + run];
            assert_eq!(outcome.algorithm, Algorithm::Sga);
            assert_eq!(outcome.run_id, run);
            assert_eq!(outcome.parameters, ParameterGrid::params_to_map_ga(params));
            assert!(outcome.execution_time <= 2_000_000_000 + 500_000_000);
            assert_eq!(outcome.score, score(outcome.max_fitness, outcome.execution_time));
        }
    }
    let es_grid = vec![es(6, ONE), es(8, ONE / 2)];
    let es_results = TimeoutRunner::sweep_es(&Sphere, &Gaussian, &es_grid, &limits);
    assert_eq!(es_results.len(), 8);
    for (cell, params) in es_grid.iter().enumerate() {
        for run in 0..4 {
            let outcome = &es_results[cell * 4 + run];
            assert_eq!(outcome.algorithm, Algorithm::Es);
            assert_eq!(outcome.run_id, run);
            assert_eq!(outcome.parameters, ParameterGrid::params_to_map_es(params));
            assert!(outcome.execution_time <= 2_000_000_000 + 500_000_000);
        }
    }
}

#[test]
fn a_sweep_of_nothing_yields_nothing() {
    assert!(TimeoutRunner::sweep_sga(&MaxOnes, &vec![], &config(5, 1)).is_empty());
    assert!(TimeoutRunner::sweep_sga(&MaxOnes, &vec![ga(4, 0)], &config(0, 1)).is_empty());
    assert!(TimeoutRunner::sweep_es(&Sphere, &Gaussian, &vec![], &config(5, 1)).is_empty());
}

#[test]
fn a_sweep_without_budget_still_yields_every_outcome() {
    let results = TimeoutRunner::sweep_sga(&MaxOnes, &vec![ga(4, 0), ga(5, 0)], &config(3, 0));
    assert_eq!(results.len(), 6);
    assert!(results.iter().all(|outcome| outcome.timeout_reached && outcome.generations == 0));
}

#[test]
fn rounding_to_three_decimals() {
    assert_eq!(to_millis(0), 0);
    assert_eq!(to_millis(1_000_000), 1);
    assert_eq!(to_millis(1_499_999), 1);
    assert_eq!(to_millis(1_500_000), 2);
    assert_eq!(to_millis(575_000_000), 575);
    assert_eq!(to_millis(-1_499_999), -1);
    assert_eq!(to_millis(-1_500_000), -1);
    assert_eq!(to_millis(-1_500_001), -2);
    assert_eq!(to_millis(-1), 0);
    assert_eq!(to_millis(i128::MAX), i128::MAX / 1_000_000);
    assert_eq!(to_millis(i128::MIN), i128::MIN / 1_000_000);
    assert_eq!(to_millis(i128::MAX - 105_727 - 500_000), i128::MAX / 1_000_000);
    assert_eq!(to_millis(i128::MAX - 105_727 - 500_001), i128::MAX / 1_000_000 - 1);
}

#[test]
fn fingerprints_group_by_size_and_rounded_rate() {
    let a = ParameterGrid::params_to_map_ga(&ga(50, 1_000_000));
    let b = ParameterGrid::params_to_map_ga(&ga(50, 1_400_000));
    let c = ParameterGrid::params_to_map_ga(&ga(50, 1_600_000));
    let d = ParameterGrid::params_to_map_ga(&ga(51, 1_000_000));
    assert_eq!(ResultsAnalyzer::ga_params_to_key(&a), (50, 1));
    assert_eq!(ResultsAnalyzer::ga_params_to_key(&b), (50, 1));
    assert_eq!(ResultsAnalyzer::ga_params_to_key(&c), (50, 2));
    assert_eq!(ResultsAnalyzer::ga_params_to_key(&d), (51, 1));
    assert_eq!(ResultsAnalyzer::ga_params_to_key(&ParamMap::new()), (0, 0));
    let e = ParameterGrid::params_to_map_es(&es(162, 575_000_000));
    assert_eq!(ResultsAnalyzer::es_params_to_key(&e), (162, 575));
    assert_eq!(ResultsAnalyzer::es_params_to_key(&a), (0, 0));
    assert_eq!(fingerprint_of(Algorithm::Sga, &a), (50, 1));
    assert_eq!(fingerprint_of(Algorithm::Es, &e), (162, 575));
}

#[test]
fn analysis_of_no_runs_is_empty() {
    let report = ResultsAnalyzer::analyze_sga_results(&vec![]);
    assert_eq!(
        report,
        SGAAnalysis {
            total_runs: 0,
            best_single_run_score: 0,
            best_single_run_params: None,
            best_avg_score: 0,
            best_avg_params: None,
            avg_score: 0,
            convergence_rate: 0,
            timeout_rate: 0,
            param_groups: 0,
        }
    );
    let es_only = vec![result(Algorithm::Es, ParameterGrid::params_to_map_es(&es(8, ONE)), 0, 5)];
    assert_eq!(ResultsAnalyzer::analyze_sga_results(&es_only), report);
}

#[test]
fn analysis_finds_the_best_run_and_the_best_configuration() {
    let small = ga(50, 1_000_000);
    let large = ga(500, 200_000_000);
    let a = ParameterGrid::params_to_map_ga(&small);
    let b = ParameterGrid::params_to_map_ga(&large);
    let other = ParameterGrid::params_to_map_es(&es(8, ONE));
    let mut results = vec![
        result(Algorithm::Sga, a, 0, 100),
        result(Algorithm::Es, other, 0, 1_000_000),
        result(Algorithm::Sga, b, 0, 40),
        result(Algorithm::Sga, a, 1, 10),
        result(Algorithm::Sga, b, 1, 90),
        result(Algorithm::Sga, b, 2, 81),
    ];
    results[2].converged = true;
    results[3].converged = true;
    results[4].timeout_reached = true;
    let report = ResultsAnalyzer::analyze_sga_results(&results);
    assert_eq!(
        report,
        SGAAnalysis {
            total_runs: 5,
            best_single_run_score: 100,
            best_single_run_params: Some(small),
            best_avg_score: 70,
            best_avg_params: Some(large),
            avg_score: 64,
            convergence_rate: 400_000_000,
            timeout_rate: 200_000_000,
            param_groups: 2,
        }
    );
    let core = analyze(&results, Algorithm::Sga);
    assert_eq!(core.best_single_run, Some(0));
    assert_eq!(core.best_avg_run, Some(2));
    let es_report = ResultsAnalyzer::analyze_es_results(&results);
    assert_eq!(
        es_report,
        ESAnalysis {
            total_runs: 1,
            best_single_run_score: 1_000_000,
            best_single_run_params: Some(es(8, ONE)),
            best_avg_score: 1_000_000,
            best_avg_params: Some(es(8, ONE)),
            avg_score: 1_000_000,
            convergence_rate: 0,
            timeout_rate: 0,
            param_groups: 1,
        }
    );
    assert!(!ResultsAnalyzer::sga_performs_better(&report, &es_report));
    assert!(ResultsAnalyzer::sga_performs_better(&report, &ResultsAnalyzer::analyze_es_results(&vec![])));
}

#[test]
fn ties_go_to_the_first_run_and_the_first_configuration() {
    let first = ParameterGrid::params_to_map_ga(&ga(50, 1_000_000));
    let second = ParameterGrid::params_to_map_ga(&ga(60, 1_000_000));
    let results = vec![
        result(Algorithm::Sga, first, 0, 7),
        result(Algorithm::Sga, second, 0, 9),
        result(Algorithm::Sga, first, 1, 9),
        result(Algorithm::Sga, second, 1, 7),
    ];
    let core = analyze(&results, Algorithm::Sga);
    assert_eq!(core.best_single_run, Some(1));
    assert_eq!(core.best_single_run_score, 9);
    assert_eq!(core.best_avg_run, Some(0));
    assert_eq!(core.best_avg_score, 8);
    assert_eq!(core.param_groups, 2);
    assert_eq!(core.avg_score, 8);
}

#[test]
fn runs_that_all_score_zero_still_have_a_best() {
    let first = ga(50, 1_000_000);
    let second = ga(60, 1_000_000);
    let results = vec![
        result(Algorithm::Es, ParameterGrid::params_to_map_es(&es(8, ONE)), 0, 5),
        result(Algorithm::Sga, ParameterGrid::params_to_map_ga(&first), 0, 0),
        result(Algorithm::Sga, ParameterGrid::params_to_map_ga(&second), 0, 0),
        result(Algorithm::Sga, ParameterGrid::params_to_map_ga(&first), 1, 0),
    ];
    let report = ResultsAnalyzer::analyze_sga_results(&results);
    assert_eq!(report.total_runs, 3);
    assert_eq!(report.best_single_run_score, 0);
    assert_eq!(report.best_single_run_params, Some(first));
    assert_eq!(report.best_avg_score, 0);
    assert_eq!(report.best_avg_params, Some(first));
    assert_eq!(report.param_groups, 2);
    let core = analyze(&results, Algorithm::Sga);
    assert_eq!(core.best_single_run, Some(1));
    assert_eq!(core.best_avg_run, Some(1));
}

#[test]
fn a_sweep_of_failed_runs_keeps_its_best_configuration() {
    let grid = vec![ga(4, ONE / 100), ga(6, ONE / 10)];
    let results = TimeoutRunner::sweep_sga(&Failing, &grid, &config(2, 3));
    assert!(results.iter().all(|outcome| outcome.score == 0));
    let report = ResultsAnalyzer::analyze_sga_results(&results);
    assert_eq!(report.total_runs, 4);
    assert_eq!(report.best_single_run_params, Some(grid[0]));
    assert_eq!(report.best_avg_params, Some(grid[0]));
    assert_eq!(report.timeout_rate, ONE);
}

#[test]
fn a_best_run_with_an_incomplete_map_has_no_configuration() {
    let mut map = ParameterGrid::params_to_map_ga(&ga(50, 1_000_000));
    map.max_iters = None;
    let report = ResultsAnalyzer::analyze_sga_results(&vec![result(Algorithm::Sga, map, 0, 12)]);
    assert_eq!(report.best_single_run_score, 12);
    assert_eq!(report.best_single_run_params, None);
    assert_eq!(report.best_avg_score, 12);
    assert_eq!(report.best_avg_params, None);
}

#[test]
fn analysis_of_a_sweep_counts_its_cells() {
    let grid = vec![ga(4, ONE / 100), ga(6, ONE / 10), ga(8, ONE / 5)];
    let results = TimeoutRunner::sweep_sga(&MaxOnes, &grid, &config(3, 5));
    let report = ResultsAnalyzer::analyze_sga_results(&results);
    assert_eq!(report.total_runs, 9);
    assert_eq!(report.param_groups, 3);
    assert!(report.best_single_run_score >= report.best_avg_score);
    assert!(report.best_avg_score >= report.avg_score);
    assert!(report.convergence_rate <= ONE);
    assert_eq!(report.timeout_rate, 0);
    assert!(report.best_avg_params.is_some());
}

#[test]
fn table_columns_are_the_sorted_names_of_the_first_outcome() {
    let ga_map = ParameterGrid::params_to_map_ga(&ga(50, 1_000_000));
    let es_map = ParameterGrid::params_to_map_es(&es(8, ONE));
    let results = vec![result(Algorithm::Sga, ga_map, 0, 1), result(Algorithm::Es, es_map, 0, 2)];
    let columns = ResultsAnalyzer::csv_columns(&results);
    let names: Vec<&str> = columns.iter().map(|key| key.name()).collect();
    assert_eq!(
        names,
        vec![
            "convergence_threshold",
            "crossover_rate",
            "max_iters",
            "mem_size",
            "mutation_rate",
            "pop_size"
        ]
    );
    assert!(ResultsAnalyzer::csv_columns(&vec![]).is_empty());
}

#[test]
fn results_table_is_written_as_lossless_text() {
    let ga_map = ParameterGrid::params_to_map_ga(&ga(50, 1_000_000));
    let es_map = ParameterGrid::params_to_map_es(&es(8, ONE));
    let mut first = result(Algorithm::Sga, ga_map, 0, 82_304_526);
    first.max_fitness = 123_456_789;
    first.execution_time = 1_500_000_000;
    let mut second = result(Algorithm::Es, es_map, 12, 7);
    second.converged = true;
    second.timeout_reached = true;
    second.execution_time = 60_000_000_001;
    second.generations = 1000;
    let table = ResultsAnalyzer::results_table(&vec![first, second]);
    let expected = "algorithm,run_id,max_fitness,execution_time,score,converged,generations,timeout_reached\n\
                    ,convergence_threshold,crossover_rate,max_iters,mem_size,mutation_rate,pop_size\n\
                    SGA,0,0.123456789,1.500000000,0.082304526,false,3,false,0.950000000,0.750000000,20,16,0.001000000,50\n\
                    ES,12,0.000000007,60.000000001,0.000000007,true,1000,true,0.000000000,0.000000000,0,3,0.000000000,0\n";
    assert_eq!(String::from_utf8(table).unwrap(), expected);
}

#[test]
fn results_table_of_nothing_has_only_its_header() {
    let table = ResultsAnalyzer::results_table(&vec![]);
    assert_eq!(
        String::from_utf8(table).unwrap(),
        "algorithm,run_id,max_fitness,execution_time,score,converged,generations,timeout_reached\n\n"
    );
}

#[test]
fn results_table_writes_negative_and_extreme_values() {
    let es_map = ParameterGrid::params_to_map_es(&es(8, ONE));
    let mut extreme = result(Algorithm::Es, es_map, usize::MAX, u64::MAX);
    extreme.parameters.mem_range_min = Some(i128::MIN);
    extreme.parameters.mu = Some(-3);
    extreme.parameters.tau = Some(-1);
    let table = String::from_utf8(ResultsAnalyzer::results_table(&vec![extreme])).unwrap();
    let rows: Vec<&str> = table.lines().collect();
    assert_eq!(rows[1], ",lambda,max_gens,mem_range_max,mem_range_min,mem_size,mu,sigma,tau");
    assert_eq!(
        rows[2],
        "ES,18446744073709551615,18446744073.709551615,1.000000000,18446744073.709551615,false,3,false,\
         8,10,5.110000000,-170141183460469231731687303715.884105728,3,-3,1.000000000,-0.000000001"
    );
}

#[test]
fn numbers_are_rendered_in_decimal() {
    let mut out = b"x=".to_vec();
    push_decimal(&mut out, 0);
    out.push(b' ');
    push_decimal(&mut out, 9);
    out.push(b' ');
    push_decimal(&mut out, 10);
    out.push(b' ');
    push_decimal(&mut out, u128::MAX);
    out.push(b' ');
    push_padded(&mut out, 42, 5);
    out.push(b' ');
    push_padded(&mut out, 123_456, 3);
    out.push(b' ');
    push_padded(&mut out, 7, 0);
    out.push(b' ');
    push_count(&mut out, -17);
    out.push(b' ');
    push_fixed(&mut out, 2 * ONE as i128 + 5);
    out.push(b' ');
    push_fixed(&mut out, -(ONE as i128) / 2);
    out.push(b' ');
    push_flag(&mut out, true);
    push_flag(&mut out, false);
    push_text(&mut out, "!");
    assert_eq!(
        String::from_utf8(out).unwrap(),
        "x=0 9 10 340282366920938463463374607431768211455 00042 456  -17 2.000000005 -0.500000000 truefalse!"
    );
}
