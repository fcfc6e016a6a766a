use evo_engine::error::ConfigError;
use evo_engine::evol_strat::{
    binary_tournament, breed, check_early_stop, copy_individual, count_evaluations,
    create_es_offspring, evaluate, evolution_strategy, init_population, mutate, mutate_with,
    select_parent, select_survivors, summarize, survivors, ESParameters, EsStats, Individual,
    Variation, EARLY_STOP,
};
use evo_engine::fitness::Fitness;
use evo_engine::fixed::ONE;
use rand::Rng;
use rand::SeedableRng;
use rand_chacha::ChaCha8Rng;
use rand_distr::StandardNormal;

const UNIT: f64 = ONE as f64;

struct Himmelblau;

impl Fitness for Himmelblau {
    fn fitness(&self, member: &Vec<i64>) -> u64 {
        let x = member[0] as f64 / UNIT;
        let y = member[1] as f64 / UNIT;
        let value = (x.powi(2) + y - 11.0).powi(2) + (x + y.powi(2) - 7.0).powi(2);
        (UNIT / (1.0 + value)) as u64
    }

    fn fitness_bitstring(&self, _bitstring: &Vec<bool>, _num_dims: usize) -> Result<u64, ConfigError> {
        Ok(0)
    }

    fn decode_bitstring(&self, _bitstring: &Vec<bool>, num_dims: usize) -> Result<Vec<i64>, ConfigError> {
        Ok(vec![0; num_dims])
    }
}

/// Scores a candidate by its first gene, held to the range of a score.
struct FirstGene;

impl Fitness for FirstGene {
    fn fitness(&self, member: &Vec<i64>) -> u64 {
        member.first().map_or(0, |gene| (*gene).max(0) as u64)
    }

    fn fitness_bitstring(&self, _bitstring: &Vec<bool>, _num_dims: usize) -> Result<u64, ConfigError> {
        Ok(0)
    }

    fn decode_bitstring(&self, _bitstring: &Vec<bool>, num_dims: usize) -> Result<Vec<i64>, ConfigError> {
        Ok(vec![0; num_dims])
    }
}

struct Gaussian;

impl Variation for Gaussian {
    fn standard_normal(&self, rng: &mut ChaCha8Rng) -> i64 {
        let draw: f64 = rng.sample(StandardNormal);
        (draw * UNIT) as i64
    }

    fn step_factor(&self, tau: u64, rng: &mut ChaCha8Rng) -> u64 {
        let draw: f64 = rng.sample(StandardNormal);
        ((tau as f64 / UNIT * draw).exp() * UNIT) as u64
    }
}

/// Always shrinks the step size to nothing and steps as far down as it can.
struct Collapsing;

impl Variation for Collapsing {
    fn standard_normal(&self, _rng: &mut ChaCha8Rng) -> i64 {
        i64::MIN
    }

    fn step_factor(&self, _tau: u64, _rng: &mut ChaCha8Rng) -> u64 {
        0
    }
}

fn es_params(mu: usize, lambda: usize) -> ESParameters {
    ESParameters {
        mu,
        lambda,
        mem_size: 2,
        mem_range: (-10 * ONE as i64, 10 * ONE as i64),
        sigma: ONE / 10,
        tau: ONE / 10,
        max_gens: 1000,
    }
}

fn individual(genes: Vec<i64>, sigma: u64) -> Individual {
    Individual { genes, sigma }
}

fn same(a: &Individual, b: &Individual) -> bool {
    a.genes == b.genes && a.sigma == b.sigma
}

#[test]
fn es_population_has_the_configured_shape() {
    let mut rng = ChaCha8Rng::seed_from_u64(5000);
    let params = es_params(15, 100);
    let population = init_population(&params, &mut rng).unwrap();
    assert_eq!(population.len(), 15);
    for member in &population {
        assert_eq!(member.genes.len(), 2);
        assert_eq!(member.sigma, ONE / 10);
        assert!(member.genes.iter().all(|gene| (-10 * ONE as i64..10 * ONE as i64).contains(gene)));
    }
}

#[test]
fn es_population_reports_its_errors() {
    let mut rng = ChaCha8Rng::seed_from_u64(5000);
    let no_step = ESParameters { sigma: 0, ..es_params(15, 100) };
    assert!(matches!(init_population(&no_step, &mut rng), Err(ConfigError::ZeroStepSize)));
    let no_range = ESParameters { mem_range: (5, 5), ..es_params(15, 100) };
    assert!(matches!(init_population(&no_range, &mut rng), Err(ConfigError::EmptyGeneRange)));
    let backwards = ESParameters { mem_range: (5, 4), ..es_params(15, 100) };
    assert!(matches!(init_population(&backwards, &mut rng), Err(ConfigError::EmptyGeneRange)));
    let nobody = ESParameters { mem_range: (5, 5), ..es_params(0, 100) };
    assert_eq!(init_population(&nobody, &mut rng).unwrap().len(), 0);
    let geneless = ESParameters { mem_range: (5, 5), mem_size: 0, ..es_params(3, 100) };
    let population = init_population(&geneless, &mut rng).unwrap();
    assert_eq!(population.len(), 3);
    assert!(population.iter().all(|member| member.genes.is_empty()));
}

#[test]
fn copy_of_an_individual_equals_it() {
    let original = individual(vec![1, -2, 3], 77);
    assert!(same(&copy_individual(&original), &original));
}

#[test]
fn binary_tournament_keeps_the_fitter_and_the_second_on_a_tie() {
    let scores = vec![5, 9, 9, 1];
    assert_eq!(binary_tournament(&scores, &vec![0, 1]), Some(1));
    assert_eq!(binary_tournament(&scores, &vec![1, 0]), Some(1));
    assert_eq!(binary_tournament(&scores, &vec![1, 2]), Some(2));
    assert_eq!(binary_tournament(&scores, &vec![2, 1]), Some(1));
    assert_eq!(binary_tournament(&scores, &vec![3]), Some(3));
}

#[test]
fn binary_tournament_rejects_what_is_no_pair() {
    let scores = vec![5, 9, 9, 1];
    assert_eq!(binary_tournament(&scores, &vec![]), None);
    assert_eq!(binary_tournament(&scores, &vec![0, 1, 2]), None);
    assert_eq!(binary_tournament(&scores, &vec![0, 4]), None);
    assert_eq!(binary_tournament(&scores, &vec![4]), None);
    assert_eq!(binary_tournament(&scores, &vec![2, 2]), None);
}

#[test]
fn es_parent_is_a_member_and_never_the_least_fit_of_several() {
    let mut rng = ChaCha8Rng::seed_from_u64(5000);
    let scores = vec![10, 20, 30, 40, 5];
    let mut wins = vec![0usize; 5];
    for _ in 0..2000 {
        let parent = select_parent(&scores, &mut rng).unwrap();
        wins[parent] += 1;
    }
    assert_eq!(wins[4], 0);
    assert!(wins.iter().take(4).all(|count| *count > 0));
    assert!(wins[3] > wins[0]);
    assert_eq!(select_parent(&vec![7], &mut rng), Ok(0));
    assert_eq!(select_parent(&vec![], &mut rng), Err(ConfigError::EmptyPopulation));
}

#[test]
fn mutate_with_moves_each_gene_by_sigma_times_its_step() {
    let parent = individual(vec![1_000_000_000, -500_000_000, 0], 100_000_000);
    let steps = vec![2_000_000_000, -1_000_000_000, 5];
    let child = mutate_with(&parent, &steps, 1_500_000_000);
    assert_eq!(child.genes, vec![1_200_000_000, -600_000_000, 0]);
    assert_eq!(child.sigma, 150_000_000);
}

#[test]
fn mutate_with_rounds_steps_toward_zero() {
    let parent = individual(vec![0, 0, 0, 0], 1);
    let steps = vec![1_999_999_999, -1_999_999_999, 999_999_999, -999_999_999];
    let child = mutate_with(&parent, &steps, ONE);
    assert_eq!(child.genes, vec![1, -1, 0, 0]);
    assert_eq!(child.sigma, 1);
}

#[test]
fn mutate_with_keeps_genes_that_have_no_step() {
    let parent = individual(vec![10, 20, 30], ONE);
    let child = mutate_with(&parent, &vec![5], ONE);
    assert_eq!(child.genes, vec![15, 20, 30]);
}

#[test]
fn mutate_with_holds_genes_and_sigma_to_their_ranges() {
    let parent = individual(vec![i64::MAX, i64::MIN], u64::MAX);
    let child = mutate_with(&parent, &vec![i64::MAX, i64::MIN], u64::MAX);
    assert_eq!(child.genes, vec![i64::MAX, i64::MIN]);
    assert_eq!(child.sigma, u64::MAX);
}

#[test]
fn step_size_stays_positive() {
    let mut parent = individual(vec![0], 1);
    for factor in [0, 1, ONE / 2, ONE - 1] {
        let child = mutate_with(&parent, &vec![0], factor);
        assert_eq!(child.sigma, 1);
        parent = child;
    }
    let zero = individual(vec![0], 0);
    assert_eq!(mutate_with(&zero, &vec![0], ONE).sigma, 1);
    let mut rng = ChaCha8Rng::seed_from_u64(5000);
    let mut current = individual(vec![3, 4], ONE);
    for _ in 0..200 {
        current = mutate(&current, ONE, &Collapsing, &mut rng);
        assert!(current.sigma > 0);
        assert_eq!(current.genes.len(), 2);
    }
}

#[test]
fn step_size_stays_positive_over_many_generations() {
    let mut rng = ChaCha8Rng::seed_from_u64(5000);
    let params = ESParameters { max_gens: 50, ..es_params(5, 20) };
    let collapsed = evolution_strategy(&Himmelblau, &Collapsing, &params, &mut rng).unwrap();
    assert!(collapsed.population.iter().all(|member| member.sigma > 0));
    let gaussian = evolution_strategy(&Himmelblau, &Gaussian, &params, &mut rng).unwrap();
    assert!(gaussian.population.iter().all(|member| member.sigma > 0));
}

#[test]
fn survivors_are_the_fittest_in_descending_order() {
    assert_eq!(select_survivors(&vec![5, 9, 7, 1, 8], 3), vec![1, 4, 2]);
    assert_eq!(select_survivors(&vec![5, 9, 7, 1, 8], 5), vec![1, 4, 2, 0, 3]);
    assert_eq!(select_survivors(&vec![5, 9, 7, 1, 8], 1), vec![1]);
    assert_eq!(select_survivors(&vec![5, 9, 7, 1, 8], 0), Vec::<usize>::new());
}

#[test]
fn survivors_of_equal_fitness_keep_their_order_of_evaluation() {
    assert_eq!(select_survivors(&vec![5, 9, 9, 1, 9], 2), vec![1, 2]);
    assert_eq!(select_survivors(&vec![5, 9, 9, 1, 9], 4), vec![1, 2, 4, 0]);
    assert_eq!(select_survivors(&vec![3, 3, 3], 3), vec![0, 1, 2]);
    assert_eq!(select_survivors(&vec![0, 0, 0, 0], 2), vec![0, 1]);
}

#[test]
fn survivors_are_all_the_offspring_where_there_are_too_few() {
    assert_eq!(select_survivors(&vec![2, 3], 5), vec![1, 0]);
    assert_eq!(select_survivors(&vec![], 5), Vec::<usize>::new());
}

#[test]
fn selection_returns_exactly_mu_distinct_offspring_sorted_by_fitness() {
    let mut rng = ChaCha8Rng::seed_from_u64(5000);
    for _ in 0..50 {
        let scores: Vec<u64> = (0..100).map(|_| rng.random_range(0..20)).collect();
        let chosen = select_survivors(&scores, 15);
        assert_eq!(chosen.len(), 15);
        assert!(chosen.iter().all(|index| *index < 100));
        for pair in chosen.windows(2) {
            assert!(scores[pair[0]] >= scores[pair[1]]);
            assert!(scores[pair[0]] > scores[pair[1]] || pair[0] < pair[1]);
        }
        let mut seen = chosen.clone();
        seen.sort();
        seen.dedup();
        assert_eq!(seen.len(), 15);
        let worst = scores[chosen[14]];
        for (index, score) in scores.iter().enumerate() {
            if !chosen.contains(&index) {
                assert!(*score <= worst);
            }
        }
    }
}

#[test]
fn survivors_are_copies_of_the_chosen_offspring() {
    let offspring = vec![
        individual(vec![1], 10),
        individual(vec![2], 20),
        individual(vec![3], 30),
        individual(vec![2], 20),
    ];
    let next = survivors(&offspring, &vec![4, 8, 6, 8], 3).unwrap();
    assert_eq!(next.len(), 3);
    assert!(same(&next[0], &offspring[1]));
    assert!(same(&next[1], &offspring[3]));
    assert!(same(&next[2], &offspring[2]));
    assert!(matches!(survivors(&offspring, &vec![4, 8], 3), Err(ConfigError::LengthMismatch)));
}

#[test]
fn offspring_are_mutants_of_the_parents() {
    let mut rng = ChaCha8Rng::seed_from_u64(5000);
    let params = es_params(3, 40);
    let population = vec![
        individual(vec![0, 0], ONE),
        individual(vec![ONE as i64, ONE as i64], ONE),
        individual(vec![5, 5], ONE),
    ];
    let scores = vec![1, 2, 3];
    let offspring = breed(&population, &scores, &params, &Gaussian, &mut rng).unwrap();
    assert_eq!(offspring.len(), 40);
    assert!(offspring.iter().all(|child| child.genes.len() == 2 && child.sigma > 0));
    assert!(matches!(
        breed(&population, &vec![1, 2], &params, &Gaussian, &mut rng),
        Err(ConfigError::LengthMismatch)
    ));
    assert!(matches!(
        breed(&vec![], &vec![], &params, &Gaussian, &mut rng),
        Err(ConfigError::EmptyPopulation)
    ));
    let barren = es_params(3, 0);
    assert_eq!(breed(&vec![], &vec![], &barren, &Gaussian, &mut rng).unwrap().len(), 0);
}

#[test]
fn a_generation_keeps_mu_of_lambda_offspring() {
    let mut rng = ChaCha8Rng::seed_from_u64(5000);
    let params = es_params(15, 100);
    let population = init_population(&params, &mut rng).unwrap();
    let next = create_es_offspring(&population, &params, &Himmelblau, &Gaussian, &mut rng).unwrap();
    assert_eq!(next.len(), 15);
    let scores = evaluate(&next, &Himmelblau);
    assert!(scores.windows(2).all(|pair| pair[0] >= pair[1]));
    let few = es_params(15, 4);
    let fewer = create_es_offspring(&population, &few, &Himmelblau, &Gaussian, &mut rng).unwrap();
    assert_eq!(fewer.len(), 4);
    assert!(matches!(
        create_es_offspring(&vec![], &params, &Himmelblau, &Gaussian, &mut rng),
        Err(ConfigError::EmptyPopulation)
    ));
}

#[test]
fn parents_never_compete_with_their_offspring() {
    let mut rng = ChaCha8Rng::seed_from_u64(5000);
    let params = ESParameters { mem_size: 1, ..es_params(2, 6) };
    let population = vec![individual(vec![1_000_000], 1), individual(vec![900_000], 1)];
    let next = create_es_offspring(&population, &params, &FirstGene, &Collapsing, &mut rng).unwrap();
    assert_eq!(next.len(), 2);
    assert!(next.iter().all(|member| member.genes[0] < 900_000));
}

#[test]
fn es_statistics_measure_the_parents() {
    let population = vec![
        individual(vec![0, 0], 1),
        individual(vec![3, 4], 1),
        individual(vec![-3, -4], 1),
    ];
    let stats = summarize(&population, &vec![10, 30, 20]);
    assert_eq!(
        stats,
        EsStats { best_fitness: 30, total_fitness: 60, size: 3, diversity_squared: 100 }
    );
    let alone = summarize(&population[..1].iter().map(copy_individual).collect(), &vec![10]);
    assert_eq!(alone.diversity_squared, 0);
}

#[test]
fn es_diversity_is_capped_rather_than_wrapped() {
    let population = vec![
        individual(vec![i64::MAX, i64::MAX], 1),
        individual(vec![i64::MIN, i64::MIN], 1),
    ];
    let stats = summarize(&population, &vec![0, 0]);
    assert_eq!(stats.diversity_squared, u128::MAX);
    let single = vec![individual(vec![i64::MAX], 1), individual(vec![i64::MIN], 1)];
    let exact = summarize(&single, &vec![0, 0]);
    assert_eq!(exact.diversity_squared, (u64::MAX as u128) * (u64::MAX as u128));
}

#[test]
fn early_stop_needs_a_mean_above_the_threshold() {
    let stats = |total: u128| EsStats { best_fitness: 0, total_fitness: total, size: 4, diversity_squared: 0 };
    assert_eq!(EARLY_STOP, 990_000_000);
    assert!(!check_early_stop(&stats(4 * 990_000_000), 4));
    assert!(check_early_stop(&stats(4 * 990_000_000 + 1), 4));
    assert!(!check_early_stop(&stats(4 * 990_000_000 + 1), 5));
    assert!(!check_early_stop(&stats(u128::MAX), 0));
}

#[test]
fn evaluations_count_parents_and_offspring_of_each_generation() {
    assert_eq!(count_evaluations(0, 15, 100), 0);
    assert_eq!(count_evaluations(1, 15, 100), 115);
    assert_eq!(count_evaluations(1000, 15, 100), 115_000);
    assert_eq!(count_evaluations(usize::MAX, usize::MAX, usize::MAX), u128::MAX);
}

#[test]
fn himmelblau_run_improves_on_its_first_population() {
    let mut rng = ChaCha8Rng::seed_from_u64(5000);
    let params = es_params(15, 100);
    let run = evolution_strategy(&Himmelblau, &Gaussian, &params, &mut rng).unwrap();
    let first = run.history[0];
    let last = run.history[run.history.len() - 1];
    assert!(last.best_fitness > first.best_fitness);
    let final_scores = evaluate(&run.population, &Himmelblau);
    assert!(*final_scores.iter().max().unwrap() > first.best_fitness);
    assert_eq!(run.population.len(), 15);
    assert!(run.population.iter().all(|member| member.genes.len() == 2 && member.sigma > 0));
    assert_eq!(run.history.len(), run.generations + usize::from(run.stopped_early));
    assert_eq!(run.evaluations, 115 * run.history.len() as u128);
    assert!(run.stopped_early || run.generations == 1000);
    let best = &run.population[0];
    let x = best.genes[0] as f64 / UNIT;
    let y = best.genes[1] as f64 / UNIT;
    let optima = [(3.0, 2.0), (-2.805118, 3.131312), (-3.779310, -3.283186), (3.584428, -1.848126)];
    assert!(optima.iter().any(|(ox, oy)| (x - ox).abs() < 0.2 && (y - oy).abs() < 0.2));
}

#[test]
fn es_run_stops_early_once_the_mean_exceeds_the_threshold() {
    let mut rng = ChaCha8Rng::seed_from_u64(5000);
    let params = ESParameters {
        mem_size: 1,
        mem_range: (ONE as i64, ONE as i64 + 1),
        ..es_params(4, 8)
    };
    let run = evolution_strategy(&FirstGene, &Gaussian, &params, &mut rng).unwrap();
    assert!(run.stopped_early);
    assert_eq!(run.generations, 0);
    assert_eq!(run.history.len(), 1);
    assert_eq!(run.evaluations, 12);
    assert_eq!(run.history[0].total_fitness, 4 * ONE as u128);
    assert_eq!(run.population.len(), 4);
    for member in &run.population {
        assert_eq!(member.sigma, params.sigma);
        assert_eq!(member.genes, vec![ONE as i64]);
    }
}

#[test]
fn es_run_returns_the_ranked_survivors_of_its_last_offspring() {
    let mut rng = ChaCha8Rng::seed_from_u64(5000);
    let params = ESParameters { max_gens: 7, ..es_params(5, 20) };
    let run = evolution_strategy(&Himmelblau, &Gaussian, &params, &mut rng).unwrap();
    assert_eq!(run.generations, 7);
    assert_eq!(run.population.len(), 5);
    let scores = evaluate(&run.population, &Himmelblau);
    assert!(scores.windows(2).all(|pair| pair[0] >= pair[1]));
    let idle = ESParameters { max_gens: 0, lambda: 0, ..es_params(5, 20) };
    let first = evolution_strategy(&Himmelblau, &Gaussian, &idle, &mut rng).unwrap();
    assert_eq!(first.generations, 0);
    assert!(first.population.iter().all(|member| member.sigma == idle.sigma));
    let barren = ESParameters { lambda: 0, max_gens: 3, ..es_params(5, 20) };
    let emptied = evolution_strategy(&Himmelblau, &Gaussian, &barren, &mut rng).unwrap();
    assert_eq!(emptied.generations, 3);
    assert!(emptied.population.is_empty());
}

#[test]
fn es_run_reports_its_errors() {
    let mut rng = ChaCha8Rng::seed_from_u64(5000);
    let no_step = ESParameters { sigma: 0, ..es_params(15, 100) };
    assert!(matches!(
        evolution_strategy(&Himmelblau, &Gaussian, &no_step, &mut rng),
        Err(ConfigError::ZeroStepSize)
    ));
    let no_range = ESParameters { mem_range: (1, 1), ..es_params(15, 100) };
    assert!(matches!(
        evolution_strategy(&Himmelblau, &Gaussian, &no_range, &mut rng),
        Err(ConfigError::EmptyGeneRange)
    ));
    let nobody = es_params(0, 100);
    assert!(matches!(
        evolution_strategy(&Himmelblau, &Gaussian, &nobody, &mut rng),
        Err(ConfigError::EmptyPopulation)
    ));
    let idle = ESParameters { max_gens: 0, ..es_params(0, 100) };
    let run = evolution_strategy(&Himmelblau, &Gaussian, &idle, &mut rng).unwrap();
    assert_eq!(run.generations, 0);
    assert_eq!(run.evaluations, 0);
}

#[test]
fn es_run_with_fewer_offspring_than_parents_shrinks_to_lambda() {
    let mut rng = ChaCha8Rng::seed_from_u64(5000);
    let params = ESParameters { max_gens: 5, ..es_params(10, 4) };
    let run = evolution_strategy(&Himmelblau, &Gaussian, &params, &mut rng).unwrap();
    assert_eq!(run.population.len(), 4);
    assert_eq!(run.history[0].size, 10);
    assert!(run.history[1..].iter().all(|stats| stats.size == 4));
}

#[test]
fn es_run_repeats_under_the_same_seed() {
    let params = ESParameters { max_gens: 20, ..es_params(5, 20) };
    let mut first = ChaCha8Rng::seed_from_u64(77);
    let mut second = ChaCha8Rng::seed_from_u64(77);
    let a = evolution_strategy(&Himmelblau, &Gaussian, &params, &mut first).unwrap();
    let b = evolution_strategy(&Himmelblau, &Gaussian, &params, &mut second).unwrap();
    assert_eq!(a.history, b.history);
    assert!(a.population.iter().zip(&b.population).all(|(x, y)| same(x, y)));
}
