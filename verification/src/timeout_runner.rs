use vstd::prelude::*;
use rand_chacha::ChaCha8Rng;
use std::time::Instant;
use crate::bitstring::are_scores;
use crate::bitstring::fails_on;
use crate::bitstring::fails_to_score;
use crate::bitstring::is_next_generation;
use crate::bitstring::may_fail_to_cross;
use crate::bitstring::is_breeding_error;
use crate::bitstring::never_fails;
use crate::bitstring::objective_fails;
use crate::bitstring::check_convergence;
use crate::bitstring::describes;
use crate::bitstring::is_population;
use crate::bitstring::duplicate_count;
use crate::bitstring::has_converged;
use crate::bitstring::GAParameters;
use crate::bitstring::PopulationStats;
use crate::bitstring::DEFAULT_TOURNAMENT_SIZE;
use crate::bitstring::Selection;
use crate::clock::elapsed_nanos;
use crate::clock::now;
use crate::error::ConfigError;
use crate::evol_strat::check_early_stop;
use crate::evol_strat::is_es_population;
use crate::evol_strat::is_generation_after;
use crate::evol_strat::start_error;
use crate::evol_strat::stops_early;
use crate::evol_strat::EsStats;
use crate::evol_strat::ESParameters;
use crate::evol_strat::Individual;
use crate::evol_strat::Variation;
use crate::fitness::Fitness;
use crate::parameter_tuning::es_map;
use crate::parameter_tuning::ga_map;
use crate::parameter_tuning::Algorithm;
use crate::parameter_tuning::ParamMap;
use crate::parameter_tuning::ParameterGrid;
use crate::parameter_tuning::TuningConfig;
use crate::parameter_tuning::TuningResult;
use crate::random::seeded_rng;
use crate::stats::best_score;
use crate::stats::is_best_score;
use crate::stats::total_score;
use crate::stats::sum_scores;

verus! {

/// The seed from which the seed of each run is counted up.
pub const BASE_SEED: u64 = 5000;

/// The number of nanoseconds in a second.
pub const NANOS_PER_SECOND: u64 = 1_000_000_000;

/// What a timed run reports of itself.
#[derive(Clone, Copy, Debug, PartialEq, Eq, Structural)]
pub struct ExecutionStats {
    /// The best fitness in the last generation that was measured.
    pub max_fitness: u64,
    /// The number of generations that were replaced.
    pub generations: usize,
    /// Whether the run converged.
    pub converged: bool,
    /// Whether the time budget was used up.
    pub timeout_reached: bool,
    /// The time the run took, in nanoseconds.
    pub execution_time: u64,
}

/// The seed of a run: the base seed plus the run's number, where that fits
/// a `u64`.
pub open spec fn seed_of(run_id: usize) -> Option<u64> {
    if BASE_SEED + run_id <= u64::MAX {
        Some((BASE_SEED + run_id) as u64)
    } else {
        None
    }
}

/// The time budget in nanoseconds, capped at the largest value a `u64`
/// holds.
pub open spec fn budget_of(timeout_seconds: u64) -> u64 {
    if timeout_seconds * NANOS_PER_SECOND <= u64::MAX {
        (timeout_seconds * NANOS_PER_SECOND) as u64
    } else {
        u64::MAX
    }
}

/// The score of a run: its best fitness divided by its execution time in
/// seconds, rounded down and capped at the largest value a `u64` holds; zero
/// where no time has passed.
pub open spec fn score_of(max_fitness: u64, execution_time: u64) -> u64 {
    if execution_time == 0 {
        0
    } else {
        let quotient = (max_fitness * NANOS_PER_SECOND) / (execution_time as int);
        if quotient <= u64::MAX {
            quotient as u64
        } else {
            u64::MAX
        }
    }
}

/// What stands for a run that failed: no fitness, no generation, no
/// convergence, the time budget used up in full.
pub open spec fn worst_case(timeout_seconds: u64) -> ExecutionStats {
    ExecutionStats {
        max_fitness: 0,
        generations: 0,
        converged: false,
        timeout_reached: true,
        execution_time: budget_of(timeout_seconds),
    }
}

/// The outcome that reports `stats` for the given run.
pub open spec fn outcome_of(
    algorithm: Algorithm,
    parameters: ParamMap,
    run_id: usize,
    stats: ExecutionStats,
) -> TuningResult {
    TuningResult {
        algorithm,
        parameters,
        run_id,
        max_fitness: stats.max_fitness,
        execution_time: stats.execution_time,
        score: score_of(stats.max_fitness, stats.execution_time),
        converged: stats.converged,
        generations: stats.generations,
        timeout_reached: stats.timeout_reached,
    }
}

/// The statistics with which a timed run closes: what it measured, and the
/// flag that is set where the run was cut short by the clock or its last
/// reading has reached the budget.
pub open spec fn closed_run(
    max_fitness: u64,
    generations: usize,
    converged: bool,
    out_of_time: bool,
    elapsed: u64,
    budget: u64,
) -> ExecutionStats {
    ExecutionStats {
        max_fitness,
        generations,
        converged,
        timeout_reached: out_of_time || elapsed >= budget,
        execution_time: elapsed,
    }
}

/// The number of generations that were measured, given the readings of the
/// clock at the start of each round: all of them but the one that cut the run
/// short.
pub open spec fn measured(starts: Seq<u64>, out_of_time: bool) -> int {
    starts.len() - if out_of_time {
        1int
    } else {
        0int
    }
}

/// `stats` closes a timed run whose clock read `starts` at the start of its
/// rounds. Every generation that was measured began under the budget; a
/// reading at or over the budget cut the run short (`out_of_time`), and then
/// nothing more was measured and the run has not converged. A run that
/// converged or was cut short has replaced fewer generations than it might;
/// any other run has replaced them all.
pub open spec fn is_timed_trace(
    stats: ExecutionStats,
    starts: Seq<u64>,
    out_of_time: bool,
    max_generations: usize,
    budget: u64,
) -> bool {
    &&& stats.generations <= max_generations
    &&& starts.len() == stats.generations + if stats.converged || out_of_time {
        1int
    } else {
        0int
    }
    &&& forall|i: int| 0 <= i < measured(starts, out_of_time) ==> #[trigger] starts[i] < budget
    &&& out_of_time ==> starts[starts.len() - 1] >= budget
    &&& !(stats.converged && out_of_time)
    &&& stats.converged || out_of_time ==> stats.generations < max_generations
    &&& !stats.converged && !out_of_time ==> stats.generations == max_generations
    &&& measured(starts, out_of_time) == 0 ==> stats.max_fitness == 0
    &&& stats.timeout_reached == (out_of_time || stats.execution_time >= budget)
}

/// `stats` closes a timed run of at most `max_generations` generations under
/// the given budget, for some readings of the clock.
pub open spec fn is_timed_run(
    stats: ExecutionStats,
    max_generations: usize,
    timeout_seconds: u64,
) -> bool {
    exists|starts: Seq<u64>, out_of_time: bool| #[trigger]
        is_timed_trace(stats, starts, out_of_time, max_generations, budget_of(timeout_seconds))
}

/// `result` is the outcome of a timed run.
pub open spec fn is_outcome(
    result: TuningResult,
    algorithm: Algorithm,
    parameters: ParamMap,
    run_id: usize,
    max_generations: usize,
    timeout_seconds: u64,
) -> bool {
    exists|stats: ExecutionStats|
        is_timed_run(stats, max_generations, timeout_seconds) && result == #[trigger] outcome_of(
            algorithm,
            parameters,
            run_id,
            stats,
        )
}

/// `stats` measures the population by its scores and its duplicates alone,
/// under the scores that the objective gives to its members.
pub open spec fn is_measure_of<F: Fitness>(
    stats: PopulationStats,
    population: Seq<Vec<bool>>,
    fitness_fn: &F,
    num_dims: usize,
) -> bool {
    exists|scores: Seq<u64>|
        are_scores(fitness_fn, population, num_dims, scores) && #[trigger] describes(
            stats,
            population,
            scores,
            Seq::<Vec<i64>>::empty(),
        )
}

/// `stats` measures the population, and `next` is a generation bred from it
/// by tournaments of the default size, under the same scores that the
/// objective gives to its members; members of one width give offspring of
/// that width.
pub open spec fn is_bred_from<F: Fitness>(
    stats: PopulationStats,
    next: Seq<Vec<bool>>,
    population: Seq<Vec<bool>>,
    params: GAParameters,
    fitness_fn: &F,
    num_dims: usize,
) -> bool {
    &&& exists|scores: Seq<u64>|
        are_scores(fitness_fn, population, num_dims, scores) && describes(
            stats,
            population,
            scores,
            Seq::<Vec<i64>>::empty(),
        ) && #[trigger] is_next_generation(
            next,
            population,
            scores,
            params,
            Selection::Tournament(DEFAULT_TOURNAMENT_SIZE),
        )
    &&& is_population(population, population.len() as int, params.mem_size as int)
        ==> is_population(next, params.pop_size as int, params.mem_size as int)
}

/// `stats` measures the parents by their scores alone, under the scores that
/// the objective gives to them.
pub open spec fn is_es_measure_of<F: Fitness>(
    stats: EsStats,
    population: Seq<Individual>,
    fitness_fn: &F,
) -> bool {
    exists|scores: Seq<u64>|
        #[trigger] crate::evol_strat::are_scores(fitness_fn, population, scores) && is_best_score(
            scores,
            stats.best_fitness,
        ) && stats.total_fitness == total_score(scores) && stats.size == population.len()
            && stats.diversity_squared == 0
}

/// `last` measures some population of the configured shape under the
/// objective, by its scores and its duplicates alone.
pub open spec fn is_sga_measure<F: Fitness>(
    last: PopulationStats,
    params: GAParameters,
    num_dims: usize,
    fitness_fn: &F,
) -> bool {
    exists|population: Seq<Vec<bool>>|
        is_population(population, params.pop_size as int, params.mem_size as int)
            && #[trigger] is_measure_of(last, population, fitness_fn, num_dims)
}

/// `last` measures some parents of the configured gene count under the
/// objective, by their scores alone.
pub open spec fn is_es_measure<F: Fitness>(
    last: EsStats,
    params: ESParameters,
    fitness_fn: &F,
) -> bool {
    exists|population: Seq<Individual>|
        is_es_population(population, last.size as int, params.mem_size as int)
            && #[trigger] is_es_measure_of(last, population, fitness_fn)
}

/// How a timed run of the genetic algorithm ends. A run that replaced a
/// generation or converged has measured one: the fitness it reports is the
/// best of the last generation it measured under the objective, and it has
/// converged exactly if that generation met the convergence test. Any other
/// run has measured nothing.
pub open spec fn is_sga_ending<F: Fitness>(
    max_fitness: u64,
    generations: usize,
    converged: bool,
    params: GAParameters,
    num_dims: usize,
    fitness_fn: &F,
) -> bool {
    if generations > 0 || converged {
        exists|last: PopulationStats|
            #[trigger] is_sga_measure(last, params, num_dims, fitness_fn) && last.max_fitness
                == max_fitness && (converged <==> has_converged(
                last,
                params.convergence_threshold,
            ))
    } else {
        max_fitness == 0
    }
}

/// How a timed run of the evolution strategy ends. A run that replaced a
/// generation or converged has measured one: the fitness it reports is the
/// best of the last parents it measured under the objective, and it has
/// converged exactly if those parents met the early stop. Any other run has
/// measured nothing.
pub open spec fn is_es_ending<F: Fitness>(
    max_fitness: u64,
    generations: usize,
    converged: bool,
    params: ESParameters,
    fitness_fn: &F,
) -> bool {
    if generations > 0 || converged {
        exists|last: EsStats|
            #[trigger] is_es_measure(last, params, fitness_fn) && last.best_fitness
                == max_fitness && (converged <==> stops_early(last, params.mu))
    } else {
        max_fitness == 0
    }
}

/// The error with which a timed step of the genetic algorithm may end on a
/// population: one of the objective on a member, or of crossover.
pub open spec fn is_sga_step_error<F: Fitness>(
    e: ConfigError,
    population: Seq<Vec<bool>>,
    params: GAParameters,
    fitness_fn: &F,
    num_dims: usize,
) -> bool {
    ||| fails_to_score(fitness_fn, population, num_dims, e)
    ||| params.pop_size > 0 && e == ConfigError::EmptyPopulation && population.len() == 0
    ||| params.pop_size > 0 && may_fail_to_cross(e, population, params)
}

/// What the generations of a timed run of the genetic algorithm end in:
/// the statistics of a timed run with its ending, or an error of the
/// objective or the breeding.
pub open spec fn is_sga_attempt<F: Fitness>(
    ended: Result<ExecutionStats, ConfigError>,
    params: GAParameters,
    config: TuningConfig,
    fitness_fn: &F,
) -> bool {
    match ended {
        Ok(stats) => {
            &&& is_timed_run(stats, params.max_iters, config.timeout_seconds)
            &&& is_sga_ending(
                stats.max_fitness,
                stats.generations,
                stats.converged,
                params,
                config.num_dimensions,
                fitness_fn,
            )
            &&& params.pop_size == 0 ==> stats.max_fitness == 0 && !stats.converged
        },
        Err(e) => params.max_iters > 0 && config.timeout_seconds > 0 && (is_breeding_error(
            e,
            params,
            Selection::Tournament(DEFAULT_TOURNAMENT_SIZE),
        ) || objective_fails(fitness_fn, params, config.num_dimensions, e)),
    }
}

/// What the generations of a timed run of the evolution strategy end in:
/// the error of the first population, if there is one; else the statistics of
/// a timed run with its ending, or, without parents, the failure to breed.
pub open spec fn is_es_attempt<F: Fitness>(
    ended: Result<ExecutionStats, ConfigError>,
    params: ESParameters,
    config: TuningConfig,
    fitness_fn: &F,
) -> bool {
    match ended {
        Ok(stats) => {
            &&& start_error(params) is None
            &&& is_timed_run(stats, params.max_gens, config.timeout_seconds)
            &&& is_es_ending(
                stats.max_fitness,
                stats.generations,
                stats.converged,
                params,
                fitness_fn,
            )
            &&& params.mu == 0 ==> stats.max_fitness == 0 && !stats.converged
        },
        Err(e) => start_error(params) == Some(e) || (e == ConfigError::EmptyPopulation
            && start_error(params) is None && params.mu == 0 && params.lambda > 0
            && params.max_gens > 0 && config.timeout_seconds > 0),
    }
}

/// The statistics that are reported of an attempt: its own, or the worst
/// case where it ended in an error.
pub open spec fn settled(
    ended: Result<ExecutionStats, ConfigError>,
    timeout_seconds: u64,
) -> ExecutionStats {
    match ended {
        Ok(stats) => stats,
        Err(_) => worst_case(timeout_seconds),
    }
}

/// `result` is the outcome of a timed run of the genetic algorithm under the
/// objective: the worst case where the seed does not fit, else what is
/// reported of the attempt.
pub open spec fn is_sga_outcome<F: Fitness>(
    result: TuningResult,
    params: GAParameters,
    config: TuningConfig,
    run_id: usize,
    fitness_fn: &F,
) -> bool {
    &&& is_outcome(
        result,
        Algorithm::Sga,
        ga_map(params),
        run_id,
        params.max_iters,
        config.timeout_seconds,
    )
    &&& seed_of(run_id) is None ==> result == outcome_of(
        Algorithm::Sga,
        ga_map(params),
        run_id,
        worst_case(config.timeout_seconds),
    )
    &&& seed_of(run_id) is Some ==> exists|ended: Result<ExecutionStats, ConfigError>|
        #[trigger] is_sga_attempt(ended, params, config, fitness_fn) && result == outcome_of(
            Algorithm::Sga,
            ga_map(params),
            run_id,
            settled(ended, config.timeout_seconds),
        )
}

/// `result` is the outcome of a timed run of the evolution strategy under
/// the objective: the worst case where the seed does not fit, else what is
/// reported of the attempt.
pub open spec fn is_es_outcome<F: Fitness>(
    result: TuningResult,
    params: ESParameters,
    config: TuningConfig,
    run_id: usize,
    fitness_fn: &F,
) -> bool {
    &&& is_outcome(
        result,
        Algorithm::Es,
        es_map(params),
        run_id,
        params.max_gens,
        config.timeout_seconds,
    )
    &&& seed_of(run_id) is None ==> result == outcome_of(
        Algorithm::Es,
        es_map(params),
        run_id,
        worst_case(config.timeout_seconds),
    )
    &&& seed_of(run_id) is Some ==> exists|ended: Result<ExecutionStats, ConfigError>|
        #[trigger] is_es_attempt(ended, params, config, fitness_fn) && result == outcome_of(
            Algorithm::Es,
            es_map(params),
            run_id,
            settled(ended, config.timeout_seconds),
        )
}

/// `results` holds one outcome for each configuration and each of
/// `num_runs` repetitions, configuration by configuration.
pub open spec fn is_sga_sweep<F: Fitness>(
    results: Seq<TuningResult>,
    grid: Seq<GAParameters>,
    config: TuningConfig,
    fitness_fn: &F,
) -> bool {
    &&& results.len() == grid.len() * config.num_runs
    &&& forall|c: int, r: int|
        0 <= c < grid.len() && 0 <= r < config.num_runs ==> is_sga_outcome(
            #[trigger] results[c * config.num_runs + r],
            grid[c],
            config,
            r as usize,
            fitness_fn,
        )
}

/// `results` holds one outcome for each configuration and each of
/// `num_runs` repetitions, configuration by configuration.
pub open spec fn is_es_sweep<F: Fitness>(
    results: Seq<TuningResult>,
    grid: Seq<ESParameters>,
    config: TuningConfig,
    fitness_fn: &F,
) -> bool {
    &&& results.len() == grid.len() * config.num_runs
    &&& forall|c: int, r: int|
        0 <= c < grid.len() && 0 <= r < config.num_runs ==> is_es_outcome(
            #[trigger] results[c * config.num_runs + r],
            grid[c],
            config,
            r as usize,
            fitness_fn,
        )
}

/// The worst case is a timed run: the one whose clock read the budget before
/// its first generation and again at its end, or, where no generation is
/// allowed, read the budget at its end.
pub proof fn law_worst_case_is_timed_run(max_generations: usize, timeout_seconds: u64)
    ensures
        is_timed_run(worst_case(timeout_seconds), max_generations, timeout_seconds),
{
    let budget = budget_of(timeout_seconds);
    if max_generations > 0 {
        assert(is_timed_trace(
            worst_case(timeout_seconds),
            seq![budget],
            true,
            max_generations,
            budget,
        ));
    } else {
        assert(is_timed_trace(
            worst_case(timeout_seconds),
            Seq::<u64>::empty(),
            false,
            max_generations,
            budget,
        ));
    }
}

/// Once a reading of the clock has reached the budget, no generation is
/// started: a timed run replaces as many generations as it measured without
/// converging, and it measured each of them on a reading under the budget.
/// Without a budget it therefore starts none, measures nothing and is
/// flagged.
pub proof fn law_no_generation_after_the_budget(
    stats: ExecutionStats,
    starts: Seq<u64>,
    out_of_time: bool,
    max_generations: usize,
    budget: u64,
)
    requires
        is_timed_trace(stats, starts, out_of_time, max_generations, budget),
    ensures
        stats.generations <= measured(starts, out_of_time),
        forall|i: int| 0 <= i < stats.generations ==> #[trigger] starts[i] < budget,
        budget == 0 ==> stats.generations == 0 && stats.max_fitness == 0 && !stats.converged
            && stats.timeout_reached,
        out_of_time ==> !stats.converged && stats.timeout_reached,
        !out_of_time && stats.execution_time < budget ==> !stats.timeout_reached,
{
    if budget == 0 && measured(starts, out_of_time) > 0 {
        assert(starts[0] < budget);
    }
}

/// What every outcome of a timed run shows, whatever the clock read:
/// - it names its algorithm, configuration and run, and its score is its
///   fitness per second;
/// - it has replaced at most the generations allowed, fewer if it converged,
///   and all of them if it neither converged nor is flagged;
/// - it is flagged if its time has reached the budget;
/// - flagged with its time under the budget, it was cut short by the clock
///   before a generation, and so has not converged;
/// - without a budget it has started no generation.
pub proof fn law_timed_outcome(
    result: TuningResult,
    algorithm: Algorithm,
    parameters: ParamMap,
    run_id: usize,
    max_generations: usize,
    timeout_seconds: u64,
)
    requires
        is_outcome(result, algorithm, parameters, run_id, max_generations, timeout_seconds),
    ensures
        result.algorithm == algorithm && result.parameters == parameters && result.run_id
            == run_id,
        result.score == score_of(result.max_fitness, result.execution_time),
        result.generations <= max_generations,
        result.converged ==> result.generations < max_generations,
        !result.converged && !result.timeout_reached ==> result.generations == max_generations,
        result.execution_time >= budget_of(timeout_seconds) ==> result.timeout_reached,
        result.timeout_reached && result.execution_time < budget_of(timeout_seconds)
            ==> !result.converged && result.generations < max_generations,
        timeout_seconds == 0 ==> result.generations == 0 && result.max_fitness == 0
            && !result.converged && result.timeout_reached,
{
    let stats = choose|stats: ExecutionStats|
        is_timed_run(stats, max_generations, timeout_seconds) && result == #[trigger] outcome_of(
            algorithm,
            parameters,
            run_id,
            stats,
        );
    let (starts, out_of_time) = choose|starts: Seq<u64>, out_of_time: bool| #[trigger]
        is_timed_trace(stats, starts, out_of_time, max_generations, budget_of(timeout_seconds));
    law_no_generation_after_the_budget(
        stats,
        starts,
        out_of_time,
        max_generations,
        budget_of(timeout_seconds),
    );
}

/// A count of nanoseconds held to the range of a `u64`.
pub open spec fn capped(nanos: u128) -> u64 {
    if nanos > u64::MAX {
        u64::MAX
    } else {
        nanos as u64
    }
}

/// A count of nanoseconds held to the range of a `u64`: what the clock reads
/// is kept in this form.
pub fn cap_nanos(nanos: u128) -> (held: u64)
    ensures
        held == capped(nanos),
{
    if nanos > u64::MAX as u128 {
        u64::MAX
    } else {
        nanos as u64
    }
}

/// Whether a generation may start on a reading of the clock: only under the
/// budget.
pub fn may_start_generation(elapsed: u64, budget: u64) -> (go: bool)
    ensures
        go == (elapsed < budget),
{
    elapsed < budget
}

/// The statistics with which a timed run closes, given what it measured,
/// whether the clock cut it short, and the last reading of the clock.
pub fn close_timed_run(
    max_fitness: u64,
    generations: usize,
    converged: bool,
    out_of_time: bool,
    elapsed: u64,
    budget: u64,
) -> (stats: ExecutionStats)
    ensures
        stats == closed_run(max_fitness, generations, converged, out_of_time, elapsed, budget),
{
    ExecutionStats {
        max_fitness,
        generations,
        converged,
        timeout_reached: out_of_time || elapsed >= budget,
        execution_time: elapsed,
    }
}

/// The seed of a run, or `None` where it does not fit a `u64`.
pub fn run_seed(run_id: usize) -> (seed: Option<u64>)
    ensures
        seed == seed_of(run_id),
{
    BASE_SEED.checked_add(run_id as u64)
}

/// The time budget in nanoseconds.
pub fn budget_nanos(timeout_seconds: u64) -> (budget: u64)
    ensures
        budget == budget_of(timeout_seconds),
{
    match timeout_seconds.checked_mul(NANOS_PER_SECOND) {
        Some(budget) => budget,
        None => u64::MAX,
    }
}

/// The score of a run: fitness per second.
pub fn score(max_fitness: u64, execution_time: u64) -> (score: u64)
    ensures
        score == score_of(max_fitness, execution_time),
{
    if execution_time == 0 {
        return 0;
    }
    assert(max_fitness * NANOS_PER_SECOND <= 0xffff_ffff_ffff_ffff * 1_000_000_000)
        by (nonlinear_arith)
        requires
            0 <= max_fitness <= 0xffff_ffff_ffff_ffff,
            NANOS_PER_SECOND == 1_000_000_000,
    ;
    let quotient: u128 = max_fitness as u128 * NANOS_PER_SECOND as u128 / execution_time as u128;
    if quotient > u64::MAX as u128 {
        u64::MAX
    } else {
        quotient as u64
    }
}

/// The outcome that reports `stats` for the given run.
pub fn outcome(algorithm: Algorithm, parameters: ParamMap, run_id: usize, stats: &ExecutionStats) -> (result:
    TuningResult)
    ensures
        result == outcome_of(algorithm, parameters, run_id, *stats),
{
    TuningResult {
        algorithm,
        parameters,
        run_id,
        max_fitness: stats.max_fitness,
        execution_time: stats.execution_time,
        score: score(stats.max_fitness, stats.execution_time),
        converged: stats.converged,
        generations: stats.generations,
        timeout_reached: stats.timeout_reached,
    }
}

/// What one round of a timed run of the genetic algorithm comes to.
pub enum TimedStep {
    /// The reading of the clock had reached the budget: nothing was done.
    OutOfTime,
    /// The generation was measured and met the convergence test.
    Converged(PopulationStats),
    /// The generation was measured, did not meet the convergence test, and
    /// was replaced by the generation bred from it.
    Bred(PopulationStats, Vec<Vec<bool>>),
}

/// What one round of a timed run of the evolution strategy comes to.
pub enum EsTimedStep {
    /// The reading of the clock had reached the budget: nothing was done.
    OutOfTime,
    /// The parents were measured and met the early stop.
    Converged(EsStats),
    /// The parents were measured, did not meet the early stop, and were
    /// replaced by the survivors of their offspring.
    Bred(EsStats, Vec<Individual>),
}

/// One round of a timed run of the genetic algorithm on a reading of the
/// clock. At or over the budget nothing is done. Under the budget the
/// population is measured by its scores and duplicates; where it meets the
/// convergence test the round ends there, else the next generation is bred
/// by tournaments of the default size.
pub fn sga_timed_step<F: Fitness>(
    fitness_fn: &F,
    params: &GAParameters,
    num_dims: usize,
    population: &Vec<Vec<bool>>,
    reading: u64,
    budget: u64,
    rng: &mut ChaCha8Rng,
) -> (step: Result<TimedStep, ConfigError>)
    ensures
        reading >= budget ==> step == Ok::<TimedStep, ConfigError>(TimedStep::OutOfTime),
        reading < budget ==> match step {
            Ok(TimedStep::OutOfTime) => false,
            Ok(TimedStep::Converged(stats)) => is_measure_of(
                stats,
                population@,
                fitness_fn,
                num_dims,
            ) && has_converged(stats, params.convergence_threshold),
            Ok(TimedStep::Bred(stats, next)) => !has_converged(
                stats,
                params.convergence_threshold,
            ) && is_bred_from(stats, next@, population@, *params, fitness_fn, num_dims),
            Err(e) => is_sga_step_error(e, population@, *params, fitness_fn, num_dims),
        },
        reading < budget && (population@.len() == 0 || never_fails(fitness_fn, num_dims)) && (
        params.pop_size == 0 || (population@.len() > 0 && is_population(
            population@,
            population@.len() as int,
            params.mem_size as int,
        ) && (params.mem_size >= 2 || params.crossover_rate == 0))) ==> step is Ok,
{
    if !may_start_generation(reading, budget) {
        return Ok(TimedStep::OutOfTime);
    }
    let scores: Vec<u64> = match crate::bitstring::evaluate(population, fitness_fn, num_dims) {
        Ok(scores) => scores,
        Err(e) => {
            return Err(e);
        },
    };
    let stats: PopulationStats = PopulationStats {
        max_fitness: best_score(&scores),
        total_fitness: sum_scores(&scores),
        size: population.len(),
        duplicates: duplicate_count(population),
        diversity_squared: 0,
    };
    assert(describes(stats, population@, scores@, Seq::<Vec<i64>>::empty()));
    if check_convergence(&stats, params.convergence_threshold) {
        return Ok(TimedStep::Converged(stats));
    }
    match crate::bitstring::create_next_generation(
        population,
        &scores,
        params,
        Selection::Tournament(DEFAULT_TOURNAMENT_SIZE),
        rng,
    ) {
        Ok(next) => {
            assert(is_bred_from(stats, next@, population@, *params, fitness_fn, num_dims));
            Ok(TimedStep::Bred(stats, next))
        },
        Err(e) => Err(e),
    }
}

/// One round of a timed run of the evolution strategy on a reading of the
/// clock. At or over the budget nothing is done. Under the budget the
/// parents are measured by their scores; where their mean fitness exceeds the
/// early stop the round ends there, else they are replaced by the survivors
/// of the offspring bred from them. Without parents the breeding of
/// offspring fails.
pub fn es_timed_step<F: Fitness, V: Variation>(
    fitness_fn: &F,
    variation: &V,
    params: &ESParameters,
    population: &Vec<Individual>,
    reading: u64,
    budget: u64,
    rng: &mut ChaCha8Rng,
) -> (step: Result<EsTimedStep, ConfigError>)
    ensures
        reading >= budget ==> step == Ok::<EsTimedStep, ConfigError>(EsTimedStep::OutOfTime),
        reading < budget ==> match step {
            Ok(EsTimedStep::OutOfTime) => false,
            Ok(EsTimedStep::Converged(stats)) => is_es_measure_of(
                stats,
                population@,
                fitness_fn,
            ) && stops_early(stats, params.mu),
            Ok(EsTimedStep::Bred(stats, next)) => {
                &&& is_es_measure_of(stats, population@, fitness_fn)
                &&& !stops_early(stats, params.mu)
                &&& is_generation_after(
                    next@,
                    population@,
                    params.mu as int,
                    params.lambda as int,
                    fitness_fn,
                )
                &&& next@.len() == if params.mu <= params.lambda {
                    params.mu
                } else {
                    params.lambda
                }
                &&& is_es_population(population@, population@.len() as int, params.mem_size as int)
                    ==> is_es_population(next@, next@.len() as int, params.mem_size as int)
            },
            Err(e) => e == ConfigError::EmptyPopulation && params.lambda > 0 && population@.len()
                == 0,
        },
        reading < budget && (params.lambda == 0 || population@.len() > 0) ==> step is Ok,
        reading < budget && params.lambda > 0 && population@.len() == 0 ==> step == Err::<
            EsTimedStep,
            ConfigError,
        >(ConfigError::EmptyPopulation),
{
    if !may_start_generation(reading, budget) {
        return Ok(EsTimedStep::OutOfTime);
    }
    let scores: Vec<u64> = crate::evol_strat::evaluate(population, fitness_fn);
    let stats: EsStats = EsStats {
        best_fitness: best_score(&scores),
        total_fitness: sum_scores(&scores),
        size: population.len(),
        diversity_squared: 0,
    };
    assert(is_es_measure_of(stats, population@, fitness_fn)) by {
        assert(crate::evol_strat::are_scores(fitness_fn, population@, scores@));
    }
    if check_early_stop(&stats, params.mu) {
        return Ok(EsTimedStep::Converged(stats));
    }
    match crate::evol_strat::create_es_offspring(population, params, fitness_fn, variation, rng) {
        Ok(next) => Ok(EsTimedStep::Bred(stats, next)),
        Err(e) => Err(e),
    }
}

/// The statistics that are reported of an attempt: its own, or the worst
/// case, with the whole budget as its time, where it ended in an error.
pub fn close_run(ended: Result<ExecutionStats, ConfigError>, config: &TuningConfig) -> (stats:
    ExecutionStats)
    ensures
        stats == settled(ended, config.timeout_seconds),
{
    match ended {
        Ok(stats) => stats,
        Err(_) => TimeoutRunner::worst_case_stats(config),
    }
}

/// The runner of single runs and of whole sweeps under a time budget.
pub struct TimeoutRunner;

impl TimeoutRunner {
    /// What stands for a run that failed.
    pub fn worst_case_stats(config: &TuningConfig) -> (stats: ExecutionStats)
        ensures
            stats == worst_case(config.timeout_seconds),
    {
        ExecutionStats {
            max_fitness: 0,
            generations: 0,
            converged: false,
            timeout_reached: true,
            execution_time: budget_nanos(config.timeout_seconds),
        }
    }

    /// The generations of a timed run of the genetic algorithm. The clock is
    /// read before each round and handed to the step; the run ends on the
    /// first round that is out of time or converged, on the first error, or
    /// after `max_iters` replacements, and is closed on a last reading. The
    /// run succeeds wherever no generation is evaluated, wherever the
    /// population is empty, and wherever neither the objective nor the
    /// breeding can fail.
    pub fn sga_generations<F: Fitness>(
        fitness_fn: &F,
        params: &GAParameters,
        config: &TuningConfig,
        start: &Instant,
        rng: &mut ChaCha8Rng,
    ) -> (stats: Result<ExecutionStats, ConfigError>)
        ensures
            is_sga_attempt(stats, *params, *config, fitness_fn),
            params.max_iters == 0 || config.timeout_seconds == 0 || params.pop_size == 0
                ==> stats is Ok,
            never_fails(fitness_fn, config.num_dimensions) && (params.mem_size >= 2
                || params.crossover_rate == 0) ==> stats is Ok,
    {
        let budget: u64 = budget_nanos(config.timeout_seconds);
        let mut population: Vec<Vec<bool>> = crate::bitstring::init_population(params, rng);
        let mut generations: usize = 0;
        let mut max_fitness: u64 = 0;
        let mut converged: bool = false;
        let mut out_of_time: bool = false;
        let ghost mut starts: Seq<u64> = Seq::empty();
        while generations < params.max_iters && !converged && !out_of_time
            invariant
                generations <= params.max_iters,
                budget == budget_of(config.timeout_seconds),
                is_population(population@, params.pop_size as int, params.mem_size as int),
                params.pop_size == 0 ==> max_fitness == 0 && !converged,
                starts.len() == generations + if converged || out_of_time { 1int } else { 0int },
                forall|i: int|
                    0 <= i < measured(starts, out_of_time) ==> #[trigger] starts[i] < budget,
                out_of_time ==> starts[starts.len() - 1] >= budget,
                !(converged && out_of_time),
                converged || out_of_time ==> generations < params.max_iters,
                measured(starts, out_of_time) == 0 ==> max_fitness == 0,
                is_sga_ending(
                    max_fitness,
                    generations,
                    converged,
                    *params,
                    config.num_dimensions,
                    fitness_fn,
                ),
            decreases
                    params.max_iters - generations,
                    if converged || out_of_time { 0int } else { 1int },
        {
            let reading: u64 = elapsed_nanos(start);
            proof {
                starts = starts.push(reading);
            }
            match sga_timed_step(
                fitness_fn,
                params,
                config.num_dimensions,
                &population,
                reading,
                budget,
                rng,
            ) {
                Ok(TimedStep::OutOfTime) => {
                    out_of_time = true;
                },
                Ok(TimedStep::Converged(stats)) => {
                    assert(is_sga_measure(stats, *params, config.num_dimensions, fitness_fn));
                    max_fitness = stats.max_fitness;
                    converged = true;
                },
                Ok(TimedStep::Bred(stats, next)) => {
                    assert(is_sga_measure(stats, *params, config.num_dimensions, fitness_fn)) by {
                        assert(is_measure_of(
                            stats,
                            population@,
                            fitness_fn,
                            config.num_dimensions,
                        ));
                    }
                    max_fitness = stats.max_fitness;
                    population = next;
                    generations += 1;
                },
                Err(e) => {
                    assert(is_breeding_error(
                        e,
                        *params,
                        Selection::Tournament(DEFAULT_TOURNAMENT_SIZE),
                    ) || objective_fails(fitness_fn, *params, config.num_dimensions, e)) by {
                        if fails_to_score(fitness_fn, population@, config.num_dimensions, e) {
                            assert(fails_on(fitness_fn, population@, config.num_dimensions, e));
                        }
                    }
                    return Err(e);
                },
            }
        }
        let elapsed: u64 = elapsed_nanos(start);
        let stats: ExecutionStats = close_timed_run(
            max_fitness,
            generations,
            converged,
            out_of_time,
            elapsed,
            budget,
        );
        assert(is_timed_trace(stats, starts, out_of_time, params.max_iters, budget));
        Ok(stats)
    }

    /// The generations of a timed run of the evolution strategy. The clock is
    /// read before each round and handed to the step; the run ends on the
    /// first round that is out of time or converged, on the first error, or
    /// after `max_gens` replacements, and is closed on a last reading. The
    /// run ends on the error of its first population, if there is one;
    /// without parents it fails as soon as offspring are to be bred. Every
    /// other run succeeds.
    pub fn es_generations<F: Fitness, V: Variation>(
        fitness_fn: &F,
        variation: &V,
        params: &ESParameters,
        config: &TuningConfig,
        start: &Instant,
        rng: &mut ChaCha8Rng,
    ) -> (stats: Result<ExecutionStats, ConfigError>)
        ensures
            is_es_attempt(stats, *params, *config, fitness_fn),
            start_error(*params) matches Some(e) ==> stats == Err::<ExecutionStats, ConfigError>(
                e,
            ),
            start_error(*params) is None && (params.mu > 0 || params.lambda == 0 || params.max_gens
                == 0 || config.timeout_seconds == 0) ==> stats is Ok,
    {
        let budget: u64 = budget_nanos(config.timeout_seconds);
        let mut population: Vec<Individual> = match crate::evol_strat::init_population(
            params,
            rng,
        ) {
            Ok(population) => population,
            Err(e) => {
                return Err(e);
            },
        };
        let mut generations: usize = 0;
        let mut max_fitness: u64 = 0;
        let mut converged: bool = false;
        let mut out_of_time: bool = false;
        let ghost mut starts: Seq<u64> = Seq::empty();
        while generations < params.max_gens && !converged && !out_of_time
            invariant
                generations <= params.max_gens,
                budget == budget_of(config.timeout_seconds),
                start_error(*params) is None,
                is_es_population(population@, population@.len() as int, params.mem_size as int),
                params.mu > 0 && params.lambda > 0 ==> population@.len() > 0,
                params.mu == 0 ==> population@.len() == 0 && max_fitness == 0 && !converged,
                starts.len() == generations + if converged || out_of_time { 1int } else { 0int },
                forall|i: int|
                    0 <= i < measured(starts, out_of_time) ==> #[trigger] starts[i] < budget,
                out_of_time ==> starts[starts.len() - 1] >= budget,
                !(converged && out_of_time),
                converged || out_of_time ==> generations < params.max_gens,
                measured(starts, out_of_time) == 0 ==> max_fitness == 0,
                is_es_ending(max_fitness, generations, converged, *params, fitness_fn),
            decreases
                    params.max_gens - generations,
                    if converged || out_of_time { 0int } else { 1int },
        {
            let reading: u64 = elapsed_nanos(start);
            proof {
                starts = starts.push(reading);
            }
            match es_timed_step(
                fitness_fn,
                variation,
                params,
                &population,
                reading,
                budget,
                rng,
            ) {
                Ok(EsTimedStep::OutOfTime) => {
                    out_of_time = true;
                },
                Ok(EsTimedStep::Converged(stats)) => {
                    assert(is_es_measure(stats, *params, fitness_fn));
                    max_fitness = stats.best_fitness;
                    converged = true;
                },
                Ok(EsTimedStep::Bred(stats, next)) => {
                    assert(is_es_measure(stats, *params, fitness_fn));
                    max_fitness = stats.best_fitness;
                    population = next;
                    generations += 1;
                },
                Err(e) => {
                    return Err(e);
                },
            }
        }
        let elapsed: u64 = elapsed_nanos(start);
        let stats: ExecutionStats = close_timed_run(
            max_fitness,
            generations,
            converged,
            out_of_time,
            elapsed,
            budget,
        );
        assert(is_timed_trace(stats, starts, out_of_time, params.max_gens, budget));
        Ok(stats)
    }

    /// One timed run of the genetic algorithm, seeded by the run's number.
    /// Parents are chosen by tournaments of the default size; a generation
    /// has converged when its mean fitness or its duplicate fraction reaches
    /// the threshold. A run that ends in a configuration error, or whose seed
    /// does not fit, is reported as the worst case.
    pub fn run_sga_with_timeout<F: Fitness>(
        fitness_fn: &F,
        params: &GAParameters,
        config: &TuningConfig,
        run_id: usize,
    ) -> (result: TuningResult)
        ensures
            is_sga_outcome(result, *params, *config, run_id, fitness_fn),
    {
        let start: Instant = now();
        let parameters: ParamMap = ParameterGrid::params_to_map_ga(params);
        proof {
            law_worst_case_is_timed_run(params.max_iters, config.timeout_seconds);
        }
        match run_seed(run_id) {
            Some(seed) => {
                let mut rng: ChaCha8Rng = seeded_rng(seed);
                let ended: Result<ExecutionStats, ConfigError> = Self::sga_generations(
                    fitness_fn,
                    params,
                    config,
                    &start,
                    &mut rng,
                );
                let stats: ExecutionStats = close_run(ended, config);
                let result: TuningResult = outcome(Algorithm::Sga, parameters, run_id, &stats);
                assert(is_timed_run(stats, params.max_iters, config.timeout_seconds) && result
                    == outcome_of(Algorithm::Sga, ga_map(*params), run_id, stats));
                assert(is_sga_attempt(ended, *params, *config, fitness_fn) && result
                    == outcome_of(
                    Algorithm::Sga,
                    ga_map(*params),
                    run_id,
                    settled(ended, config.timeout_seconds),
                ));
                result
            },
            None => {
                let stats: ExecutionStats = Self::worst_case_stats(config);
                let result: TuningResult = outcome(Algorithm::Sga, parameters, run_id, &stats);
                assert(is_timed_run(stats, params.max_iters, config.timeout_seconds) && result
                    == outcome_of(Algorithm::Sga, ga_map(*params), run_id, stats));
                result
            },
        }
    }

    /// One timed run of the evolution strategy, seeded by the run's number. A
    /// run that ends in a configuration error, or whose seed does not fit, is
    /// reported as the worst case.
    pub fn run_es_with_timeout<F: Fitness, V: Variation>(
        fitness_fn: &F,
        variation: &V,
        params: &ESParameters,
        config: &TuningConfig,
        run_id: usize,
    ) -> (result: TuningResult)
        ensures
            is_es_outcome(result, *params, *config, run_id, fitness_fn),
    {
        let start: Instant = now();
        let parameters: ParamMap = ParameterGrid::params_to_map_es(params);
        proof {
            law_worst_case_is_timed_run(params.max_gens, config.timeout_seconds);
        }
        match run_seed(run_id) {
            Some(seed) => {
                let mut rng: ChaCha8Rng = seeded_rng(seed);
                let ended: Result<ExecutionStats, ConfigError> = Self::es_generations(
                    fitness_fn,
                    variation,
                    params,
                    config,
                    &start,
                    &mut rng,
                );
                let stats: ExecutionStats = close_run(ended, config);
                let result: TuningResult = outcome(Algorithm::Es, parameters, run_id, &stats);
                assert(is_timed_run(stats, params.max_gens, config.timeout_seconds) && result
                    == outcome_of(Algorithm::Es, es_map(*params), run_id, stats));
                assert(is_es_attempt(ended, *params, *config, fitness_fn) && result == outcome_of(
                    Algorithm::Es,
                    es_map(*params),
                    run_id,
                    settled(ended, config.timeout_seconds),
                ));
                result
            },
            None => {
                let stats: ExecutionStats = Self::worst_case_stats(config);
                let result: TuningResult = outcome(Algorithm::Es, parameters, run_id, &stats);
                assert(is_timed_run(stats, params.max_gens, config.timeout_seconds) && result
                    == outcome_of(Algorithm::Es, es_map(*params), run_id, stats));
                result
            },
        }
    }

    /// The sweep of the genetic algorithm: every configuration of the grid is
    /// run `num_runs` times, one run after the other.
    pub fn sweep_sga<F: Fitness>(fitness_fn: &F, grid: &Vec<GAParameters>, config: &TuningConfig) -> (results:
        Vec<TuningResult>)
        ensures
            is_sga_sweep(results@, grid@, *config, fitness_fn),
    {
        let mut results: Vec<TuningResult> = Vec::new();
        let mut c: usize = 0;
        assert(grid@.subrange(0, 0).len() * config.num_runs == 0) by (nonlinear_arith)
            requires
                grid@.subrange(0, 0).len() == 0,
        ;
        while c < grid.len()
            invariant
                c <= grid@.len(),
                is_sga_sweep(results@, grid@.subrange(0, c as int), *config, fitness_fn),
            decreases grid@.len() - c,
        {
            let ghost done = results@;
            let mut r: usize = 0;
            while r < config.num_runs
                invariant
                    c < grid@.len(),
                    r <= config.num_runs,
                    is_sga_sweep(done, grid@.subrange(0, c as int), *config, fitness_fn),
                    results@.len() == done.len() + r,
                    forall|k: int| 0 <= k < done.len() ==> results@[k] == done[k],
                    forall|q: int|
                        0 <= q < r ==> is_sga_outcome(
                            #[trigger] results@[done.len() + q],
                            grid@[c as int],
                            *config,
                            q as usize,
                            fitness_fn,
                        ),
                decreases config.num_runs - r,
            {
                let result: TuningResult = Self::run_sga_with_timeout(
                    fitness_fn,
                    &grid[c],
                    config,
                    r,
                );
                results.push(result);
                r += 1;
            }
            proof {
                lemma_sweep_extends(c as int, config.num_runs as int);
                let wider = grid@.subrange(0, c as int + 1);
                assert forall|a: int, b: int|
                    0 <= a < wider.len() && 0 <= b < config.num_runs implies is_sga_outcome(
                    #[trigger] results@[a * config.num_runs + b],
                    wider[a],
                    *config,
                    b as usize,
                    fitness_fn,
                ) by {
                    lemma_cell_position(a, b, c as int, config.num_runs as int);
                    if a < c {
                        assert(results@[a * config.num_runs + b] == done[a * config.num_runs + b]);
                    }
                }
            }
            c += 1;
        }
        results
    }

    /// The sweep of the evolution strategy: every configuration of the grid
    /// is run `num_runs` times, one run after the other.
    pub fn sweep_es<F: Fitness, V: Variation>(
        fitness_fn: &F,
        variation: &V,
        grid: &Vec<ESParameters>,
        config: &TuningConfig,
    ) -> (results: Vec<TuningResult>)
        ensures
            is_es_sweep(results@, grid@, *config, fitness_fn),
    {
        let mut results: Vec<TuningResult> = Vec::new();
        let mut c: usize = 0;
        assert(grid@.subrange(0, 0).len() * config.num_runs == 0) by (nonlinear_arith)
            requires
                grid@.subrange(0, 0).len() == 0,
        ;
        while c < grid.len()
            invariant
                c <= grid@.len(),
                is_es_sweep(results@, grid@.subrange(0, c as int), *config, fitness_fn),
            decreases grid@.len() - c,
        {
            let ghost done = results@;
            let mut r: usize = 0;
            while r < config.num_runs
                invariant
                    c < grid@.len(),
                    r <= config.num_runs,
                    is_es_sweep(done, grid@.subrange(0, c as int), *config, fitness_fn),
                    results@.len() == done.len() + r,
                    forall|k: int| 0 <= k < done.len() ==> results@[k] == done[k],
                    forall|q: int|
                        0 <= q < r ==> is_es_outcome(
                            #[trigger] results@[done.len() + q],
                            grid@[c as int],
                            *config,
                            q as usize,
                            fitness_fn,
                        ),
                decreases config.num_runs - r,
            {
                let result: TuningResult = Self::run_es_with_timeout(
                    fitness_fn,
                    variation,
                    &grid[c],
                    config,
                    r,
                );
                results.push(result);
                r += 1;
            }
            proof {
                lemma_sweep_extends(c as int, config.num_runs as int);
                let wider = grid@.subrange(0, c as int + 1);
                assert forall|a: int, b: int|
                    0 <= a < wider.len() && 0 <= b < config.num_runs implies is_es_outcome(
                    #[trigger] results@[a * config.num_runs + b],
                    wider[a],
                    *config,
                    b as usize,
                    fitness_fn,
                ) by {
                    lemma_cell_position(a, b, c as int, config.num_runs as int);
                    if a < c {
                        assert(grid@.subrange(0, c as int)[a] == wider[a]);
                        assert(results@[a * config.num_runs + b] == done[a * config.num_runs + b]);
                    }
                }
            }
            c += 1;
        }
        assert(grid@.subrange(0, grid@.len() as int) =~= grid@);
        results
    }
}

/// One more configuration adds `n` outcomes to a sweep.
proof fn lemma_sweep_extends(c: int, n: int)
    requires
        0 <= c,
        0 <= n,
    ensures
        (c + 1) * n == c * n + n,
        0 <= c * n,
{
    assert((c + 1) * n == c * n + n) by (nonlinear_arith);
}

/// The outcomes of configuration `a` stand before those of a later
/// configuration `c`, and where `c` starts for `a == c`.
proof fn lemma_cell_position(a: int, b: int, c: int, n: int)
    requires
        0 <= a <= c,
        0 <= b < n,
    ensures
        0 <= a * n + b,
        a < c ==> a * n + b < c * n,
        a == c ==> a * n + b == c * n + b,
{
    if a < c {
        assert(a * n + n <= c * n) by (nonlinear_arith)
            requires
                a + 1 <= c,
                0 <= n,
        ;
    }
}

} // verus!
