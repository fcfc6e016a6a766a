use vstd::prelude::*;
use crate::bitstring::GAParameters;
use crate::evol_strat::ESParameters;
use crate::fixed::ONE;
use crate::parameter_tuning::clamp_i64;
use crate::parameter_tuning::clamp_u64;
use crate::parameter_tuning::clamp_usize;
use crate::parameter_tuning::es_map;
use crate::parameter_tuning::ga_map;
use crate::parameter_tuning::to_i64;
use crate::parameter_tuning::to_u64;
use crate::parameter_tuning::to_usize;
use crate::parameter_tuning::Algorithm;
use crate::parameter_tuning::ParamKey;
use crate::parameter_tuning::ParamMap;
use crate::parameter_tuning::TuningResult;

verus! {

/// The number of billionths in a thousandth.
pub const MILLI: i128 = 1_000_000;

/// A fixed-point value rounded to three decimals, as a count of thousandths.
/// A value halfway between two thousandths goes to the higher one.
pub open spec fn round_millis(value: i128) -> i128 {
    let floor = value as int / (MILLI as int);
    let rest = value as int % (MILLI as int);
    if rest * 2 >= MILLI {
        (floor + 1) as i128
    } else {
        floor as i128
    }
}

/// The value under a name, or zero where there is none.
pub open spec fn value_or_zero(params: ParamMap, key: ParamKey) -> i128 {
    match params.value(key) {
        Some(value) => value,
        None => 0,
    }
}

/// The fingerprint by which runs of the genetic algorithm are grouped: the
/// population size and the mutation rate rounded to three decimals.
pub open spec fn ga_key(params: ParamMap) -> (i128, i128) {
    (value_or_zero(params, ParamKey::PopSize), round_millis(
        value_or_zero(params, ParamKey::MutationRate),
    ))
}

/// The fingerprint by which runs of the evolution strategy are grouped: the
/// offspring count and the initial step size rounded to three decimals.
pub open spec fn es_key(params: ParamMap) -> (i128, i128) {
    (value_or_zero(params, ParamKey::Lambda), round_millis(value_or_zero(params, ParamKey::Sigma)))
}

/// The fingerprint of a run's configuration under its algorithm.
pub open spec fn fingerprint(algorithm: Algorithm, params: ParamMap) -> (i128, i128) {
    match algorithm {
        Algorithm::Sga => ga_key(params),
        Algorithm::Es => es_key(params),
    }
}

/// The configuration of the genetic algorithm that a mapping stands for, if
/// it has all six values. Each value is held to the range of its field.
pub open spec fn ga_params_of(params: ParamMap) -> Option<GAParameters> {
    if params.pop_size is Some && params.mem_size is Some && params.mutation_rate is Some
        && params.crossover_rate is Some && params.max_iters is Some
        && params.convergence_threshold is Some {
        Some(
            GAParameters {
                pop_size: clamp_usize(params.pop_size->Some_0),
                mem_size: clamp_usize(params.mem_size->Some_0),
                mutation_rate: clamp_u64(params.mutation_rate->Some_0),
                crossover_rate: clamp_u64(params.crossover_rate->Some_0),
                max_iters: clamp_usize(params.max_iters->Some_0),
                convergence_threshold: clamp_u64(params.convergence_threshold->Some_0),
            },
        )
    } else {
        None
    }
}

/// The configuration of the evolution strategy that a mapping stands for, if
/// it has all eight values. Each value is held to the range of its field.
pub open spec fn es_params_of(params: ParamMap) -> Option<ESParameters> {
    if params.mu is Some && params.lambda is Some && params.mem_size is Some
        && params.mem_range_min is Some && params.mem_range_max is Some && params.sigma is Some
        && params.tau is Some && params.max_gens is Some {
        Some(
            ESParameters {
                mu: clamp_usize(params.mu->Some_0),
                lambda: clamp_usize(params.lambda->Some_0),
                mem_size: clamp_usize(params.mem_size->Some_0),
                mem_range: (
                    clamp_i64(params.mem_range_min->Some_0),
                    clamp_i64(params.mem_range_max->Some_0),
                ),
                sigma: clamp_u64(params.sigma->Some_0),
                tau: clamp_u64(params.tau->Some_0),
                max_gens: clamp_usize(params.max_gens->Some_0),
            },
        )
    } else {
        None
    }
}

/// A configuration of the genetic algorithm comes back unchanged from the
/// mapping that stands for it.
pub proof fn law_ga_params_round_trip(params: GAParameters)
    ensures
        ga_params_of(ga_map(params)) == Some(params),
{
}

/// A configuration of the evolution strategy comes back unchanged from the
/// mapping that stands for it.
pub proof fn law_es_params_round_trip(params: ESParameters)
    ensures
        es_params_of(es_map(params)) == Some(params),
{
}

/// A fixed-point value rounded to three decimals.
pub fn to_millis(value: i128) -> (millis: i128)
    ensures
        millis == round_millis(value),
{
    if value >= 0 {
        let floor: i128 = value / MILLI;
        let rest: i128 = value % MILLI;
        if rest * 2 >= MILLI {
            floor + 1
        } else {
            floor
        }
    } else {
        let below: i128 = -(value + 1);
        let quotient: i128 = below / MILLI;
        let remainder: i128 = below % MILLI;
        let floor: i128 = -quotient - 1;
        let rest: i128 = MILLI - 1 - remainder;
        if rest * 2 >= MILLI {
            floor + 1
        } else {
            floor
        }
    }
}

/// What is added up over the runs of one algorithm.
pub enum Measure {
    /// One for each run.
    Runs,
    /// The score of each run.
    Score,
    /// One for each run that converged.
    Converged,
    /// One for each run that used up its time budget.
    TimedOut,
    /// The score of each run with the given fingerprint.
    GroupScore(i128, i128),
    /// One for each run with the given fingerprint.
    GroupSize(i128, i128),
    /// One for each run that is the first with its fingerprint.
    Groups,
}

/// Outcome `i` is a run of the algorithm.
pub open spec fn belongs(results: Seq<TuningResult>, algorithm: Algorithm, i: int) -> bool {
    results[i].algorithm == algorithm
}

/// The fingerprint of outcome `i`.
pub open spec fn key_at(results: Seq<TuningResult>, algorithm: Algorithm, i: int) -> (i128, i128) {
    fingerprint(algorithm, results[i].parameters)
}

/// Outcome `i` is the first run of the algorithm with its fingerprint.
pub open spec fn opens_group(results: Seq<TuningResult>, algorithm: Algorithm, i: int) -> bool {
    &&& belongs(results, algorithm, i)
    &&& forall|j: int|
        0 <= j < i && #[trigger] belongs(results, algorithm, j) ==> key_at(results, algorithm, j)
            != key_at(results, algorithm, i)
}

/// What outcome `i` adds to a measure.
pub open spec fn term(
    results: Seq<TuningResult>,
    algorithm: Algorithm,
    measure: Measure,
    i: int,
) -> int {
    if !belongs(results, algorithm, i) {
        0
    } else {
        match measure {
            Measure::Runs => 1,
            Measure::Score => results[i].score as int,
            Measure::Converged => if results[i].converged {
                1
            } else {
                0
            },
            Measure::TimedOut => if results[i].timeout_reached {
                1
            } else {
                0
            },
            Measure::GroupScore(a, b) => if key_at(results, algorithm, i) == (a, b) {
                results[i].score as int
            } else {
                0
            },
            Measure::GroupSize(a, b) => if key_at(results, algorithm, i) == (a, b) {
                1
            } else {
                0
            },
            Measure::Groups => if opens_group(results, algorithm, i) {
                1
            } else {
                0
            },
        }
    }
}

/// A measure added up over the first `n` outcomes.
pub open spec fn tally(
    results: Seq<TuningResult>,
    algorithm: Algorithm,
    measure: Measure,
    n: int,
) -> int
    decreases n,
{
    if n <= 0 {
        0
    } else {
        tally(results, algorithm, measure, n - 1) + term(results, algorithm, measure, n - 1)
    }
}

/// A measure added up over all outcomes.
pub open spec fn total(results: Seq<TuningResult>, algorithm: Algorithm, measure: Measure) -> int {
    tally(results, algorithm, measure, results.len() as int)
}

/// The mean of `count` values that sum to `sum`, rounded down; zero where
/// there is no value.
pub open spec fn floor_mean(sum: int, count: int) -> int {
    if count <= 0 {
        0
    } else {
        sum / count
    }
}

/// The fraction `count / whole` in fixed point, rounded down; zero where the
/// whole is empty.
pub open spec fn floor_rate(count: int, whole: int) -> int {
    if whole <= 0 {
        0
    } else {
        (count * ONE) / whole
    }
}

/// The mean score of the runs that share the fingerprint of outcome `i`.
pub open spec fn group_mean(results: Seq<TuningResult>, algorithm: Algorithm, i: int) -> int {
    let key = key_at(results, algorithm, i);
    floor_mean(
        total(results, algorithm, Measure::GroupScore(key.0, key.1)),
        total(results, algorithm, Measure::GroupSize(key.0, key.1)),
    )
}

/// `best` is the first of the runs with the highest score among the first
/// `n` outcomes, or `None` where the algorithm has no run there.
pub open spec fn is_best_run(
    results: Seq<TuningResult>,
    algorithm: Algorithm,
    best: Option<usize>,
    n: int,
) -> bool {
    match best {
        None => forall|j: int| 0 <= j < n ==> !#[trigger] belongs(results, algorithm, j),
        Some(b) => {
            &&& b < n
            &&& belongs(results, algorithm, b as int)
            &&& forall|j: int|
                0 <= j < n && #[trigger] belongs(results, algorithm, j) ==> results[j].score
                    <= results[b as int].score
            &&& forall|j: int|
                0 <= j < b && #[trigger] belongs(results, algorithm, j) ==> results[j].score
                    < results[b as int].score
        },
    }
}

/// `best` is the first run of the first group with the highest mean score,
/// or `None` where the algorithm has no run.
pub open spec fn is_best_group(
    results: Seq<TuningResult>,
    algorithm: Algorithm,
    best: Option<usize>,
) -> bool {
    match best {
        None => forall|j: int|
            0 <= j < results.len() ==> !#[trigger] belongs(results, algorithm, j),
        Some(b) => {
            &&& b < results.len()
            &&& belongs(results, algorithm, b as int)
            &&& forall|j: int|
                0 <= j < results.len() && #[trigger] belongs(results, algorithm, j) ==> group_mean(
                    results,
                    algorithm,
                    j,
                ) <= group_mean(results, algorithm, b as int)
            &&& forall|j: int|
                0 <= j < b && #[trigger] belongs(results, algorithm, j) ==> group_mean(
                    results,
                    algorithm,
                    j,
                ) < group_mean(results, algorithm, b as int)
        },
    }
}

/// The analysis of the runs of one algorithm, with the best run and the best
/// group given by the position of a run among the outcomes.
#[derive(Clone, Copy, Debug, PartialEq, Eq)]
pub struct Analysis {
    /// The number of runs.
    pub total_runs: usize,
    /// The highest score of a run.
    pub best_single_run_score: u64,
    /// The first run with that score, if the algorithm has a run.
    pub best_single_run: Option<usize>,
    /// The highest mean score of a group of runs with one fingerprint.
    pub best_avg_score: u64,
    /// The first run of the first group with that mean, if the algorithm has
    /// a run.
    pub best_avg_run: Option<usize>,
    /// The mean score of all runs.
    pub avg_score: u64,
    /// The fraction of runs that converged.
    pub convergence_rate: u64,
    /// The fraction of runs that used up their time budget.
    pub timeout_rate: u64,
    /// The number of distinct fingerprints.
    pub param_groups: usize,
}

/// `analysis` is the analysis of the runs of the algorithm among `results`.
pub open spec fn is_analysis(
    analysis: Analysis,
    results: Seq<TuningResult>,
    algorithm: Algorithm,
) -> bool {
    let runs = total(results, algorithm, Measure::Runs);
    &&& analysis.total_runs == runs
    &&& is_best_run(results, algorithm, analysis.best_single_run, results.len() as int)
    &&& analysis.best_single_run_score == match analysis.best_single_run {
        Some(b) => results[b as int].score,
        None => 0,
    }
    &&& is_best_group(results, algorithm, analysis.best_avg_run)
    &&& analysis.best_avg_score == match analysis.best_avg_run {
        Some(b) => group_mean(results, algorithm, b as int),
        None => 0,
    }
    &&& analysis.avg_score == floor_mean(total(results, algorithm, Measure::Score), runs)
    &&& analysis.convergence_rate == floor_rate(
        total(results, algorithm, Measure::Converged),
        runs,
    )
    &&& analysis.timeout_rate == floor_rate(total(results, algorithm, Measure::TimedOut), runs)
    &&& analysis.param_groups == total(results, algorithm, Measure::Groups)
}

/// The runs with one fingerprint, as far as they have been read.
#[derive(Clone, Copy)]
struct Group {
    key: (i128, i128),
    sum: u128,
    count: usize,
    first: usize,
}

/// `group` holds the runs with its fingerprint among the first `n` outcomes.
spec fn is_group(results: Seq<TuningResult>, algorithm: Algorithm, group: Group, n: int) -> bool {
    &&& group.first < n
    &&& opens_group(results, algorithm, group.first as int)
    &&& group.key == key_at(results, algorithm, group.first as int)
    &&& group.sum == tally(results, algorithm, Measure::GroupScore(group.key.0, group.key.1), n)
    &&& group.count == tally(results, algorithm, Measure::GroupSize(group.key.0, group.key.1), n)
    &&& group.count >= 1
}

/// Some group has the fingerprint.
spec fn has_group(groups: Seq<Group>, key: (i128, i128)) -> bool {
    exists|h: int| 0 <= h < groups.len() && (#[trigger] groups[h]).key == key
}

/// `groups` holds the groups of the first `n` outcomes, in the order in
/// which they were opened.
spec fn groups_cover(
    results: Seq<TuningResult>,
    algorithm: Algorithm,
    groups: Seq<Group>,
    n: int,
) -> bool {
    &&& forall|h: int|
        0 <= h < groups.len() ==> is_group(results, algorithm, #[trigger] groups[h], n)
    &&& forall|h1: int, h2: int|
        0 <= h1 < h2 < groups.len() ==> (#[trigger] groups[h1]).first < (
        #[trigger] groups[h2]).first
    &&& forall|h1: int, h2: int|
        0 <= h1 < h2 < groups.len() ==> (#[trigger] groups[h1]).key != (#[trigger] groups[h2]).key
    &&& forall|j: int|
        0 <= j < n && #[trigger] belongs(results, algorithm, j) ==> has_group(
            groups,
            key_at(results, algorithm, j),
        )
    &&& groups.len() == tally(results, algorithm, Measure::Groups, n)
}

/// A tally is not negative; it is at most the largest score for each
/// outcome, and a tally that counts is at most the number of outcomes.
proof fn lemma_tally_bounds(
    results: Seq<TuningResult>,
    algorithm: Algorithm,
    measure: Measure,
    n: int,
)
    requires
        0 <= n,
    ensures
        0 <= tally(results, algorithm, measure, n) <= n * u64::MAX,
        !(measure is Score) && !(measure is GroupScore) ==> tally(results, algorithm, measure, n)
            <= n,
    decreases n,
{
    if n > 0 {
        lemma_tally_bounds(results, algorithm, measure, n - 1);
    }
}

/// A tally that counts is at most the number of runs, and a tally of
/// scores at most the largest score for each run.
proof fn lemma_tally_below_runs(
    results: Seq<TuningResult>,
    algorithm: Algorithm,
    measure: Measure,
    n: int,
)
    requires
        0 <= n,
    ensures
        !(measure is Score) && !(measure is GroupScore) ==> tally(results, algorithm, measure, n)
            <= tally(results, algorithm, Measure::Runs, n),
        tally(results, algorithm, measure, n) <= tally(results, algorithm, Measure::Runs, n)
            * u64::MAX,
    decreases n,
{
    if n > 0 {
        lemma_tally_below_runs(results, algorithm, measure, n - 1);
        let before = tally(results, algorithm, Measure::Runs, n - 1);
    }
}

/// A tally whose terms are all zero is zero.
proof fn lemma_tally_zero(
    results: Seq<TuningResult>,
    algorithm: Algorithm,
    measure: Measure,
    n: int,
)
    requires
        forall|j: int| 0 <= j < n ==> term(results, algorithm, measure, j) == 0,
    ensures
        tally(results, algorithm, measure, n) == 0,
    decreases n,
{
    if n > 0 {
        lemma_tally_zero(results, algorithm, measure, n - 1);
    }
}

/// The mean of values that are at most `cap` each is at most `cap`.
proof fn lemma_mean_bound(sum: int, count: int, cap: int)
    requires
        0 <= sum <= count * cap,
        0 <= cap,
    ensures
        0 <= floor_mean(sum, count) <= cap,
{
    if count > 0 {
        vstd::arithmetic::div_mod::lemma_div_is_ordered(sum, count * cap, count);
        assert(count * cap == cap * count) by (nonlinear_arith);
    }
}

/// The rate of a part in its whole lies between zero and one.
proof fn lemma_rate_bound(count: int, whole: int)
    requires
        0 <= count <= whole,
    ensures
        0 <= floor_rate(count, whole) <= ONE,
        0 <= count * ONE <= whole * ONE,
{
    lemma_mean_bound(count * ONE, whole, ONE as int);
}

/// The fingerprint of a configuration under an algorithm.
pub fn fingerprint_of(algorithm: Algorithm, params: &ParamMap) -> (key: (i128, i128))
    ensures
        key == fingerprint(algorithm, *params),
{
    match algorithm {
        Algorithm::Sga => ResultsAnalyzer::ga_params_to_key(params),
        Algorithm::Es => ResultsAnalyzer::es_params_to_key(params),
    }
}

/// Adds run `i` to the group of its fingerprint, or opens a group for it.
fn add_to_groups(
    groups: &mut Vec<Group>,
    results: &Vec<TuningResult>,
    algorithm: Algorithm,
    i: usize,
)
    requires
        i < results@.len(),
        belongs(results@, algorithm, i as int),
        groups_cover(results@, algorithm, old(groups)@, i as int),
    ensures
        groups_cover(results@, algorithm, final(groups)@, i as int + 1),
{
    let key: (i128, i128) = fingerprint_of(algorithm, &results[i].parameters);
    let score: u64 = results[i].score;
    let ghost before = groups@;
    let mut h: usize = 0;
    let mut found: bool = false;
    while h < groups.len() && !found
        invariant
            h <= groups@.len(),
            groups@ == before,
            forall|g: int| 0 <= g < h ==> (#[trigger] groups@[g]).key != key,
            found ==> h < groups@.len() && groups@[h as int].key == key,
        decreases groups@.len() - h, if found { 0int } else { 1int },
    {
        if groups[h].key.0 == key.0 && groups[h].key.1 == key.1 {
            found = true;
        } else {
            h += 1;
        }
    }
    if found {
        let group: Group = groups[h];
        proof {
            lemma_tally_bounds(
                results@,
                algorithm,
                Measure::GroupScore(key.0, key.1),
                i as int,
            );
            lemma_tally_bounds(results@, algorithm, Measure::GroupSize(key.0, key.1), i as int);
            assert(i < results.len());
        }
        groups.set(
            h,
            Group {
                key: group.key,
                sum: group.sum + score as u128,
                count: group.count + 1,
                first: group.first,
            },
        );
        proof {
            let after = groups@;
            assert forall|j: int|
                0 <= j < i + 1 && #[trigger] belongs(results@, algorithm, j) implies has_group(
                after,
                key_at(results@, algorithm, j),
            ) by {
                if j == i {
                    assert(after[h as int].key == key);
                } else {
                    let g = choose|g: int|
                        0 <= g < before.len() && (#[trigger] before[g]).key == key_at(
                            results@,
                            algorithm,
                            j,
                        );
                    assert(after[g].key == before[g].key);
                }
            }
        }
    } else {
        groups.push(Group { key, sum: score as u128, count: 1, first: i });
        proof {
            let after = groups@;
            lemma_tally_zero(results@, algorithm, Measure::GroupScore(key.0, key.1), i as int);
            lemma_tally_zero(results@, algorithm, Measure::GroupSize(key.0, key.1), i as int);
            assert forall|j: int|
                0 <= j < i + 1 && #[trigger] belongs(results@, algorithm, j) implies has_group(
                after,
                key_at(results@, algorithm, j),
            ) by {
                if j == i {
                    assert(after[before.len() as int].key == key);
                } else {
                    let g = choose|g: int|
                        0 <= g < before.len() && (#[trigger] before[g]).key == key_at(
                            results@,
                            algorithm,
                            j,
                        );
                    assert(after[g].key == before[g].key);
                }
            }
        }
    }
}

/// The mean score of a group, rounded down.
spec fn mean_of(group: Group) -> int {
    floor_mean(group.sum as int, group.count as int)
}

/// The scores of a group sum to at most the largest score for each of its
/// runs.
proof fn lemma_group_score_bound(
    results: Seq<TuningResult>,
    algorithm: Algorithm,
    key: (i128, i128),
    n: int,
)
    requires
        0 <= n,
    ensures
        0 <= tally(results, algorithm, Measure::GroupScore(key.0, key.1), n) <= tally(
            results,
            algorithm,
            Measure::GroupSize(key.0, key.1),
            n,
        ) * u64::MAX,
    decreases n,
{
    if n > 0 {
        lemma_group_score_bound(results, algorithm, key, n - 1);
        let before = tally(results, algorithm, Measure::GroupSize(key.0, key.1), n - 1);
    }
}

/// The analysis of the runs of one algorithm among the outcomes.
pub fn analyze(results: &Vec<TuningResult>, algorithm: Algorithm) -> (analysis: Analysis)
    ensures
        is_analysis(analysis, results@, algorithm),
{
    let mut runs: usize = 0;
    let mut score_sum: u128 = 0;
    let mut converged: usize = 0;
    let mut timed_out: usize = 0;
    let mut best_run: Option<usize> = None;
    let mut best_score: u64 = 0;
    let mut groups: Vec<Group> = Vec::new();
    let mut i: usize = 0;
    while i < results.len()
        invariant
            i <= results@.len(),
            runs == tally(results@, algorithm, Measure::Runs, i as int),
            score_sum == tally(results@, algorithm, Measure::Score, i as int),
            converged == tally(results@, algorithm, Measure::Converged, i as int),
            timed_out == tally(results@, algorithm, Measure::TimedOut, i as int),
            is_best_run(results@, algorithm, best_run, i as int),
            best_score == match best_run {
                Some(b) => results@[b as int].score,
                None => 0,
            },
            groups_cover(results@, algorithm, groups@, i as int),
        decreases results@.len() - i,
    {
        let result: TuningResult = results[i];
        if result.algorithm == algorithm {
            proof {
                lemma_tally_bounds(results@, algorithm, Measure::Runs, i as int);
                lemma_tally_bounds(results@, algorithm, Measure::Score, i as int);
                lemma_tally_bounds(results@, algorithm, Measure::Converged, i as int);
                lemma_tally_bounds(results@, algorithm, Measure::TimedOut, i as int);
            }
            runs += 1;
            score_sum = score_sum + result.score as u128;
            if result.converged {
                converged += 1;
            }
            if result.timeout_reached {
                timed_out += 1;
            }
            if best_run.is_none() || result.score > best_score {
                best_score = result.score;
                best_run = Some(i);
            }
            add_to_groups(&mut groups, results, algorithm, i);
        }
        i += 1;
    }
    let mut best_group: Option<usize> = None;
    let mut best_mean: u64 = 0;
    let mut g: usize = 0;
    while g < groups.len()
        invariant
            g <= groups@.len(),
            groups_cover(results@, algorithm, groups@, results@.len() as int),
            match best_group {
                None => best_mean == 0 && g == 0,
                Some(b) => {
                    &&& b < g
                    &&& best_mean == mean_of(groups@[b as int])
                    &&& forall|h: int| 0 <= h < g ==> mean_of(#[trigger] groups@[h]) <= best_mean
                    &&& forall|h: int| 0 <= h < b ==> mean_of(#[trigger] groups@[h]) < best_mean
                },
            },
        decreases groups@.len() - g,
    {
        let group: Group = groups[g];
        proof {
            lemma_group_score_bound(results@, algorithm, group.key, results@.len() as int);
            lemma_mean_bound(group.sum as int, group.count as int, u64::MAX as int);
        }
        let mean: u64 = (group.sum / group.count as u128) as u64;
        if best_group.is_none() || mean > best_mean {
            best_mean = mean;
            best_group = Some(g);
        }
        g += 1;
    }
    let best_avg_run: Option<usize> = match best_group {
        Some(b) => Some(groups[b].first),
        None => None,
    };
    proof {
        let n = results@.len() as int;
        lemma_tally_below_runs(results@, algorithm, Measure::Score, n);
        lemma_tally_below_runs(results@, algorithm, Measure::Converged, n);
        lemma_tally_below_runs(results@, algorithm, Measure::TimedOut, n);
        lemma_mean_bound(score_sum as int, runs as int, u64::MAX as int);
        lemma_rate_bound(converged as int, runs as int);
        lemma_rate_bound(timed_out as int, runs as int);
    }
    Analysis {
        total_runs: runs,
        best_single_run_score: best_score,
        best_single_run: best_run,
        best_avg_score: best_mean,
        best_avg_run,
        avg_score: if runs == 0 {
            0
        } else {
            (score_sum / runs as u128) as u64
        },
        convergence_rate: if runs == 0 {
            0
        } else {
            (converged as u128 * ONE as u128 / runs as u128) as u64
        },
        timeout_rate: if runs == 0 {
            0
        } else {
            (timed_out as u128 * ONE as u128 / runs as u128) as u64
        },
        param_groups: groups.len(),
    }
}

/// The analysis of the runs of the genetic algorithm.
#[derive(Clone, Copy, Debug, PartialEq, Eq)]
pub struct SGAAnalysis {
    /// The number of runs.
    pub total_runs: usize,
    /// The highest score of a run.
    pub best_single_run_score: u64,
    /// The configuration of the first run with that score.
    pub best_single_run_params: Option<GAParameters>,
    /// The highest mean score of a configuration.
    pub best_avg_score: u64,
    /// The first configuration with that mean score.
    pub best_avg_params: Option<GAParameters>,
    /// The mean score of all runs.
    pub avg_score: u64,
    /// The fraction of runs that converged.
    pub convergence_rate: u64,
    /// The fraction of runs that used up their time budget.
    pub timeout_rate: u64,
    /// The number of distinct configurations.
    pub param_groups: usize,
}

/// The analysis of the runs of the evolution strategy.
#[derive(Clone, Copy, Debug, PartialEq, Eq)]
pub struct ESAnalysis {
    /// The number of runs.
    pub total_runs: usize,
    /// The highest score of a run.
    pub best_single_run_score: u64,
    /// The configuration of the first run with that score.
    pub best_single_run_params: Option<ESParameters>,
    /// The highest mean score of a configuration.
    pub best_avg_score: u64,
    /// The first configuration with that mean score.
    pub best_avg_params: Option<ESParameters>,
    /// The mean score of all runs.
    pub avg_score: u64,
    /// The fraction of runs that converged.
    pub convergence_rate: u64,
    /// The fraction of runs that used up their time budget.
    pub timeout_rate: u64,
    /// The number of distinct configurations.
    pub param_groups: usize,
}

/// The configuration of the genetic algorithm under which a run ran, if a
/// run is given and its mapping is complete.
pub open spec fn ga_params_at(results: Seq<TuningResult>, run: Option<usize>) -> Option<
    GAParameters,
> {
    match run {
        Some(i) => ga_params_of(results[i as int].parameters),
        None => None,
    }
}

/// The configuration of the evolution strategy under which a run ran, if a
/// run is given and its mapping is complete.
pub open spec fn es_params_at(results: Seq<TuningResult>, run: Option<usize>) -> Option<
    ESParameters,
> {
    match run {
        Some(i) => es_params_of(results[i as int].parameters),
        None => None,
    }
}

/// The report on the genetic algorithm that an analysis amounts to.
pub open spec fn sga_report(core: Analysis, results: Seq<TuningResult>) -> SGAAnalysis {
    SGAAnalysis {
        total_runs: core.total_runs,
        best_single_run_score: core.best_single_run_score,
        best_single_run_params: ga_params_at(results, core.best_single_run),
        best_avg_score: core.best_avg_score,
        best_avg_params: ga_params_at(results, core.best_avg_run),
        avg_score: core.avg_score,
        convergence_rate: core.convergence_rate,
        timeout_rate: core.timeout_rate,
        param_groups: core.param_groups,
    }
}

/// The report on the evolution strategy that an analysis amounts to.
pub open spec fn es_report(core: Analysis, results: Seq<TuningResult>) -> ESAnalysis {
    ESAnalysis {
        total_runs: core.total_runs,
        best_single_run_score: core.best_single_run_score,
        best_single_run_params: es_params_at(results, core.best_single_run),
        best_avg_score: core.best_avg_score,
        best_avg_params: es_params_at(results, core.best_avg_run),
        avg_score: core.avg_score,
        convergence_rate: core.convergence_rate,
        timeout_rate: core.timeout_rate,
        param_groups: core.param_groups,
    }
}

/// `report` is the report on the runs of the genetic algorithm among
/// `results`.
pub open spec fn is_sga_analysis(report: SGAAnalysis, results: Seq<TuningResult>) -> bool {
    exists|core: Analysis|
        is_analysis(core, results, Algorithm::Sga) && report == #[trigger] sga_report(
            core,
            results,
        )
}

/// `report` is the report on the runs of the evolution strategy among
/// `results`.
pub open spec fn is_es_analysis(report: ESAnalysis, results: Seq<TuningResult>) -> bool {
    exists|core: Analysis|
        is_analysis(core, results, Algorithm::Es) && report == #[trigger] es_report(core, results)
}

/// `columns` names the hyperparameters of the first outcome, in alphabetical
/// order; there is none where there is no outcome.
pub open spec fn is_csv_columns(columns: Seq<ParamKey>, results: Seq<TuningResult>) -> bool {
    &&& forall|key: ParamKey|
        columns.contains(key) <==> results.len() > 0 && results[0].parameters.value(key) is Some
    &&& forall|i: int, j: int|
        0 <= i < j < columns.len() ==> (#[trigger] columns[i]).rank() < (
        #[trigger] columns[j]).rank()
}

/// The outcomes' analysis: grouping, best runs, means and rates.
pub struct ResultsAnalyzer;

impl ResultsAnalyzer {
    /// The fingerprint by which runs of the genetic algorithm are grouped.
    pub fn ga_params_to_key(params: &ParamMap) -> (key: (i128, i128))
        ensures
            key == ga_key(*params),
    {
        let pop_size: i128 = match params.get(ParamKey::PopSize) {
            Some(value) => value,
            None => 0,
        };
        let rate: i128 = match params.get(ParamKey::MutationRate) {
            Some(value) => value,
            None => 0,
        };
        (pop_size, to_millis(rate))
    }

    /// The fingerprint by which runs of the evolution strategy are grouped.
    pub fn es_params_to_key(params: &ParamMap) -> (key: (i128, i128))
        ensures
            key == es_key(*params),
    {
        let lambda: i128 = match params.get(ParamKey::Lambda) {
            Some(value) => value,
            None => 0,
        };
        let sigma: i128 = match params.get(ParamKey::Sigma) {
            Some(value) => value,
            None => 0,
        };
        (lambda, to_millis(sigma))
    }

    /// The configuration of the genetic algorithm that a mapping stands for,
    /// or `None` where a value is missing.
    pub fn key_to_ga_params(params: &ParamMap) -> (config: Option<GAParameters>)
        ensures
            config == ga_params_of(*params),
    {
        match (
            params.pop_size,
            params.mem_size,
            params.mutation_rate,
            params.crossover_rate,
            params.max_iters,
            params.convergence_threshold,
        ) {
            (
                Some(pop_size),
                Some(mem_size),
                Some(mutation_rate),
                Some(crossover_rate),
                Some(max_iters),
                Some(convergence_threshold),
            ) => Some(
                GAParameters {
                    pop_size: to_usize(pop_size),
                    mem_size: to_usize(mem_size),
                    mutation_rate: to_u64(mutation_rate),
                    crossover_rate: to_u64(crossover_rate),
                    max_iters: to_usize(max_iters),
                    convergence_threshold: to_u64(convergence_threshold),
                },
            ),
            _ => None,
        }
    }

    /// The configuration of the evolution strategy that a mapping stands
    /// for, or `None` where a value is missing.
    pub fn key_to_es_params(params: &ParamMap) -> (config: Option<ESParameters>)
        ensures
            config == es_params_of(*params),
    {
        match (
            params.mu,
            params.lambda,
            params.mem_size,
            params.mem_range_min,
            params.mem_range_max,
            params.sigma,
            params.tau,
            params.max_gens,
        ) {
            (
                Some(mu),
                Some(lambda),
                Some(mem_size),
                Some(mem_range_min),
                Some(mem_range_max),
                Some(sigma),
                Some(tau),
                Some(max_gens),
            ) => Some(
                ESParameters {
                    mu: to_usize(mu),
                    lambda: to_usize(lambda),
                    mem_size: to_usize(mem_size),
                    mem_range: (to_i64(mem_range_min), to_i64(mem_range_max)),
                    sigma: to_u64(sigma),
                    tau: to_u64(tau),
                    max_gens: to_usize(max_gens),
                },
            ),
            _ => None,
        }
    }

    /// The report on the runs of the genetic algorithm.
    pub fn analyze_sga_results(results: &Vec<TuningResult>) -> (report: SGAAnalysis)
        ensures
            is_sga_analysis(report, results@),
    {
        let core: Analysis = analyze(results, Algorithm::Sga);
        let best_single_run_params: Option<GAParameters> = match core.best_single_run {
            Some(i) => Self::key_to_ga_params(&results[i].parameters),
            None => None,
        };
        let best_avg_params: Option<GAParameters> = match core.best_avg_run {
            Some(i) => Self::key_to_ga_params(&results[i].parameters),
            None => None,
        };
        let report = SGAAnalysis {
            total_runs: core.total_runs,
            best_single_run_score: core.best_single_run_score,
            best_single_run_params,
            best_avg_score: core.best_avg_score,
            best_avg_params,
            avg_score: core.avg_score,
            convergence_rate: core.convergence_rate,
            timeout_rate: core.timeout_rate,
            param_groups: core.param_groups,
        };
        assert(report == sga_report(core, results@));
        report
    }

    /// The report on the runs of the evolution strategy.
    pub fn analyze_es_results(results: &Vec<TuningResult>) -> (report: ESAnalysis)
        ensures
            is_es_analysis(report, results@),
    {
        let core: Analysis = analyze(results, Algorithm::Es);
        let best_single_run_params: Option<ESParameters> = match core.best_single_run {
            Some(i) => Self::key_to_es_params(&results[i].parameters),
            None => None,
        };
        let best_avg_params: Option<ESParameters> = match core.best_avg_run {
            Some(i) => Self::key_to_es_params(&results[i].parameters),
            None => None,
        };
        let report = ESAnalysis {
            total_runs: core.total_runs,
            best_single_run_score: core.best_single_run_score,
            best_single_run_params,
            best_avg_score: core.best_avg_score,
            best_avg_params,
            avg_score: core.avg_score,
            convergence_rate: core.convergence_rate,
            timeout_rate: core.timeout_rate,
            param_groups: core.param_groups,
        };
        assert(report == es_report(core, results@));
        report
    }

    /// Whether the genetic algorithm does better on average: its best mean
    /// score exceeds that of the evolution strategy.
    pub fn sga_performs_better(sga: &SGAAnalysis, es: &ESAnalysis) -> (better: bool)
        ensures
            better == (sga.best_avg_score > es.best_avg_score),
    {
        sga.best_avg_score > es.best_avg_score
    }

    /// The hyperparameter columns of the results table: the names that the
    /// first outcome has values for, in alphabetical order.
    pub fn csv_columns(results: &Vec<TuningResult>) -> (columns: Vec<ParamKey>)
        ensures
            is_csv_columns(columns@, results@),
    {
        if results.len() == 0 {
            let columns: Vec<ParamKey> = Vec::new();
            columns
        } else {
            results[0].parameters.keys()
        }
    }
}

} // verus!
