use vstd::prelude::*;
use rand_chacha::ChaCha8Rng;
use crate::error::ConfigError;
use crate::fitness::Fitness;
use crate::fixed::ONE;
use crate::random::choose_positions;
use crate::random::random_between;
use crate::stats::best_score;
use crate::stats::is_best_score;
use crate::stats::check_mean_exceeds;
use crate::stats::is_squared_diameter;
use crate::stats::lemma_prefix_total_above;
use crate::stats::mean_exceeds;
use crate::stats::squared_diameter;
use crate::stats::sum_scores;
use crate::stats::total_score;
use crate::stats::views;

verus! {

/// The mean fitness, on a scale from zero to [`ONE`], above which a run stops
/// early: 0.99.
pub const EARLY_STOP: u64 = 990_000_000;

/// The configuration of one run of the evolution strategy. Genes, the step
/// size `sigma` and the learning rate `tau` are fixed-point.
#[derive(Clone, Copy, Debug, PartialEq, Eq)]
pub struct ESParameters {
    /// The number of parents kept each generation.
    pub mu: usize,
    /// The number of offspring bred each generation.
    pub lambda: usize,
    /// The number of genes of a candidate.
    pub mem_size: usize,
    /// The range, upper end excluded, that initial genes are drawn from.
    pub mem_range: (i64, i64),
    /// The initial step size.
    pub sigma: u64,
    /// The learning rate of the step size.
    pub tau: u64,
    /// The number of generations after which the run ends.
    pub max_gens: usize,
}

/// A candidate of the evolution strategy: its genes and the step size that
/// evolves with them.
#[derive(Debug)]
pub struct Individual {
    pub genes: Vec<i64>,
    pub sigma: u64,
}

/// The real-valued sampling that mutation rests on.
pub trait Variation {
    /// A draw from the standard normal distribution, in fixed point.
    fn standard_normal(&self, rng: &mut ChaCha8Rng) -> i64;

    /// The factor by which a step size changes: the exponential of `tau`
    /// times one standard normal draw, in fixed point.
    fn step_factor(&self, tau: u64, rng: &mut ChaCha8Rng) -> u64;
}

/// The candidate has `mem_size` genes and a positive step size.
pub open spec fn is_individual(candidate: Individual, mem_size: int) -> bool {
    &&& candidate.genes@.len() == mem_size
    &&& candidate.sigma > 0
}

/// `members` holds `size` candidates of `mem_size` genes each.
pub open spec fn is_es_population(members: Seq<Individual>, size: int, mem_size: int) -> bool {
    &&& members.len() == size
    &&& forall|i: int| 0 <= i < members.len() ==> is_individual(#[trigger] members[i], mem_size)
}

/// Two candidates with the same genes and the same step size.
pub open spec fn same_individual(a: Individual, b: Individual) -> bool {
    &&& a.genes@ == b.genes@
    &&& a.sigma == b.sigma
}

/// The step `sigma * step`, rounded toward zero.
pub open spec fn scaled_step(sigma: u64, step: i64) -> int {
    let product = sigma as int * step as int;
    if product >= 0 {
        product / (ONE as int)
    } else {
        -((-product) / (ONE as int))
    }
}

/// The gene after a step, held to the range of an `i64`.
pub open spec fn moved_gene(gene: i64, sigma: u64, step: i64) -> i64 {
    let target = gene as int + scaled_step(sigma, step);
    if target < i64::MIN {
        i64::MIN
    } else if target > i64::MAX {
        i64::MAX
    } else {
        target as i64
    }
}

/// The step size `sigma * factor`, rounded down, and held between the
/// smallest positive value and the largest a `u64` holds.
pub open spec fn adapted_sigma(sigma: u64, factor: u64) -> u64 {
    let target = (sigma as int * factor as int) / (ONE as int);
    if target < 1 {
        1
    } else if target > u64::MAX {
        u64::MAX
    } else {
        target as u64
    }
}

/// The genes of a child: each gene of the parent moved by its step, and kept
/// where there is no step for it.
pub open spec fn moved_genes(genes: Seq<i64>, sigma: u64, steps: Seq<i64>) -> Seq<i64> {
    Seq::new(
        genes.len(),
        |k: int|
            if k < steps.len() {
                moved_gene(genes[k], sigma, steps[k])
            } else {
                genes[k]
            },
    )
}

/// The step size stays positive under adaptation, whatever it was and
/// whatever the factor is.
pub proof fn law_sigma_stays_positive(sigma: u64, factor: u64)
    ensures
        adapted_sigma(sigma, factor) > 0,
{
}

/// A copy of a candidate.
pub fn copy_individual(candidate: &Individual) -> (copy: Individual)
    ensures
        same_individual(copy, *candidate),
{
    let mut genes: Vec<i64> = Vec::new();
    let mut k: usize = 0;
    while k < candidate.genes.len()
        invariant
            k <= candidate.genes.len(),
            genes@ == candidate.genes@.subrange(0, k as int),
        decreases candidate.genes.len() - k,
    {
        genes.push(candidate.genes[k]);
        k += 1;
    }
    assert(candidate.genes@.subrange(0, candidate.genes@.len() as int) =~= candidate.genes@);
    Individual { genes, sigma: candidate.sigma }
}

/// The first population: `mu` candidates whose genes are drawn uniformly from
/// `mem_range` and whose step size is the configured one.
pub fn init_population(params: &ESParameters, rng: &mut ChaCha8Rng) -> (population: Result<
    Vec<Individual>,
    ConfigError,
>)
    ensures
        params.sigma == 0 ==> population == Err::<Vec<Individual>, ConfigError>(
            ConfigError::ZeroStepSize,
        ),
        params.sigma > 0 && params.mu > 0 && params.mem_size > 0 && params.mem_range.0
            >= params.mem_range.1 ==> population == Err::<Vec<Individual>, ConfigError>(
            ConfigError::EmptyGeneRange,
        ),
        params.sigma > 0 && (params.mu == 0 || params.mem_size == 0 || params.mem_range.0
            < params.mem_range.1) ==> population is Ok,
        population matches Ok(members) ==> {
            &&& is_es_population(members@, params.mu as int, params.mem_size as int)
            &&& forall|i: int|
                0 <= i < members@.len() ==> (#[trigger] members@[i]).sigma == params.sigma
            &&& forall|i: int, k: int|
                0 <= i < members@.len() && 0 <= k < params.mem_size ==> params.mem_range.0
                    <= (#[trigger] members@[i].genes@[k]) < params.mem_range.1
        },
{
    if params.sigma == 0 {
        return Err(ConfigError::ZeroStepSize);
    }
    let mut population: Vec<Individual> = Vec::new();
    let mut i: usize = 0;
    while i < params.mu
        invariant
            i <= params.mu,
            params.sigma > 0,
            params.mem_size > 0 && params.mem_range.0 >= params.mem_range.1 ==> i == 0,
            is_es_population(population@, i as int, params.mem_size as int),
            forall|m: int|
                0 <= m < population@.len() ==> (#[trigger] population@[m]).sigma == params.sigma,
            forall|m: int, k: int|
                0 <= m < population@.len() && 0 <= k < params.mem_size ==> params.mem_range.0
                    <= (#[trigger] population@[m].genes@[k]) < params.mem_range.1,
        decreases params.mu - i,
    {
        let mut genes: Vec<i64> = Vec::new();
        let mut k: usize = 0;
        while k < params.mem_size
            invariant
                k <= params.mem_size,
                i < params.mu,
                params.sigma > 0,
                params.mem_range.0 >= params.mem_range.1 ==> k == 0,
                genes@.len() == k,
                forall|g: int|
                    0 <= g < k ==> params.mem_range.0 <= (#[trigger] genes@[g])
                        < params.mem_range.1,
            decreases params.mem_size - k,
        {
            match random_between(rng, params.mem_range.0, params.mem_range.1) {
                Some(gene) => {
                    genes.push(gene);
                },
                None => {
                    return Err(ConfigError::EmptyGeneRange);
                },
            }
            k += 1;
        }
        population.push(Individual { genes, sigma: params.sigma });
        i += 1;
    }
    Ok(population)
}

/// `scores` holds, for each candidate in order, a score that the objective
/// gives to its genes.
pub open spec fn are_scores<F: Fitness>(
    fitness_fn: &F,
    population: Seq<Individual>,
    scores: Seq<u64>,
) -> bool {
    &&& scores.len() == population.len()
    &&& forall|i: int|
        0 <= i < population.len() ==> fitness_fn.may_fit(
            (#[trigger] population[i]).genes@,
            scores[i],
        )
}

/// The fitness that the objective gives to each candidate, in order.
pub fn evaluate<F: Fitness>(population: &Vec<Individual>, fitness_fn: &F) -> (scores: Vec<u64>)
    ensures
        are_scores(fitness_fn, population@, scores@),
{
    let mut scores: Vec<u64> = Vec::new();
    let mut i: usize = 0;
    while i < population.len()
        invariant
            i <= population.len(),
            scores@.len() == i,
            forall|k: int|
                0 <= k < i ==> fitness_fn.may_fit((#[trigger] population@[k]).genes@, scores@[k]),
        decreases population.len() - i,
    {
        let score: u64 = fitness_fn.fitness(&population[i].genes);
        scores.push(score);
        i += 1;
    }
    scores
}

/// `winner` is the one of `pair` that a binary tournament keeps: the only
/// contestant, or the fitter of two, the second where both are equally fit.
pub open spec fn is_binary_winner(scores: Seq<u64>, pair: Seq<usize>, winner: int) -> bool {
    ||| pair.len() == 1 && winner == pair[0]
    ||| pair.len() == 2 && winner == if scores[pair[1] as int] >= scores[pair[0] as int] {
        pair[1]
    } else {
        pair[0]
    }
}

/// One or two contestants, each a member, and two of them distinct.
pub open spec fn valid_pair(scores: Seq<u64>, pair: Seq<usize>) -> bool {
    &&& 1 <= pair.len() <= 2
    &&& forall|j: int| 0 <= j < pair.len() ==> pair[j] < scores.len()
    &&& pair.len() == 2 ==> pair[0] != pair[1]
}

/// `winner` is what a binary tournament yields for some valid pair.
pub open spec fn is_tournament_outcome(scores: Seq<u64>, winner: int) -> bool {
    exists|pair: Seq<usize>|
        valid_pair(scores, pair) && #[trigger] is_binary_winner(scores, pair, winner)
}

/// The winner of a binary tournament between the candidates at `pair`, or
/// `None` where `pair` is no valid pair.
pub fn binary_tournament(scores: &Vec<u64>, pair: &Vec<usize>) -> (winner: Option<usize>)
    ensures
        winner is Some <==> valid_pair(scores@, pair@),
        winner matches Some(w) ==> w < scores.len() && is_binary_winner(scores@, pair@, w as int),
{
    if pair.len() == 1 {
        if pair[0] < scores.len() {
            Some(pair[0])
        } else {
            None
        }
    } else if pair.len() == 2 {
        let first: usize = pair[0];
        let second: usize = pair[1];
        if first >= scores.len() || second >= scores.len() || first == second {
            None
        } else if scores[second] >= scores[first] {
            Some(second)
        } else {
            Some(first)
        }
    } else {
        None
    }
}

/// A parent by binary tournament: two distinct candidates are drawn uniformly
/// and the fitter is kept.
pub fn select_parent(scores: &Vec<u64>, rng: &mut ChaCha8Rng) -> (parent: Result<
    usize,
    ConfigError,
>)
    ensures
        scores@.len() == 0 ==> parent == Err::<usize, ConfigError>(ConfigError::EmptyPopulation),
        scores@.len() > 0 ==> (parent matches Ok(w) && w < scores.len() && is_tournament_outcome(
            scores@,
            w as int,
        )),
{
    if scores.len() == 0 {
        return Err(ConfigError::EmptyPopulation);
    }
    let pair: Vec<usize> = choose_positions(rng, scores.len(), 2);
    match binary_tournament(scores, &pair) {
        Some(w) => {
            Ok(w)
        },
        None => Err(ConfigError::EmptyPopulation),
    }
}

/// The child of `parent` for the given outcome of the draws: every gene moves
/// by the parent's step size times its step, and the step size is multiplied
/// by `factor`.
pub fn mutate_with(parent: &Individual, steps: &Vec<i64>, factor: u64) -> (child: Individual)
    ensures
        child.genes@ == moved_genes(parent.genes@, parent.sigma, steps@),
        child.sigma == adapted_sigma(parent.sigma, factor),
        child.sigma > 0,
{
    let mut genes: Vec<i64> = Vec::new();
    let mut k: usize = 0;
    while k < parent.genes.len()
        invariant
            k <= parent.genes.len(),
            genes@.len() == k,
            forall|g: int|
                0 <= g < k ==> genes@[g] == moved_genes(parent.genes@, parent.sigma, steps@)[g],
        decreases parent.genes.len() - k,
    {
        let gene: i64 = parent.genes[k];
        if k < steps.len() {
            let step: i64 = steps[k];
            assert(-0x8000_0000_0000_0000 * 0xffff_ffff_ffff_ffff <= parent.sigma as int
                * step as int <= 0x7fff_ffff_ffff_ffff * 0xffff_ffff_ffff_ffff)
                by (nonlinear_arith)
                requires
                    0 <= parent.sigma <= 0xffff_ffff_ffff_ffff,
                    -0x8000_0000_0000_0000 <= step <= 0x7fff_ffff_ffff_ffff,
            ;
            let product: i128 = parent.sigma as i128 * step as i128;
            let shift: i128 = if product >= 0 {
                product / ONE as i128
            } else {
                -((-product) / ONE as i128)
            };
            let target: i128 = gene as i128 + shift;
            let moved: i64 = if target < i64::MIN as i128 {
                i64::MIN
            } else if target > i64::MAX as i128 {
                i64::MAX
            } else {
                target as i64
            };
            genes.push(moved);
        } else {
            genes.push(gene);
        }
        k += 1;
    }
    assert(parent.sigma as int * factor as int <= 0xffff_ffff_ffff_ffff * 0xffff_ffff_ffff_ffff)
        by (nonlinear_arith)
        requires
            0 <= parent.sigma <= 0xffff_ffff_ffff_ffff,
            0 <= factor <= 0xffff_ffff_ffff_ffff,
    ;
    let target: u128 = parent.sigma as u128 * factor as u128 / ONE as u128;
    let sigma: u64 = if target < 1 {
        1
    } else if target > u64::MAX as u128 {
        u64::MAX
    } else {
        target as u64
    };
    Individual { genes, sigma }
}

/// `child` is what mutation yields from `parent` for some outcome of the
/// draws.
pub open spec fn is_mutant(child: Individual, parent: Individual) -> bool {
    exists|steps: Seq<i64>, factor: u64|
        steps.len() == parent.genes@.len() && child.genes@ == #[trigger] moved_genes(
            parent.genes@,
            parent.sigma,
            steps,
        ) && child.sigma == #[trigger] adapted_sigma(parent.sigma, factor)
}

/// Mutation: one standard normal draw for each gene, in order, then one draw
/// of the factor for the step size.
pub fn mutate<V: Variation>(
    parent: &Individual,
    tau: u64,
    variation: &V,
    rng: &mut ChaCha8Rng,
) -> (child: Individual)
    ensures
        child.genes@.len() == parent.genes@.len(),
        child.sigma > 0,
        is_mutant(child, *parent),
{
    let mut steps: Vec<i64> = Vec::new();
    let mut k: usize = 0;
    while k < parent.genes.len()
        invariant
            k <= parent.genes.len(),
            steps@.len() == k,
        decreases parent.genes.len() - k,
    {
        let step: i64 = variation.standard_normal(rng);
        steps.push(step);
        k += 1;
    }
    let factor: u64 = variation.step_factor(tau, rng);
    let child: Individual = mutate_with(parent, &steps, factor);
    child
}

/// Candidate `a` ranks before candidate `b`: it is fitter, or as fit and
/// evaluated earlier.
pub open spec fn outranks(scores: Seq<u64>, a: int, b: int) -> bool {
    scores[a] > scores[b] || (scores[a] == scores[b] && a < b)
}

/// Candidate `t` is among the chosen.
pub open spec fn is_chosen(chosen: Seq<usize>, t: int) -> bool {
    exists|k: int| 0 <= k < chosen.len() && #[trigger] chosen[k] == t
}

/// `chosen` lists the survivors of a selection of `mu` from the candidates
/// that score `scores`: the `mu` that rank first (all, if there are fewer), in
/// the order of their rank.
pub open spec fn is_survivor_list(scores: Seq<u64>, mu: int, chosen: Seq<usize>) -> bool {
    &&& chosen.len() == if mu <= scores.len() { mu } else { scores.len() as int }
    &&& forall|k: int| 0 <= k < chosen.len() ==> #[trigger] chosen[k] < scores.len()
    &&& forall|k1: int, k2: int|
        0 <= k1 < k2 < chosen.len() ==> outranks(
            scores,
            #[trigger] chosen[k1] as int,
            #[trigger] chosen[k2] as int,
        )
    &&& forall|k: int, t: int|
        0 <= k < chosen.len() && 0 <= t < scores.len() && !is_chosen(chosen, t) ==> #[trigger] outranks(
            scores,
            chosen[k] as int,
            t,
        )
}

/// The number of candidates among the first `n` that are not taken.
pub open spec fn free_count(taken: Seq<bool>, n: int) -> int
    decreases n,
{
    if n <= 0 {
        0
    } else {
        free_count(taken, n - 1) + if taken[n - 1] {
            0int
        } else {
            1int
        }
    }
}

/// Where every candidate is taken, none is free.
proof fn lemma_free_count_none(taken: Seq<bool>, n: int)
    requires
        0 <= n <= taken.len(),
        forall|t: int| 0 <= t < n ==> taken[t],
    ensures
        free_count(taken, n) == 0,
    decreases n,
{
    if n > 0 {
        lemma_free_count_none(taken, n - 1);
    }
}

/// Where no candidate is taken, all are free.
proof fn lemma_free_count_all(taken: Seq<bool>, n: int)
    requires
        0 <= n <= taken.len(),
        forall|t: int| 0 <= t < n ==> !taken[t],
    ensures
        free_count(taken, n) == n,
    decreases n,
{
    if n > 0 {
        lemma_free_count_all(taken, n - 1);
    }
}

/// Taking a free candidate leaves one fewer free.
proof fn lemma_free_count_take(taken: Seq<bool>, n: int, t: int)
    requires
        0 <= n <= taken.len(),
        0 <= t < taken.len(),
        !taken[t],
    ensures
        free_count(taken.update(t, true), n) == free_count(taken, n) - if t < n {
            1int
        } else {
            0int
        },
    decreases n,
{
    if n > 0 {
        lemma_free_count_take(taken, n - 1, t);
    }
}

/// The law of selection: where there are at least `mu` offspring, exactly
/// `mu` survive; each survivor is one of the offspring, none is listed twice,
/// and they stand in order of descending fitness.
pub proof fn law_survivors(scores: Seq<u64>, mu: int, chosen: Seq<usize>)
    requires
        0 <= mu <= scores.len(),
        is_survivor_list(scores, mu, chosen),
    ensures
        chosen.len() == mu,
        forall|k: int| 0 <= k < chosen.len() ==> 0 <= #[trigger] chosen[k] < scores.len(),
        forall|k1: int, k2: int|
            0 <= k1 < k2 < chosen.len() ==> #[trigger] chosen[k1] != #[trigger] chosen[k2],
        forall|k1: int, k2: int|
            0 <= k1 < k2 < chosen.len() ==> scores[#[trigger] chosen[k1] as int]
                >= scores[#[trigger] chosen[k2] as int],
{
}

/// (mu, lambda) selection: the positions of the `mu` fittest candidates, the
/// fittest first; of equally fit candidates the one evaluated earlier comes
/// first.
pub fn select_survivors(scores: &Vec<u64>, mu: usize) -> (chosen: Vec<usize>)
    ensures
        is_survivor_list(scores@, mu as int, chosen@),
{
    let n: usize = scores.len();
    let count: usize = if mu <= n { mu } else { n };
    let mut taken: Vec<bool> = Vec::new();
    let mut i: usize = 0;
    while i < n
        invariant
            i <= n,
            taken@.len() == i,
            forall|t: int| 0 <= t < i ==> !taken@[t],
        decreases n - i,
    {
        taken.push(false);
        i += 1;
    }
    proof {
        lemma_free_count_all(taken@, n as int);
    }
    let mut chosen: Vec<usize> = Vec::new();
    while chosen.len() < count
        invariant
            n == scores@.len(),
            count <= n,
            taken@.len() == n,
            chosen@.len() <= count,
            chosen@.len() + free_count(taken@, n as int) == n,
            forall|k: int| 0 <= k < chosen@.len() ==> #[trigger] chosen@[k] < n,
            forall|t: int| 0 <= t < n && taken@[t] ==> is_chosen(chosen@, t),
            forall|k1: int, k2: int|
                0 <= k1 < k2 < chosen@.len() ==> outranks(
                    scores@,
                    #[trigger] chosen@[k1] as int,
                    #[trigger] chosen@[k2] as int,
                ),
            forall|k: int, t: int|
                0 <= k < chosen@.len() && 0 <= t < n && !taken@[t] ==> #[trigger] outranks(
                    scores@,
                    chosen@[k] as int,
                    t,
                ),
        decreases count - chosen@.len(),
    {
        let mut best: usize = 0;
        let mut found: bool = false;
        let mut t: usize = 0;
        while t < n
            invariant
                t <= n,
                n == scores@.len(),
                taken@.len() == n,
                !found ==> forall|u: int| 0 <= u < t ==> taken@[u],
                found ==> best < t && !taken@[best as int],
                found ==> forall|u: int|
                    0 <= u < t && !(#[trigger] taken@[u]) && u != best ==> outranks(
                        scores@,
                        best as int,
                        u,
                    ),
            decreases n - t,
        {
            if !taken[t] && (!found || scores[t] > scores[best]) {
                best = t;
                found = true;
            }
            t += 1;
        }
        proof {
            if !found {
                lemma_free_count_none(taken@, n as int);
            }
            lemma_free_count_take(taken@, n as int, best as int);
        }
        let ghost before = chosen@;
        taken.set(best, true);
        chosen.push(best);
        proof {
            assert forall|u: int| 0 <= u < n && taken@[u] implies is_chosen(chosen@, u) by {
                if u == best {
                    assert(chosen@[before.len() as int] == u);
                } else {
                    let k = choose|k: int| 0 <= k < before.len() && #[trigger] before[k] == u;
                    assert(chosen@[k] == u);
                }
            }
        }
    }
    chosen
}

/// `child` was bred from the population: it is a mutant of a parent that won
/// a binary tournament.
pub open spec fn is_child_of(child: Individual, population: Seq<Individual>, scores: Seq<u64>) -> bool {
    exists|p: int|
        0 <= p < population.len() && is_tournament_outcome(scores, p) && #[trigger] is_mutant(
            child,
            population[p],
        )
}

/// `member` is a copy of one of the candidates.
pub open spec fn is_among(member: Individual, candidates: Seq<Individual>) -> bool {
    exists|j: int| 0 <= j < candidates.len() && same_individual(member, #[trigger] candidates[j])
}

/// `next` holds copies of the candidates at `chosen`, in that order.
pub open spec fn is_selection(
    next: Seq<Individual>,
    offspring: Seq<Individual>,
    chosen: Seq<usize>,
) -> bool {
    &&& next.len() == chosen.len()
    &&& forall|k: int|
        0 <= k < next.len() ==> same_individual(#[trigger] next[k], offspring[chosen[k] as int])
}

/// `next` holds the survivors of a selection of `mu` from `offspring`.
pub open spec fn is_survivors(
    next: Seq<Individual>,
    offspring: Seq<Individual>,
    scores: Seq<u64>,
    mu: int,
) -> bool {
    exists|chosen: Seq<usize>|
        is_survivor_list(scores, mu, chosen) && #[trigger] is_selection(next, offspring, chosen)
}

/// `offspring` were bred from the population: each is a mutant of a parent
/// that won a binary tournament.
pub open spec fn is_brood(
    offspring: Seq<Individual>,
    population: Seq<Individual>,
    scores: Seq<u64>,
    lambda: int,
) -> bool {
    &&& offspring.len() == lambda
    &&& forall|k: int|
        0 <= k < offspring.len() ==> (#[trigger] offspring[k]).sigma > 0 && is_child_of(
            offspring[k],
            population,
            scores,
        )
}

/// `next` is a generation after the population: the survivors of a selection
/// of `mu` from `lambda` offspring bred from it, under the scores that the
/// objective gives to parents and offspring.
pub open spec fn is_generation_after<F: Fitness>(
    next: Seq<Individual>,
    population: Seq<Individual>,
    mu: int,
    lambda: int,
    fitness_fn: &F,
) -> bool {
    exists|scores: Seq<u64>, offspring: Seq<Individual>, offspring_scores: Seq<u64>|
        are_scores(fitness_fn, population, scores) && are_scores(
            fitness_fn,
            offspring,
            offspring_scores,
        ) && #[trigger] is_brood(offspring, population, scores, lambda)
            && #[trigger] is_survivors(next, offspring, offspring_scores, mu)
}

/// `stats` measures the parents under the objective: for scores that it
/// gives to them.
pub open spec fn measures<F: Fitness>(
    stats: EsStats,
    population: Seq<Individual>,
    fitness_fn: &F,
) -> bool {
    exists|scores: Seq<u64>|
        are_scores(fitness_fn, population, scores) && #[trigger] describes(
            stats,
            population,
            scores,
        )
}

/// `stats` measures some parents of the configured shape under the
/// objective.
pub open spec fn is_measured<F: Fitness>(
    stats: EsStats,
    params: ESParameters,
    fitness_fn: &F,
) -> bool {
    exists|population: Seq<Individual>|
        is_es_population(population, stats.size as int, params.mem_size as int)
            && #[trigger] measures(stats, population, fitness_fn)
}

/// The genes of each candidate.
pub open spec fn genes_of(population: Seq<Individual>) -> Seq<Seq<i64>> {
    Seq::new(population.len(), |i: int| population[i].genes@)
}

/// What is measured of one generation of parents. The mean fitness is
/// `total_fitness` divided by the number of parents, the diversity the square
/// root of `diversity_squared`.
#[derive(Clone, Copy, Debug, PartialEq, Eq, Structural)]
pub struct EsStats {
    /// The highest fitness of a parent, or zero where there is none.
    pub best_fitness: u64,
    /// The sum of the parents' fitness.
    pub total_fitness: u128,
    /// The number of parents.
    pub size: usize,
    /// The largest squared Euclidean distance between the genes of two parents.
    pub diversity_squared: u128,
}

/// `stats` measures the parents that score `scores`.
pub open spec fn describes(stats: EsStats, population: Seq<Individual>, scores: Seq<u64>) -> bool {
    &&& stats.size == population.len()
    &&& is_best_score(scores, stats.best_fitness)
    &&& stats.total_fitness == total_score(scores)
    &&& is_squared_diameter(genes_of(population), stats.diversity_squared as int)
}

/// The early stop: the mean fitness over `mu` parents exceeds
/// [`EARLY_STOP`].
pub open spec fn stops_early(stats: EsStats, mu: usize) -> bool {
    mean_exceeds(stats.total_fitness, mu, EARLY_STOP)
}

/// The number of fitness evaluations after `measured` generations of `mu`
/// parents and `lambda` offspring, capped at the largest value a `u128`
/// holds.
pub open spec fn evaluations_after(measured: int, mu: usize, lambda: usize) -> int {
    let exact = measured * (mu + lambda);
    if exact <= u128::MAX {
        exact
    } else {
        u128::MAX as int
    }
}

/// `lambda` offspring: each a mutant of a parent chosen by binary
/// tournament.
pub fn breed<V: Variation>(
    population: &Vec<Individual>,
    scores: &Vec<u64>,
    params: &ESParameters,
    variation: &V,
    rng: &mut ChaCha8Rng,
) -> (offspring: Result<Vec<Individual>, ConfigError>)
    ensures
        params.lambda == 0 ==> offspring is Ok,
        params.lambda > 0 && scores@.len() != population@.len() ==> offspring == Err::<
            Vec<Individual>,
            ConfigError,
        >(ConfigError::LengthMismatch),
        params.lambda > 0 && scores@.len() == population@.len() && population@.len() == 0
            ==> offspring == Err::<Vec<Individual>, ConfigError>(ConfigError::EmptyPopulation),
        params.lambda > 0 && scores@.len() == population@.len() && population@.len() > 0
            ==> offspring is Ok,
        offspring matches Ok(children) ==> {
            &&& is_brood(children@, population@, scores@, params.lambda as int)
            &&& is_es_population(population@, population@.len() as int, params.mem_size as int)
                ==> is_es_population(children@, params.lambda as int, params.mem_size as int)
        },
{
    let mut offspring: Vec<Individual> = Vec::new();
    if params.lambda > 0 && scores.len() != population.len() {
        return Err(ConfigError::LengthMismatch);
    }
    while offspring.len() < params.lambda
        invariant
            offspring@.len() <= params.lambda,
            params.lambda > 0 ==> scores@.len() == population@.len(),
            population@.len() == 0 ==> offspring@.len() == 0,
            forall|k: int|
                0 <= k < offspring@.len() ==> (#[trigger] offspring@[k]).sigma > 0 && is_child_of(
                    offspring@[k],
                    population@,
                    scores@,
                ),
            is_es_population(population@, population@.len() as int, params.mem_size as int)
                ==> is_es_population(offspring@, offspring@.len() as int, params.mem_size as int),
        decreases params.lambda - offspring@.len(),
    {
        let parent: usize = match select_parent(scores, rng) {
            Ok(parent) => parent,
            Err(e) => {
                return Err(e);
            },
        };
        let child: Individual = mutate(&population[parent], params.tau, variation, rng);
        offspring.push(child);
    }
    Ok(offspring)
}

/// (mu, lambda) selection: copies of the `mu` fittest offspring, the fittest
/// first. The parents take no part.
pub fn survivors(offspring: &Vec<Individual>, scores: &Vec<u64>, mu: usize) -> (next: Result<
    Vec<Individual>,
    ConfigError,
>)
    ensures
        scores@.len() != offspring@.len() ==> next == Err::<Vec<Individual>, ConfigError>(
            ConfigError::LengthMismatch,
        ),
        scores@.len() == offspring@.len() ==> (next matches Ok(members) && is_survivors(
            members@,
            offspring@,
            scores@,
            mu as int,
        ) && members@.len() == if mu <= offspring@.len() {
            mu as int
        } else {
            offspring@.len() as int
        }),
{
    if scores.len() != offspring.len() {
        return Err(ConfigError::LengthMismatch);
    }
    let chosen: Vec<usize> = select_survivors(scores, mu);
    let mut next: Vec<Individual> = Vec::new();
    let mut k: usize = 0;
    while k < chosen.len()
        invariant
            k <= chosen@.len(),
            next@.len() == k,
            scores@.len() == offspring@.len(),
            is_survivor_list(scores@, mu as int, chosen@),
            forall|m: int|
                0 <= m < k ==> same_individual(#[trigger] next@[m], offspring@[chosen@[m] as int]),
        decreases chosen@.len() - k,
    {
        let copy: Individual = copy_individual(&offspring[chosen[k]]);
        next.push(copy);
        k += 1;
    }
    assert(is_selection(next@, offspring@, chosen@));
    Ok(next)
}

/// One generation: the parents are evaluated, `lambda` offspring are bred
/// and evaluated, and the `mu` fittest offspring replace the parents.
pub fn create_es_offspring<F: Fitness, V: Variation>(
    population: &Vec<Individual>,
    params: &ESParameters,
    fitness_fn: &F,
    variation: &V,
    rng: &mut ChaCha8Rng,
) -> (next: Result<Vec<Individual>, ConfigError>)
    ensures
        params.lambda > 0 && population@.len() == 0 ==> next == Err::<
            Vec<Individual>,
            ConfigError,
        >(ConfigError::EmptyPopulation),
        params.lambda == 0 || population@.len() > 0 ==> next is Ok,
        next matches Ok(members) ==> {
            &&& is_generation_after(
                members@,
                population@,
                params.mu as int,
                params.lambda as int,
                fitness_fn,
            )
            &&& members@.len() == if params.mu <= params.lambda {
                params.mu
            } else {
                params.lambda
            }
            &&& forall|k: int| 0 <= k < members@.len() ==> (#[trigger] members@[k]).sigma > 0
            &&& is_es_population(population@, population@.len() as int, params.mem_size as int)
                ==> is_es_population(members@, members@.len() as int, params.mem_size as int)
        },
{
    let scores: Vec<u64> = evaluate(population, fitness_fn);
    let offspring: Vec<Individual> = match breed(population, &scores, params, variation, rng) {
        Ok(offspring) => offspring,
        Err(e) => {
            return Err(e);
        },
    };
    let offspring_scores: Vec<u64> = evaluate(&offspring, fitness_fn);
    let next = survivors(&offspring, &offspring_scores, params.mu);
    proof {
        let members = next->Ok_0;
        assert(are_scores(fitness_fn, population@, scores@) && are_scores(
            fitness_fn,
            offspring@,
            offspring_scores@,
        ) && is_brood(offspring@, population@, scores@, params.lambda as int) && is_survivors(
            members@,
            offspring@,
            offspring_scores@,
            params.mu as int,
        ));
    }
    next
}

/// Every survivor is a copy of one of the offspring.
pub proof fn law_survivors_are_offspring(
    next: Seq<Individual>,
    offspring: Seq<Individual>,
    scores: Seq<u64>,
    mu: int,
)
    requires
        scores.len() == offspring.len(),
        is_survivors(next, offspring, scores, mu),
    ensures
        forall|k: int| 0 <= k < next.len() ==> is_among(#[trigger] next[k], offspring),
{
    let chosen = choose|chosen: Seq<usize>|
        is_survivor_list(scores, mu, chosen) && #[trigger] is_selection(next, offspring, chosen);
}

/// The genes of each candidate, copied out.
fn gene_vectors(population: &Vec<Individual>) -> (points: Vec<Vec<i64>>)
    ensures
        views(points@) == genes_of(population@),
{
    let mut points: Vec<Vec<i64>> = Vec::new();
    let mut i: usize = 0;
    while i < population.len()
        invariant
            i <= population.len(),
            points@.len() == i,
            forall|m: int| 0 <= m < i ==> (#[trigger] points@[m])@ == population@[m].genes@,
        decreases population.len() - i,
    {
        let copy: Individual = copy_individual(&population[i]);
        points.push(copy.genes);
        i += 1;
    }
    points
}

/// The statistics of a generation of parents, from their fitness.
pub fn summarize(population: &Vec<Individual>, scores: &Vec<u64>) -> (stats: EsStats)
    ensures
        describes(stats, population@, scores@),
{
    let points: Vec<Vec<i64>> = gene_vectors(population);
    EsStats {
        best_fitness: best_score(scores),
        total_fitness: sum_scores(scores),
        size: population.len(),
        diversity_squared: squared_diameter(&points),
    }
}

/// Whether the run stops early: the mean fitness over `mu` parents exceeds
/// [`EARLY_STOP`].
pub fn check_early_stop(stats: &EsStats, mu: usize) -> (stop: bool)
    ensures
        stop == stops_early(*stats, mu),
{
    check_mean_exceeds(stats.total_fitness, mu, EARLY_STOP)
}

/// The number of fitness evaluations after `measured` generations.
pub fn count_evaluations(measured: usize, mu: usize, lambda: usize) -> (evaluations: u128)
    ensures
        evaluations == evaluations_after(measured as int, mu, lambda),
{
    let each: u128 = mu as u128 + lambda as u128;
    match (measured as u128).checked_mul(each) {
        Some(product) => product,
        None => u128::MAX,
    }
}

/// Under an objective that scores every candidate above the early stop, a
/// run with parents and generations to do stops in its first generation and
/// returns its first population.
pub proof fn law_high_scores_stop_at_once<F: Fitness>(
    run: EsRun,
    params: ESParameters,
    fitness_fn: &F,
)
    requires
        is_es_run(run, params, fitness_fn),
        params.mu > 0,
        params.max_gens > 0,
        forall|genes: Seq<i64>, score: u64| #[trigger]
            fitness_fn.may_fit(genes, score) ==> score > EARLY_STOP,
    ensures
        run.generations == 0,
        run.stopped_early,
        is_first_population(run.population@, params),
{
    if run.generations > 0 {
        let first = run.history@[0];
        assert(!stops_early(first, params.mu));
        assert(is_measured(first, params, fitness_fn));
        let population = choose|population: Seq<Individual>|
            is_es_population(population, first.size as int, params.mem_size as int)
                && #[trigger] measures(first, population, fitness_fn);
        let scores = choose|scores: Seq<u64>|
            are_scores(fitness_fn, population, scores) && #[trigger] describes(
                first,
                population,
                scores,
            );
        assert forall|i: int| 0 <= i < scores.len() implies scores[i] > EARLY_STOP by {
            assert(fitness_fn.may_fit(population[i].genes@, scores[i]));
        }
        lemma_prefix_total_above(scores, scores.len() as int, EARLY_STOP);
        assert(params.mu * (EARLY_STOP + 1) > EARLY_STOP * params.mu) by (nonlinear_arith)
            requires
                params.mu > 0,
        ;
        assert(false);
    }
}

/// What a run of the evolution strategy leaves behind.
pub struct EsRun {
    /// The last parents.
    pub population: Vec<Individual>,
    /// The statistics of each generation of parents that was measured, oldest
    /// first.
    pub history: Vec<EsStats>,
    /// The number of times the parents were replaced.
    pub generations: usize,
    /// The number of fitness evaluations made.
    pub evaluations: u128,
    /// Whether the run ended on the early stop.
    pub stopped_early: bool,
}

/// The number of parents after `generations` replacements.
pub open spec fn parents_after(params: ESParameters, generations: int) -> int {
    if generations == 0 || params.mu <= params.lambda {
        params.mu as int
    } else {
        params.lambda as int
    }
}

/// `members` stand in order of descending fitness, for scores that the
/// objective gives to them.
pub open spec fn is_ranked<F: Fitness>(members: Seq<Individual>, fitness_fn: &F) -> bool {
    exists|ranks: Seq<u64>|
        #[trigger] are_scores(fitness_fn, members, ranks) && forall|i: int, j: int|
            0 <= i < j < ranks.len() ==> ranks[i] >= ranks[j]
}

/// A generation that replaced another holds the smaller of `mu` and `lambda`
/// members, and they stand in order of descending fitness under the
/// objective.
pub proof fn law_generation_is_ranked<F: Fitness>(
    next: Seq<Individual>,
    population: Seq<Individual>,
    mu: int,
    lambda: int,
    fitness_fn: &F,
)
    requires
        0 <= mu,
        0 <= lambda,
        is_generation_after(next, population, mu, lambda, fitness_fn),
    ensures
        next.len() == if mu <= lambda { mu } else { lambda },
        is_ranked(next, fitness_fn),
{
    let (scores, offspring, offspring_scores) = choose|
        scores: Seq<u64>,
        offspring: Seq<Individual>,
        offspring_scores: Seq<u64>,
    |
        are_scores(fitness_fn, population, scores) && are_scores(
            fitness_fn,
            offspring,
            offspring_scores,
        ) && #[trigger] is_brood(offspring, population, scores, lambda)
            && #[trigger] is_survivors(next, offspring, offspring_scores, mu);
    let chosen = choose|chosen: Seq<usize>|
        is_survivor_list(offspring_scores, mu, chosen) && #[trigger] is_selection(
            next,
            offspring,
            chosen,
        );
    let ranks = Seq::new(next.len(), |k: int| offspring_scores[chosen[k] as int]);
    assert forall|i: int| 0 <= i < next.len() implies fitness_fn.may_fit(
        (#[trigger] next[i]).genes@,
        ranks[i],
    ) by {
        assert(chosen[i] < offspring_scores.len());
        assert(same_individual(next[i], offspring[chosen[i] as int]));
        assert(fitness_fn.may_fit(
            offspring[chosen[i] as int].genes@,
            offspring_scores[chosen[i] as int],
        ));
    }
    assert forall|i: int, j: int| 0 <= i < j < ranks.len() implies ranks[i] >= ranks[j] by {
        assert(outranks(offspring_scores, chosen[i] as int, chosen[j] as int));
    }
    assert(are_scores(fitness_fn, next, ranks));
}

/// The error of the first population, if there is one: a step size of zero,
/// or genes to draw from a range that holds no value.
pub open spec fn start_error(params: ESParameters) -> Option<ConfigError> {
    if params.sigma == 0 {
        Some(ConfigError::ZeroStepSize)
    } else if params.mu > 0 && params.mem_size > 0 && params.mem_range.0 >= params.mem_range.1 {
        Some(ConfigError::EmptyGeneRange)
    } else {
        None
    }
}

/// The error on which a run ends, if there is one: that of the first
/// population, or offspring to breed in a first generation without parents.
pub open spec fn run_error(params: ESParameters) -> Option<ConfigError> {
    if start_error(params) is Some {
        start_error(params)
    } else if params.mu == 0 && params.lambda > 0 && params.max_gens > 0 {
        Some(ConfigError::EmptyPopulation)
    } else {
        None
    }
}

/// `members` is a first population: `mu` candidates with the configured step
/// size and with genes inside the configured range.
pub open spec fn is_first_population(members: Seq<Individual>, params: ESParameters) -> bool {
    &&& is_es_population(members, params.mu as int, params.mem_size as int)
    &&& forall|i: int| 0 <= i < members.len() ==> (#[trigger] members[i]).sigma == params.sigma
    &&& forall|i: int, k: int|
        0 <= i < members.len() && 0 <= k < params.mem_size ==> params.mem_range.0 <= (
        #[trigger] members[i].genes@[k]) < params.mem_range.1
}

/// `members` replaced an earlier population: they are the survivors of a
/// selection of `mu` from `lambda` offspring bred from it.
pub open spec fn has_predecessor<F: Fitness>(
    members: Seq<Individual>,
    params: ESParameters,
    fitness_fn: &F,
) -> bool {
    exists|earlier: Seq<Individual>| #[trigger]
        is_generation_after(
            members,
            earlier,
            params.mu as int,
            params.lambda as int,
            fitness_fn,
        )
}

/// What holds of a finished run under `params` and the objective.
pub open spec fn is_es_run<F: Fitness>(run: EsRun, params: ESParameters, fitness_fn: &F) -> bool {
    &&& if run.generations == 0 {
        is_first_population(run.population@, params)
    } else {
        has_predecessor(run.population@, params, fitness_fn)
    }
    &&& forall|g: int|
        0 <= g < run.history@.len() ==> is_measured(
            #[trigger] run.history@[g],
            params,
            fitness_fn,
        )
    &&& is_es_population(
        run.population@,
        parents_after(params, run.generations as int),
        params.mem_size as int,
    )
    &&& run.generations <= params.max_gens
    &&& run.history@.len() == run.generations + if run.stopped_early { 1int } else { 0int }
    &&& run.evaluations == evaluations_after(run.history@.len() as int, params.mu, params.lambda)
    &&& forall|g: int|
        0 <= g < run.history@.len() ==> (#[trigger] run.history@[g]).size == parents_after(
            params,
            g,
        )
    &&& forall|g: int|
        0 <= g < run.generations ==> !stops_early(#[trigger] run.history@[g], params.mu)
    &&& if run.stopped_early {
        &&& stops_early(run.history@[run.generations as int], params.mu)
        &&& measures(run.history@[run.generations as int], run.population@, fitness_fn)
    } else {
        run.generations == params.max_gens
    }
}

/// The evolution strategy. Each generation the parents are evaluated,
/// `lambda` offspring are bred and evaluated, and the parents are measured;
/// unless their mean fitness exceeds [`EARLY_STOP`], the `mu` fittest
/// offspring replace them. The run ends on the early stop or after `max_gens`
/// replacements.
pub fn evolution_strategy<F: Fitness, V: Variation>(
    fitness_fn: &F,
    variation: &V,
    params: &ESParameters,
    rng: &mut ChaCha8Rng,
) -> (run: Result<EsRun, ConfigError>)
    ensures
        match run_error(*params) {
            Some(e) => run == Err::<EsRun, ConfigError>(e),
            None => run matches Ok(r) && is_es_run(r, *params, fitness_fn),
        },
{
    let mut population: Vec<Individual> = match init_population(params, rng) {
        Ok(population) => population,
        Err(e) => {
            return Err(e);
        },
    };
    let mut history: Vec<EsStats> = Vec::new();
    let mut generations: usize = 0;
    while generations < params.max_gens
        invariant
            generations <= params.max_gens,
            params.sigma > 0,
            params.mu > 0 && params.mem_size > 0 ==> params.mem_range.0 < params.mem_range.1,
            params.mu == 0 && params.lambda > 0 ==> generations == 0,
            if generations == 0 {
                is_first_population(population@, *params)
            } else {
                has_predecessor(population@, *params, fitness_fn)
            },
            forall|g: int|
                0 <= g < history@.len() ==> is_measured(
                    #[trigger] history@[g],
                    *params,
                    fitness_fn,
                ),
            is_es_population(
                population@,
                parents_after(*params, generations as int),
                params.mem_size as int,
            ),
            history@.len() == generations,
            forall|g: int|
                0 <= g < history@.len() ==> (#[trigger] history@[g]).size == parents_after(
                    *params,
                    g,
                ),
            forall|g: int|
                0 <= g < generations ==> !stops_early(#[trigger] history@[g], params.mu),
        decreases params.max_gens - generations,
    {
        let scores: Vec<u64> = evaluate(&population, fitness_fn);
        let offspring: Vec<Individual> = match breed(
            &population,
            &scores,
            params,
            variation,
            rng,
        ) {
            Ok(offspring) => offspring,
            Err(e) => {
                return Err(e);
            },
        };
        let offspring_scores: Vec<u64> = evaluate(&offspring, fitness_fn);
        let stats: EsStats = summarize(&population, &scores);
        history.push(stats);
        assert(measures(stats, population@, fitness_fn)) by {
            assert(are_scores(fitness_fn, population@, scores@) && describes(
                stats,
                population@,
                scores@,
            ));
        }
        assert(is_measured(stats, *params, fitness_fn));
        if check_early_stop(&stats, params.mu) {
            let evaluations: u128 = count_evaluations(history.len(), params.mu, params.lambda);
            return Ok(EsRun { population, history, generations, evaluations, stopped_early: true });
        }
        let next: Vec<Individual> = match survivors(&offspring, &offspring_scores, params.mu) {
            Ok(next) => next,
            Err(e) => {
                return Err(e);
            },
        };
        assert(is_generation_after(
            next@,
            population@,
            params.mu as int,
            params.lambda as int,
            fitness_fn,
        )) by {
            assert(are_scores(fitness_fn, population@, scores@) && are_scores(
                fitness_fn,
                offspring@,
                offspring_scores@,
            ) && is_brood(
                offspring@,
                population@,
                scores@,
                params.lambda as int,
            ) && is_survivors(next@, offspring@, offspring_scores@, params.mu as int));
        }
        population = next;
        generations += 1;
    }
    let evaluations: u128 = count_evaluations(history.len(), params.mu, params.lambda);
    Ok(EsRun { population, history, generations, evaluations, stopped_early: false })
}

} // verus!
