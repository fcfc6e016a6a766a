use vstd::prelude::*;
use rand_chacha::ChaCha8Rng;
use crate::error::ConfigError;
use crate::fitness::Fitness;
use crate::fixed::ONE;
use crate::random::random_bit;
use crate::random::random_below;
use crate::random::random_index;
use crate::random::unit_draw;
use crate::stats::lemma_prefix_total_monotone;
use crate::stats::prefix_total;
use crate::stats::best_score;
use crate::stats::check_mean_at_least;
use crate::stats::is_best_score;
use crate::stats::is_squared_diameter;
use crate::stats::mean_at_least;
use crate::stats::squared_diameter;
use crate::stats::sum_scores;
use crate::stats::total_score;
use crate::stats::views;

verus! {

/// The configuration of one run of the genetic algorithm. Rates and the
/// threshold are fixed-point fractions of [`ONE`].
#[derive(Clone, Copy, Debug, PartialEq, Eq, Structural)]
pub struct GAParameters {
    pub pop_size: usize,
    pub mem_size: usize,
    pub mutation_rate: u64,
    pub crossover_rate: u64,
    pub max_iters: usize,
    pub convergence_threshold: u64,
}

/// The number of contestants in a tournament where none is configured.
pub const DEFAULT_TOURNAMENT_SIZE: usize = 3;

/// How parents are chosen.
#[derive(Clone, Copy, Debug, PartialEq, Eq, Structural)]
pub enum Selection {
    /// With a chance proportional to fitness.
    Roulette,
    /// The fittest of this many members drawn uniformly.
    Tournament(usize),
}

/// `members` holds `size` bitstrings, each `width` bits long.
pub open spec fn is_population(members: Seq<Vec<bool>>, size: int, width: int) -> bool {
    &&& members.len() == size
    &&& forall|i: int| 0 <= i < members.len() ==> (#[trigger] members[i])@.len() == width
}

/// Every draw lies in the unit interval.
pub open spec fn unit_draws(draws: Seq<u64>) -> bool {
    forall|i: int| 0 <= i < draws.len() ==> #[trigger] draws[i] < ONE
}

/// The bitstring in which bit `i` is flipped exactly where draw `i` exists and
/// falls below `rate`.
pub open spec fn flipped(bits: Seq<bool>, rate: u64, draws: Seq<u64>) -> Seq<bool> {
    Seq::new(
        bits.len(),
        |i: int|
            if i < draws.len() && draws[i] < rate {
                !bits[i]
            } else {
                bits[i]
            },
    )
}

/// The bitwise complement.
pub open spec fn complement(bits: Seq<bool>) -> Seq<bool> {
    Seq::new(bits.len(), |i: int| !bits[i])
}

/// The bits of `head` before `point`, followed by the bits of `tail` from
/// `point` on.
pub open spec fn spliced(head: Seq<bool>, tail: Seq<bool>, point: int) -> Seq<bool> {
    Seq::new(
        head.len(),
        |i: int|
            if i < point {
                head[i]
            } else {
                tail[i]
            },
    )
}

/// The two children of single-point crossover: the parents themselves where
/// the draw does not fall below the rate, else the two splices at `point`.
pub open spec fn crossover_outcome(
    parent1: Seq<bool>,
    parent2: Seq<bool>,
    rate: u64,
    draw: u64,
    point: int,
) -> (Seq<bool>, Seq<bool>) {
    if draw >= rate {
        (parent1, parent2)
    } else {
        (spliced(parent1, parent2, point), spliced(parent2, parent1, point))
    }
}

/// `child` is what mutation at `rate` makes of `bits` for some outcome of
/// its draws, one unit draw for each bit.
pub open spec fn is_mutation_of(child: Seq<bool>, bits: Seq<bool>, rate: u64) -> bool {
    exists|draws: Seq<u64>|
        draws.len() == bits.len() && unit_draws(draws) && child == #[trigger] flipped(
            bits,
            rate,
            draws,
        )
}

/// `children` are what crossover at `rate` makes of the parents for some
/// outcome of its draws: a unit draw and, where the parents cross, a point
/// inside them.
pub open spec fn is_crossover_of(
    children: (Seq<bool>, Seq<bool>),
    parent1: Seq<bool>,
    parent2: Seq<bool>,
    rate: u64,
) -> bool {
    exists|draw: u64, point: int|
        draw < ONE && (draw < rate ==> 1 <= point < parent1.len()) && children
            == #[trigger] crossover_outcome(parent1, parent2, rate, draw, point)
}

/// Mutation at rate zero changes nothing, whatever is drawn.
pub proof fn law_mutation_rate_zero(bits: Seq<bool>, draws: Seq<u64>)
    ensures
        flipped(bits, 0, draws) == bits,
{
}

/// Mutation at rate one, with one unit draw for each bit, yields the bitwise
/// complement.
pub proof fn law_mutation_rate_one(bits: Seq<bool>, draws: Seq<u64>)
    requires
        draws.len() == bits.len(),
        unit_draws(draws),
    ensures
        flipped(bits, ONE, draws) == complement(bits),
{
}

/// Crossover leaves both parents as they are whenever the draw is at least
/// the crossover rate.
pub proof fn law_crossover_noop(
    parent1: Seq<bool>,
    parent2: Seq<bool>,
    rate: u64,
    draw: u64,
    point: int,
)
    requires
        draw >= rate,
    ensures
        crossover_outcome(parent1, parent2, rate, draw, point) == (parent1, parent2),
{
}

/// A copy of a bitstring.
pub fn copy_bits(bits: &Vec<bool>) -> (copy: Vec<bool>)
    ensures
        copy@ == bits@,
{
    let mut copy: Vec<bool> = Vec::new();
    let mut i: usize = 0;
    while i < bits.len()
        invariant
            i <= bits.len(),
            copy@ == bits@.subrange(0, i as int),
        decreases bits.len() - i,
    {
        copy.push(bits[i]);
        i += 1;
    }
    copy
}

/// Whether two bitstrings are the same, bit for bit.
pub fn same_bits(a: &Vec<bool>, b: &Vec<bool>) -> (same: bool)
    ensures
        same == (a@ == b@),
{
    if a.len() != b.len() {
        return false;
    }
    let mut i: usize = 0;
    while i < a.len()
        invariant
            i <= a.len(),
            a.len() == b.len(),
            forall|k: int| 0 <= k < i ==> a@[k] == b@[k],
        decreases a.len() - i,
    {
        if a[i] != b[i] {
            return false;
        }
        i += 1;
    }
    assert(a@ =~= b@);
    true
}

/// A population of `pop_size` members of `mem_size` bits, each bit drawn
/// fairly and on its own.
pub fn init_population(params: &GAParameters, rng: &mut ChaCha8Rng) -> (population: Vec<Vec<bool>>)
    ensures
        is_population(population@, params.pop_size as int, params.mem_size as int),
{
    let mut population: Vec<Vec<bool>> = Vec::new();
    let mut i: usize = 0;
    while i < params.pop_size
        invariant
            i <= params.pop_size,
            is_population(population@, i as int, params.mem_size as int),
        decreases params.pop_size - i,
    {
        let mut member: Vec<bool> = Vec::new();
        let mut j: usize = 0;
        while j < params.mem_size
            invariant
                j <= params.mem_size,
                member@.len() == j,
            decreases params.mem_size - j,
        {
            let bit: bool = random_bit(rng);
            member.push(bit);
            j += 1;
        }
        population.push(member);
        i += 1;
    }
    population
}

/// The bitstring with each bit flipped where its draw falls below the
/// mutation rate. A bit without a draw is kept.
pub fn mutate_with(bitstring: &Vec<bool>, mutation_rate: u64, draws: &Vec<u64>) -> (mutated: Vec<
    bool,
>)
    ensures
        mutated@ == flipped(bitstring@, mutation_rate, draws@),
{
    let mut mutated: Vec<bool> = Vec::new();
    let mut i: usize = 0;
    while i < bitstring.len()
        invariant
            i <= bitstring.len(),
            mutated@.len() == i,
            forall|k: int|
                0 <= k < i ==> mutated@[k] == flipped(bitstring@, mutation_rate, draws@)[k],
        decreases bitstring.len() - i,
    {
        let flip: bool = i < draws.len() && draws[i] < mutation_rate;
        let bit: bool = bitstring[i];
        mutated.push(if flip { !bit } else { bit });
        i += 1;
    }
    mutated
}

/// Flips each bit independently with probability `mutation_rate`: one unit
/// draw is taken for each bit, in order.
pub fn mutate(bitstring: &Vec<bool>, mutation_rate: u64, rng: &mut ChaCha8Rng) -> (mutated: Vec<
    bool,
>)
    ensures
        is_mutation_of(mutated@, bitstring@, mutation_rate),
        mutated@.len() == bitstring@.len(),
        mutation_rate == 0 ==> mutated@ == bitstring@,
        mutation_rate >= ONE ==> mutated@ == complement(bitstring@),
{
    let mut draws: Vec<u64> = Vec::new();
    let mut i: usize = 0;
    while i < bitstring.len()
        invariant
            i <= bitstring.len(),
            draws@.len() == i,
            unit_draws(draws@),
        decreases bitstring.len() - i,
    {
        let drawn: u64 = unit_draw(rng);
        draws.push(drawn);
        i += 1;
    }
    let mutated: Vec<bool> = mutate_with(bitstring, mutation_rate, &draws);
    mutated
}

/// Single-point crossover with the random outcome given: `draw` decides
/// whether the parents cross, `point` where.
pub fn crossover_with(
    parent1: &Vec<bool>,
    parent2: &Vec<bool>,
    crossover_rate: u64,
    draw: u64,
    point: usize,
) -> (children: Result<(Vec<bool>, Vec<bool>), ConfigError>)
    ensures
        parent1.len() != parent2.len() ==> children == Err::<(Vec<bool>, Vec<bool>), ConfigError>(
            ConfigError::LengthMismatch,
        ),
        parent1.len() == parent2.len() ==> (children matches Ok(pair) && (pair.0@, pair.1@)
            == crossover_outcome(parent1@, parent2@, crossover_rate, draw, point as int)),
{
    if parent1.len() != parent2.len() {
        return Err(ConfigError::LengthMismatch);
    }
    if draw >= crossover_rate {
        return Ok((copy_bits(parent1), copy_bits(parent2)));
    }
    let mut child1: Vec<bool> = Vec::new();
    let mut child2: Vec<bool> = Vec::new();
    let mut i: usize = 0;
    while i < parent1.len()
        invariant
            i <= parent1.len(),
            parent1.len() == parent2.len(),
            child1@.len() == i,
            child2@.len() == i,
            forall|k: int| 0 <= k < i ==> child1@[k] == spliced(parent1@, parent2@, point as int)[k],
            forall|k: int| 0 <= k < i ==> child2@[k] == spliced(parent2@, parent1@, point as int)[k],
        decreases parent1.len() - i,
    {
        if i < point {
            child1.push(parent1[i]);
            child2.push(parent2[i]);
        } else {
            child1.push(parent2[i]);
            child2.push(parent1[i]);
        }
        i += 1;
    }
    Ok((child1, child2))
}

/// Single-point crossover: with probability `crossover_rate` the parents
/// cross at a point drawn uniformly from `1..length`, else they are returned
/// as they are.
pub fn crossover(
    parent1: &Vec<bool>,
    parent2: &Vec<bool>,
    crossover_rate: u64,
    rng: &mut ChaCha8Rng,
) -> (children: Result<(Vec<bool>, Vec<bool>), ConfigError>)
    ensures
        parent1.len() != parent2.len() ==> children == Err::<(Vec<bool>, Vec<bool>), ConfigError>(
            ConfigError::LengthMismatch,
        ),
        parent1.len() == parent2.len() && (parent1.len() >= 2 || crossover_rate == 0)
            ==> children is Ok,
        children matches Err(e) ==> (e == ConfigError::LengthMismatch && parent1.len()
            != parent2.len()) || (e == ConfigError::NoCrossoverPoint && parent1.len()
            == parent2.len() && parent1.len() < 2 && crossover_rate > 0),
        children matches Ok(pair) ==> is_crossover_of(
            (pair.0@, pair.1@),
            parent1@,
            parent2@,
            crossover_rate,
        ),
        children matches Ok(pair) ==> pair.0@.len() == parent1@.len() && pair.1@.len()
            == parent1@.len(),
{
    if parent1.len() != parent2.len() {
        return Err(ConfigError::LengthMismatch);
    }
    let draw: u64 = unit_draw(rng);
    let mut point: usize = 0;
    if draw < crossover_rate {
        match random_index(rng, 1, parent1.len()) {
            Some(drawn) => {
                point = drawn;
            },
            None => {
                return Err(ConfigError::NoCrossoverPoint);
            },
        }
    }
    let children = crossover_with(parent1, parent2, crossover_rate, draw, point);
    children
}

/// Position `p` holds the winner of a tournament among `picks`: no
/// contestant scores higher, and every earlier one scores lower.
pub open spec fn wins_at(scores: Seq<u64>, picks: Seq<usize>, p: int) -> bool {
    &&& 0 <= p < picks.len()
    &&& forall|j: int| 0 <= j < picks.len() ==> scores[picks[j] as int] <= scores[picks[p] as int]
    &&& forall|j: int| 0 <= j < p ==> scores[picks[j] as int] < scores[picks[p] as int]
}

/// There is at least one contestant, and each is a member.
pub open spec fn valid_picks(scores: Seq<u64>, picks: Seq<usize>) -> bool {
    &&& picks.len() > 0
    &&& forall|j: int| 0 <= j < picks.len() ==> picks[j] < scores.len()
}

/// `winner` is the first of the fittest contestants.
pub open spec fn is_tournament_winner(scores: Seq<u64>, picks: Seq<usize>, winner: int) -> bool {
    exists|p: int| #[trigger] wins_at(scores, picks, p) && picks[p] == winner
}

/// `slot` is the first member at which the running total of the scores
/// reaches `pick`.
pub open spec fn is_roulette_slot(scores: Seq<u64>, pick: int, slot: int) -> bool {
    &&& 0 <= slot < scores.len()
    &&& pick <= prefix_total(scores, slot + 1)
    &&& slot > 0 ==> prefix_total(scores, slot) < pick
}

/// The error that keeps a parent from being selected, if there is one.
pub open spec fn selection_error(scores: Seq<u64>, selection: Selection) -> Option<ConfigError> {
    match selection {
        Selection::Tournament(size) => if size == 0 {
            Some(ConfigError::EmptyTournament)
        } else if scores.len() == 0 {
            Some(ConfigError::EmptyPopulation)
        } else {
            None
        },
        Selection::Roulette => if scores.len() == 0 {
            Some(ConfigError::EmptyPopulation)
        } else if total_score(scores) == 0 {
            Some(ConfigError::ZeroTotalFitness)
        } else {
            None
        },
    }
}

/// `chosen` is what the selection policy yields for some outcome of its
/// draws.
pub open spec fn is_selection_outcome(scores: Seq<u64>, selection: Selection, chosen: int) -> bool {
    match selection {
        Selection::Tournament(size) => exists|picks: Seq<usize>|
            picks.len() == size && valid_picks(scores, picks) && #[trigger] is_tournament_winner(
                scores,
                picks,
                chosen,
            ),
        Selection::Roulette => exists|pick: int|
            0 <= pick < total_score(scores) && #[trigger] is_roulette_slot(scores, pick, chosen),
    }
}

/// The winner of a tournament among the members at `picks`: the fittest,
/// and of several equally fit the one drawn first. `None` where there is no
/// contestant or one of them is no member.
pub fn tournament_select(scores: &Vec<u64>, picks: &Vec<usize>) -> (winner: Option<usize>)
    ensures
        winner is Some <==> valid_picks(scores@, picks@),
        winner matches Some(w) ==> w < scores.len() && is_tournament_winner(
            scores@,
            picks@,
            w as int,
        ),
{
    if picks.len() == 0 {
        return None;
    }
    let mut j: usize = 0;
    while j < picks.len()
        invariant
            j <= picks.len(),
            forall|k: int| 0 <= k < j ==> picks@[k] < scores.len(),
        decreases picks.len() - j,
    {
        if picks[j] >= scores.len() {
            return None;
        }
        j += 1;
    }
    let mut best: usize = 0;
    let mut i: usize = 1;
    while i < picks.len()
        invariant
            1 <= i <= picks.len(),
            best < i,
            forall|k: int| 0 <= k < picks.len() ==> picks@[k] < scores.len(),
            forall|k: int| 0 <= k < i ==> scores@[picks@[k] as int] <= scores@[picks@[best as int] as int],
            forall|k: int| 0 <= k < best ==> scores@[picks@[k] as int] < scores@[picks@[best as int] as int],
        decreases picks.len() - i,
    {
        if scores[picks[i]] > scores[picks[best]] {
            best = i;
        }
        i += 1;
    }
    assert(wins_at(scores@, picks@, best as int));
    Some(picks[best])
}

/// Tournament selection: `tournament_size` members are drawn uniformly, with
/// replacement, and the fittest wins; ties go to the one drawn first.
pub fn tournament_selection(scores: &Vec<u64>, tournament_size: usize, rng: &mut ChaCha8Rng) -> (winner:
    Result<usize, ConfigError>)
    ensures
        match selection_error(scores@, Selection::Tournament(tournament_size)) {
            Some(e) => winner == Err::<usize, ConfigError>(e),
            None => winner matches Ok(w) && w < scores.len() && is_selection_outcome(
                scores@,
                Selection::Tournament(tournament_size),
                w as int,
            ),
        },
{
    if tournament_size == 0 {
        return Err(ConfigError::EmptyTournament);
    }
    if scores.len() == 0 {
        return Err(ConfigError::EmptyPopulation);
    }
    let mut picks: Vec<usize> = Vec::new();
    let mut i: usize = 0;
    while i < tournament_size
        invariant
            i <= tournament_size,
            picks@.len() == i,
            scores.len() > 0,
            forall|k: int| 0 <= k < i ==> picks@[k] < scores.len(),
        decreases tournament_size - i,
    {
        match random_index(rng, 0, scores.len()) {
            Some(pick) => {
                picks.push(pick);
            },
            None => {
                return Err(ConfigError::EmptyPopulation);
            },
        }
        i += 1;
    }
    match tournament_select(scores, &picks) {
        Some(w) => Ok(w),
        None => Err(ConfigError::EmptyPopulation),
    }
}

/// The member on which a roulette wheel stops at `pick`: the first at which
/// the running total of the scores reaches `pick`. `None` where the wheel is
/// shorter than `pick`, or has no member.
pub fn roulette_slot(scores: &Vec<u64>, pick: u128) -> (slot: Option<usize>)
    ensures
        slot is Some <==> scores.len() > 0 && pick <= total_score(scores@),
        slot matches Some(s) ==> is_roulette_slot(scores@, pick as int, s as int),
{
    let mut remaining: u128 = pick;
    let mut i: usize = 0;
    while i < scores.len()
        invariant
            i <= scores.len(),
            remaining == pick - prefix_total(scores@, i as int),
            i > 0 ==> prefix_total(scores@, i as int) < pick,
        decreases scores.len() - i,
    {
        if remaining <= scores[i] as u128 {
            proof {
                lemma_prefix_total_monotone(scores@, i as int + 1, scores@.len() as int);
            }
            return Some(i);
        }
        remaining = remaining - scores[i] as u128;
        i += 1;
    }
    None
}

/// Fitness-proportional selection: a pick is drawn uniformly below the total
/// fitness and the wheel is walked to it.
pub fn roulette_selection(scores: &Vec<u64>, rng: &mut ChaCha8Rng) -> (chosen: Result<
    usize,
    ConfigError,
>)
    ensures
        match selection_error(scores@, Selection::Roulette) {
            Some(e) => chosen == Err::<usize, ConfigError>(e),
            None => chosen matches Ok(c) && c < scores.len() && is_selection_outcome(
                scores@,
                Selection::Roulette,
                c as int,
            ),
        },
{
    if scores.len() == 0 {
        return Err(ConfigError::EmptyPopulation);
    }
    let total: u128 = sum_scores(scores);
    if total == 0 {
        return Err(ConfigError::ZeroTotalFitness);
    }
    let pick: u128 = random_below(rng, total);
    match roulette_slot(scores, pick) {
        Some(slot) => {
            Ok(slot)
        },
        None => Err(ConfigError::ZeroTotalFitness),
    }
}

/// One parent, chosen by the given policy.
pub fn select_parent(scores: &Vec<u64>, selection: Selection, rng: &mut ChaCha8Rng) -> (chosen:
    Result<usize, ConfigError>)
    ensures
        match selection_error(scores@, selection) {
            Some(e) => chosen == Err::<usize, ConfigError>(e),
            None => chosen matches Ok(c) && c < scores.len() && is_selection_outcome(
                scores@,
                selection,
                c as int,
            ),
        },
{
    match selection {
        Selection::Roulette => roulette_selection(scores, rng),
        Selection::Tournament(size) => tournament_selection(scores, size, rng),
    }
}

/// Two parents, each chosen on its own by the given policy.
pub fn parent_selection(scores: &Vec<u64>, selection: Selection, rng: &mut ChaCha8Rng) -> (parents:
    Result<(usize, usize), ConfigError>)
    ensures
        match selection_error(scores@, selection) {
            Some(e) => parents == Err::<(usize, usize), ConfigError>(e),
            None => parents matches Ok(pair) && pair.0 < scores.len() && pair.1 < scores.len()
                && is_selection_outcome(scores@, selection, pair.0 as int)
                && is_selection_outcome(scores@, selection, pair.1 as int),
        },
{
    let first: usize = match select_parent(scores, selection, rng) {
        Ok(chosen) => chosen,
        Err(e) => {
            return Err(e);
        },
    };
    let second: usize = match select_parent(scores, selection, rng) {
        Ok(chosen) => chosen,
        Err(e) => {
            return Err(e);
        },
    };
    Ok((first, second))
}

/// What is measured of one generation. The mean fitness is
/// `total_fitness / size`, the duplicate fraction `duplicates / size`, and the
/// diversity the square root of `diversity_squared`.
#[derive(Clone, Copy, Debug, PartialEq, Eq, Structural)]
pub struct PopulationStats {
    /// The highest fitness of a member, or zero in an empty population.
    pub max_fitness: u64,
    /// The sum of the members' fitness.
    pub total_fitness: u128,
    /// The number of members.
    pub size: usize,
    /// The number of members that equal some other member bit for bit.
    pub duplicates: usize,
    /// The largest squared Euclidean distance between two decoded members.
    pub diversity_squared: u128,
}

/// Some other member equals member `i` bit for bit.
pub open spec fn has_twin(population: Seq<Vec<bool>>, i: int) -> bool {
    exists|j: int| 0 <= j < population.len() && j != i && (#[trigger] population[j])@ == population[i]@
}

/// The number of members among the first `n` that have a twin in the
/// population.
pub open spec fn twin_count(population: Seq<Vec<bool>>, n: int) -> int
    decreases n,
{
    if n <= 0 {
        0
    } else {
        twin_count(population, n - 1) + if has_twin(population, n - 1) {
            1int
        } else {
            0int
        }
    }
}

/// `stats` measures the population whose members score `scores` and decode to
/// `points`.
pub open spec fn describes(
    stats: PopulationStats,
    population: Seq<Vec<bool>>,
    scores: Seq<u64>,
    points: Seq<Vec<i64>>,
) -> bool {
    &&& stats.size == population.len()
    &&& is_best_score(scores, stats.max_fitness)
    &&& stats.total_fitness == total_score(scores)
    &&& stats.duplicates == twin_count(population, population.len() as int)
    &&& is_squared_diameter(views(points), stats.diversity_squared as int)
}

/// `scores` holds, for each member in order, a score that the objective
/// gives to it.
pub open spec fn are_scores<F: Fitness>(
    fitness_fn: &F,
    population: Seq<Vec<bool>>,
    num_dims: usize,
    scores: Seq<u64>,
) -> bool {
    &&& scores.len() == population.len()
    &&& forall|i: int|
        0 <= i < population.len() ==> fitness_fn.may_score(
            (#[trigger] population[i])@,
            num_dims,
            Ok(scores[i]),
        )
}

/// `points` holds, for each member in order, genes that the objective
/// decodes it to.
pub open spec fn are_points<F: Fitness>(
    fitness_fn: &F,
    population: Seq<Vec<bool>>,
    num_dims: usize,
    points: Seq<Vec<i64>>,
) -> bool {
    &&& points.len() == population.len()
    &&& forall|i: int|
        0 <= i < population.len() ==> fitness_fn.may_decode(
            (#[trigger] population[i])@,
            num_dims,
            Ok(points[i]@),
        )
}

/// The objective fails on some member with the error `e` when it scores it.
pub open spec fn fails_to_score<F: Fitness>(
    fitness_fn: &F,
    population: Seq<Vec<bool>>,
    num_dims: usize,
    e: ConfigError,
) -> bool {
    exists|i: int|
        0 <= i < population.len() && fitness_fn.may_score(
            (#[trigger] population[i])@,
            num_dims,
            Err(e),
        )
}

/// The objective fails on some member with the error `e` when it decodes it.
pub open spec fn fails_to_decode<F: Fitness>(
    fitness_fn: &F,
    population: Seq<Vec<bool>>,
    num_dims: usize,
    e: ConfigError,
) -> bool {
    exists|i: int|
        0 <= i < population.len() && fitness_fn.may_decode(
            (#[trigger] population[i])@,
            num_dims,
            Err(e),
        )
}

/// `stats` measures the population under the objective: for scores that the
/// objective gives to its members and genes that it decodes them to.
pub open spec fn measures<F: Fitness>(
    stats: PopulationStats,
    population: Seq<Vec<bool>>,
    fitness_fn: &F,
    num_dims: usize,
) -> bool {
    exists|scores: Seq<u64>, points: Seq<Vec<i64>>|
        are_scores(fitness_fn, population, num_dims, scores) && are_points(
            fitness_fn,
            population,
            num_dims,
            points,
        ) && #[trigger] describes(stats, population, scores, points)
}

/// `stats` measures some population of the configured shape under the
/// objective.
pub open spec fn is_measured<F: Fitness>(
    stats: PopulationStats,
    params: GAParameters,
    fitness_fn: &F,
    num_dims: usize,
) -> bool {
    exists|population: Seq<Vec<bool>>|
        is_population(population, params.pop_size as int, params.mem_size as int)
            && #[trigger] measures(stats, population, fitness_fn, num_dims)
}

/// The convergence test: the population has members, and its mean fitness or
/// its duplicate fraction has reached the threshold.
pub open spec fn has_converged(stats: PopulationStats, threshold: u64) -> bool {
    ||| mean_at_least(stats.total_fitness, stats.size, threshold)
    ||| (stats.size > 0 && stats.duplicates * ONE >= threshold * stats.size)
}

/// The fitness that the objective gives to each member, in order, or the
/// first error with which it fails on one.
pub fn evaluate<F: Fitness>(population: &Vec<Vec<bool>>, fitness_fn: &F, num_dims: usize) -> (scores:
    Result<Vec<u64>, ConfigError>)
    ensures
        scores matches Ok(s) ==> are_scores(fitness_fn, population@, num_dims, s@),
        scores matches Err(e) ==> fails_to_score(fitness_fn, population@, num_dims, e),
        population@.len() == 0 ==> scores is Ok,
{
    let mut scores: Vec<u64> = Vec::new();
    let mut i: usize = 0;
    while i < population.len()
        invariant
            i <= population.len(),
            scores@.len() == i,
            forall|k: int|
                0 <= k < i ==> fitness_fn.may_score(
                    (#[trigger] population@[k])@,
                    num_dims,
                    Ok(scores@[k]),
                ),
        decreases population.len() - i,
    {
        match fitness_fn.fitness_bitstring(&population[i], num_dims) {
            Ok(score) => {
                scores.push(score);
            },
            Err(e) => {
                return Err(e);
            },
        }
        i += 1;
    }
    Ok(scores)
}

/// The genes that the objective decodes each member to, in order, or the
/// first error with which it fails on one.
pub fn decode_all<F: Fitness>(population: &Vec<Vec<bool>>, fitness_fn: &F, num_dims: usize) -> (points:
    Result<Vec<Vec<i64>>, ConfigError>)
    ensures
        points matches Ok(p) ==> are_points(fitness_fn, population@, num_dims, p@),
        points matches Err(e) ==> fails_to_decode(fitness_fn, population@, num_dims, e),
        population@.len() == 0 ==> points is Ok,
{
    let mut points: Vec<Vec<i64>> = Vec::new();
    let mut i: usize = 0;
    while i < population.len()
        invariant
            i <= population.len(),
            points@.len() == i,
            forall|k: int|
                0 <= k < i ==> fitness_fn.may_decode(
                    (#[trigger] population@[k])@,
                    num_dims,
                    Ok(points@[k]@),
                ),
        decreases population.len() - i,
    {
        match fitness_fn.decode_bitstring(&population[i], num_dims) {
            Ok(point) => {
                points.push(point);
            },
            Err(e) => {
                return Err(e);
            },
        }
        i += 1;
    }
    Ok(points)
}

/// The number of members that equal some other member bit for bit.
pub fn duplicate_count(population: &Vec<Vec<bool>>) -> (duplicates: usize)
    ensures
        duplicates == twin_count(population@, population@.len() as int),
        duplicates <= population@.len(),
{
    let mut duplicates: usize = 0;
    let mut i: usize = 0;
    while i < population.len()
        invariant
            i <= population.len(),
            duplicates == twin_count(population@, i as int),
            duplicates <= i,
        decreases population.len() - i,
    {
        let mut twin: bool = false;
        let mut j: usize = 0;
        while j < population.len() && !twin
            invariant
                i < population.len(),
                j <= population.len(),
                !twin ==> forall|k: int| 0 <= k < j && k != i ==> (#[trigger] population@[k])@ != population@[i as int]@,
                twin ==> has_twin(population@, i as int),
            decreases population.len() - j, if twin { 0int } else { 1int },
        {
            if j != i && same_bits(&population[j], &population[i]) {
                twin = true;
            } else {
                j += 1;
            }
        }
        if twin {
            duplicates += 1;
        }
        i += 1;
    }
    duplicates
}

/// The statistics of a generation, from its members, their fitness and
/// their decoded genes.
pub fn summarize(population: &Vec<Vec<bool>>, scores: &Vec<u64>, points: &Vec<Vec<i64>>) -> (stats:
    PopulationStats)
    ensures
        describes(stats, population@, scores@, points@),
{
    PopulationStats {
        max_fitness: best_score(scores),
        total_fitness: sum_scores(scores),
        size: population.len(),
        duplicates: duplicate_count(population),
        diversity_squared: squared_diameter(points),
    }
}

/// The statistics of a generation under the given objective.
pub fn calculate_stats<F: Fitness>(
    population: &Vec<Vec<bool>>,
    fitness_fn: &F,
    num_dims: usize,
) -> (stats: Result<PopulationStats, ConfigError>)
    ensures
        stats matches Ok(s) ==> measures(s, population@, fitness_fn, num_dims),
        stats matches Err(e) ==> fails_on(fitness_fn, population@, num_dims, e),
        population@.len() == 0 ==> stats is Ok,
{
    let scores: Vec<u64> = match evaluate(population, fitness_fn, num_dims) {
        Ok(scores) => scores,
        Err(e) => {
            return Err(e);
        },
    };
    let points: Vec<Vec<i64>> = match decode_all(population, fitness_fn, num_dims) {
        Ok(points) => points,
        Err(e) => {
            return Err(e);
        },
    };
    let summary: PopulationStats = summarize(population, &scores, &points);
    assert(are_scores(fitness_fn, population@, num_dims, scores@) && are_points(
        fitness_fn,
        population@,
        num_dims,
        points@,
    ) && describes(summary, population@, scores@, points@));
    Ok(summary)
}

/// Whether a generation has converged: its mean fitness, or the fraction of
/// its members that have a twin, is at least the threshold.
pub fn check_convergence(stats: &PopulationStats, threshold: u64) -> (converged: bool)
    ensures
        converged == has_converged(*stats, threshold),
{
    if check_mean_at_least(stats.total_fitness, stats.size, threshold) {
        return true;
    }
    if stats.size == 0 {
        return false;
    }
    assert(threshold * stats.size <= 0xffff_ffff_ffff_ffff * 0xffff_ffff_ffff_ffff)
        by (nonlinear_arith)
        requires
            0 <= threshold <= 0xffff_ffff_ffff_ffff,
            0 <= stats.size <= 0xffff_ffff_ffff_ffff,
    ;
    assert(stats.duplicates * ONE <= 0xffff_ffff_ffff_ffff * 1_000_000_000) by (nonlinear_arith)
        requires
            0 <= stats.duplicates <= 0xffff_ffff_ffff_ffff,
            ONE == 1_000_000_000,
    ;
    stats.duplicates as u128 * ONE as u128 >= threshold as u128 * stats.size as u128
}

/// The mean fitness, rounded down, or zero for an empty population.
pub fn mean_fitness(stats: &PopulationStats) -> (mean: u128)
    ensures
        mean == if stats.size == 0 { 0 } else { stats.total_fitness as int / stats.size as int },
{
    if stats.size == 0 {
        0
    } else {
        stats.total_fitness / stats.size as u128
    }
}

/// The fraction of members that have a twin, as a fixed-point value rounded
/// down, or zero for an empty population.
pub fn duplicate_fraction(stats: &PopulationStats) -> (fraction: u128)
    ensures
        fraction == if stats.size == 0 { 0 } else { stats.duplicates * ONE / stats.size as int },
{
    if stats.size == 0 {
        0
    } else {
        stats.duplicates as u128 * ONE as u128 / stats.size as u128
    }
}

/// What a run of the genetic algorithm leaves behind.
pub struct GaRun {
    /// The last population.
    pub population: Vec<Vec<bool>>,
    /// The statistics of each generation that was measured, oldest first.
    pub history: Vec<PopulationStats>,
    /// The number of times the population was replaced.
    pub generations: usize,
    /// Whether the run stopped because the last measured generation had
    /// converged.
    pub converged: bool,
}

/// `child1` and `child2` were bred from the population: two parents were
/// selected, crossed, and each of the two results mutated.
pub open spec fn is_bred_pair(
    child1: Seq<bool>,
    child2: Seq<bool>,
    population: Seq<Vec<bool>>,
    scores: Seq<u64>,
    params: GAParameters,
    selection: Selection,
) -> bool {
    exists|a: int, b: int, x: Seq<bool>, y: Seq<bool>|
        0 <= a < population.len() && 0 <= b < population.len() && is_selection_outcome(
            scores,
            selection,
            a,
        ) && is_selection_outcome(scores, selection, b) && #[trigger] is_crossover_of(
            (x, y),
            population[a]@,
            population[b]@,
            params.crossover_rate,
        ) && is_mutation_of(child1, x, params.mutation_rate) && is_mutation_of(
            child2,
            y,
            params.mutation_rate,
        )
}

/// `next` is a generation bred from the population: its members stand in
/// bred pairs, and where their number is odd the last is the first child of a
/// pair whose second child was dropped.
pub open spec fn is_next_generation(
    next: Seq<Vec<bool>>,
    population: Seq<Vec<bool>>,
    scores: Seq<u64>,
    params: GAParameters,
    selection: Selection,
) -> bool {
    &&& next.len() == params.pop_size
    &&& forall|i: int|
        0 <= i && i % 2 == 0 && i + 1 < next.len() ==> is_bred_pair(
            (#[trigger] next[i])@,
            next[i + 1]@,
            population,
            scores,
            params,
            selection,
        )
    &&& next.len() % 2 == 1 ==> exists|dropped: Seq<bool>| #[trigger]
        is_bred_pair(next[next.len() - 1]@, dropped, population, scores, params, selection)
}

/// Crossover may fail with the error `e` on two members of the population:
/// on members of different length, or, where parents may cross, on members
/// too short to have a crossover point.
pub open spec fn may_fail_to_cross(
    e: ConfigError,
    population: Seq<Vec<bool>>,
    params: GAParameters,
) -> bool {
    let uniform = is_population(population, population.len() as int, params.mem_size as int);
    ||| e == ConfigError::LengthMismatch && !uniform
    ||| e == ConfigError::NoCrossoverPoint && params.crossover_rate > 0 && (params.mem_size < 2
        || !uniform)
}

/// The next generation: pairs of offspring, each from two selected parents
/// by crossover and mutation, until there are exactly `pop_size` of them. Of
/// the last pair the second child is dropped where `pop_size` is odd.
pub fn create_next_generation(
    population: &Vec<Vec<bool>>,
    scores: &Vec<u64>,
    params: &GAParameters,
    selection: Selection,
    rng: &mut ChaCha8Rng,
) -> (next: Result<Vec<Vec<bool>>, ConfigError>)
    ensures
        next matches Ok(members) ==> is_next_generation(
            members@,
            population@,
            scores@,
            *params,
            selection,
        ),
        next matches Ok(members) ==> (is_population(
            population@,
            population@.len() as int,
            params.mem_size as int,
        ) ==> is_population(members@, params.pop_size as int, params.mem_size as int)),
        params.pop_size == 0 ==> next is Ok,
        params.pop_size > 0 && scores@.len() != population@.len() ==> next == Err::<
            Vec<Vec<bool>>,
            ConfigError,
        >(ConfigError::LengthMismatch),
        params.pop_size > 0 && scores@.len() == population@.len() ==> (match selection_error(
            scores@,
            selection,
        ) {
            Some(e) => next == Err::<Vec<Vec<bool>>, ConfigError>(e),
            None => is_population(population@, population@.len() as int, params.mem_size as int)
                && (params.mem_size >= 2 || params.crossover_rate == 0) ==> next is Ok,
        }),
        next matches Err(e) ==> params.pop_size > 0 && (selection_error(scores@, selection)
            == Some(e) || (e == ConfigError::LengthMismatch && scores@.len() != population@.len())
            || may_fail_to_cross(e, population@, *params)),
{
    let mut next: Vec<Vec<bool>> = Vec::new();
    if params.pop_size > 0 && scores.len() != population.len() {
        return Err(ConfigError::LengthMismatch);
    }
    while next.len() < params.pop_size
        invariant
            next@.len() <= params.pop_size,
            params.pop_size > 0 ==> scores@.len() == population@.len(),
            selection_error(scores@, selection) is Some ==> next@.len() == 0,
            is_population(population@, population@.len() as int, params.mem_size as int)
                ==> is_population(next@, next@.len() as int, params.mem_size as int),
            next@.len() % 2 == 0 || next@.len() == params.pop_size,
            forall|i: int|
                0 <= i && i % 2 == 0 && i + 1 < next@.len() ==> is_bred_pair(
                    (#[trigger] next@[i])@,
                    next@[i + 1]@,
                    population@,
                    scores@,
                    *params,
                    selection,
                ),
            next@.len() % 2 == 1 ==> exists|dropped: Seq<bool>| #[trigger]
                is_bred_pair(
                    next@[next@.len() - 1]@,
                    dropped,
                    population@,
                    scores@,
                    *params,
                    selection,
                ),
        decreases params.pop_size - next@.len(),
    {
        let (first, second) = match parent_selection(scores, selection, rng) {
            Ok(pair) => pair,
            Err(e) => {
                return Err(e);
            },
        };
        let (child1, child2) = match crossover(
            &population[first],
            &population[second],
            params.crossover_rate,
            rng,
        ) {
            Ok(children) => children,
            Err(e) => {
                return Err(e);
            },
        };
        let child1: Vec<bool> = mutate(&child1, params.mutation_rate, rng);
        let child2: Vec<bool> = mutate(&child2, params.mutation_rate, rng);
        let ghost second_child = child2@;
        next.push(child1);
        if next.len() < params.pop_size {
            next.push(child2);
        } else {
            proof {
                assert(is_bred_pair(
                    next@[next@.len() - 1]@,
                    second_child,
                    population@,
                    scores@,
                    *params,
                    selection,
                ));
            }
        }
    }
    Ok(next)
}

/// `members` replaced an earlier population: they are a generation bred from
/// it under the scores that the objective gives to its members.
pub open spec fn has_predecessor<F: Fitness>(
    members: Seq<Vec<bool>>,
    params: GAParameters,
    selection: Selection,
    fitness_fn: &F,
    num_dims: usize,
) -> bool {
    exists|earlier: Seq<Vec<bool>>, scores: Seq<u64>|
        are_scores(fitness_fn, earlier, num_dims, scores) && is_population(
            earlier,
            params.pop_size as int,
            params.mem_size as int,
        ) && #[trigger] is_next_generation(members, earlier, scores, params, selection)
}

/// What holds of a finished run under `params` with the given selection
/// policy and objective.
pub open spec fn is_ga_run<F: Fitness>(
    run: GaRun,
    params: GAParameters,
    selection: Selection,
    fitness_fn: &F,
    num_dims: usize,
) -> bool {
    &&& is_population(run.population@, params.pop_size as int, params.mem_size as int)
    &&& run.generations > 0 ==> has_predecessor(
        run.population@,
        params,
        selection,
        fitness_fn,
        num_dims,
    )
    &&& forall|g: int|
        0 <= g < run.history@.len() ==> is_measured(
            #[trigger] run.history@[g],
            params,
            fitness_fn,
            num_dims,
        )
    &&& run.generations <= params.max_iters
    &&& run.history@.len() == run.generations + if run.converged { 1int } else { 0int }
    &&& forall|g: int|
        0 <= g < run.history@.len() ==> (#[trigger] run.history@[g]).size == params.pop_size
    &&& forall|g: int|
        0 <= g < run.generations ==> !has_converged(
            #[trigger] run.history@[g],
            params.convergence_threshold,
        )
    &&& if run.converged {
        &&& has_converged(run.history@[run.generations as int], params.convergence_threshold)
        &&& measures(
            run.history@[run.generations as int],
            run.population@,
            fitness_fn,
            num_dims,
        )
    } else {
        run.generations == params.max_iters
    }
}

/// The objective never fails: it gives no error when it scores a bitstring
/// and none when it decodes one.
pub open spec fn never_fails<F: Fitness>(fitness_fn: &F, num_dims: usize) -> bool {
    &&& forall|bits: Seq<bool>, e: ConfigError|
        !#[trigger] fitness_fn.may_score(bits, num_dims, Err(e))
    &&& forall|bits: Seq<bool>, e: ConfigError|
        !#[trigger] fitness_fn.may_decode(bits, num_dims, Err(e))
}

/// The objective fails on some member with the error `e`, when it scores or
/// decodes it.
pub open spec fn fails_on<F: Fitness>(
    fitness_fn: &F,
    population: Seq<Vec<bool>>,
    num_dims: usize,
    e: ConfigError,
) -> bool {
    fails_to_score(fitness_fn, population, num_dims, e) || fails_to_decode(
        fitness_fn,
        population,
        num_dims,
        e,
    )
}

/// The objective fails with the error `e` on some population of the
/// configured shape.
pub open spec fn objective_fails<F: Fitness>(
    fitness_fn: &F,
    params: GAParameters,
    num_dims: usize,
    e: ConfigError,
) -> bool {
    exists|population: Seq<Vec<bool>>|
        is_population(population, params.pop_size as int, params.mem_size as int)
            && #[trigger] fails_on(fitness_fn, population, num_dims, e)
}

/// The objective gives every bitstring a score above zero, wherever it
/// scores one.
pub open spec fn always_positive<F: Fitness>(fitness_fn: &F, num_dims: usize) -> bool {
    forall|bits: Seq<bool>, score: u64|
        #[trigger] fitness_fn.may_score(bits, num_dims, Ok(score)) ==> score > 0
}

/// The breeding of a generation cannot fail: parents are chosen by a
/// tournament with contestants or on a wheel that no score leaves empty, and
/// members are long enough to cross wherever they may cross.
pub open spec fn breeding_succeeds<F: Fitness>(
    params: GAParameters,
    selection: Selection,
    fitness_fn: &F,
    num_dims: usize,
) -> bool {
    &&& match selection {
        Selection::Tournament(size) => size > 0,
        Selection::Roulette => always_positive(fitness_fn, num_dims),
    }
    &&& params.mem_size >= 2 || params.crossover_rate == 0
}

/// Scores that are all above zero have a total above zero.
pub proof fn lemma_positive_total(scores: Seq<u64>)
    requires
        scores.len() > 0,
        forall|i: int| 0 <= i < scores.len() ==> scores[i] > 0,
    ensures
        total_score(scores) > 0,
{
    lemma_prefix_total_monotone(scores, 1, scores.len() as int);
    assert(prefix_total(scores, 1) == prefix_total(scores, 0) + scores[0]);
}

/// `e` is an error with which the breeding of a generation of the
/// configured shape may end: a tournament without contestants, a wheel whose
/// scores sum to zero, or members too short to cross where they may cross.
pub open spec fn is_breeding_error(
    e: ConfigError,
    params: GAParameters,
    selection: Selection,
) -> bool {
    &&& params.pop_size > 0
    &&& {
        ||| e == ConfigError::EmptyTournament && selection == Selection::Tournament(0)
        ||| e == ConfigError::ZeroTotalFitness && selection == Selection::Roulette
        ||| e == ConfigError::NoCrossoverPoint && params.crossover_rate > 0 && params.mem_size
            < 2
    }
}

/// The genetic algorithm. A random population is measured and, unless it has
/// converged, replaced by its offspring, until a generation converges or
/// `max_iters` generations have been replaced. Members decode to `num_dims`
/// genes each. The run succeeds wherever it measures nothing or has no
/// members, and wherever neither the objective nor the breeding can fail; it
/// ends on the first error of either.
pub fn sga<F: Fitness>(
    fitness_fn: &F,
    params: &GAParameters,
    num_dims: usize,
    selection: Selection,
    rng: &mut ChaCha8Rng,
) -> (run: Result<GaRun, ConfigError>)
    ensures
        run matches Ok(r) ==> is_ga_run(r, *params, selection, fitness_fn, num_dims),
        params.max_iters == 0 || params.pop_size == 0 ==> run is Ok,
        never_fails(fitness_fn, num_dims) && breeding_succeeds(
            *params,
            selection,
            fitness_fn,
            num_dims,
        ) ==> run is Ok,
        run matches Err(e) ==> is_breeding_error(e, *params, selection) || objective_fails(
            fitness_fn,
            *params,
            num_dims,
            e,
        ),
{
    let mut population: Vec<Vec<bool>> = init_population(params, rng);
    let mut history: Vec<PopulationStats> = Vec::new();
    let mut generations: usize = 0;
    while generations < params.max_iters
        invariant
            generations <= params.max_iters,
            is_population(population@, params.pop_size as int, params.mem_size as int),
            generations > 0 ==> has_predecessor(
                population@,
                *params,
                selection,
                fitness_fn,
                num_dims,
            ),
            forall|g: int|
                0 <= g < history@.len() ==> is_measured(
                    #[trigger] history@[g],
                    *params,
                    fitness_fn,
                    num_dims,
                ),
            history@.len() == generations,
            forall|g: int|
                0 <= g < history@.len() ==> (#[trigger] history@[g]).size == params.pop_size,
            forall|g: int|
                0 <= g < generations ==> !has_converged(
                    #[trigger] history@[g],
                    params.convergence_threshold,
                ),
        decreases params.max_iters - generations,
    {
        let scores: Vec<u64> = match evaluate(&population, fitness_fn, num_dims) {
            Ok(scores) => scores,
            Err(e) => {
                assert(fails_on(fitness_fn, population@, num_dims, e));
                return Err(e);
            },
        };
        let points: Vec<Vec<i64>> = match decode_all(&population, fitness_fn, num_dims) {
            Ok(points) => points,
            Err(e) => {
                assert(fails_on(fitness_fn, population@, num_dims, e));
                return Err(e);
            },
        };
        let stats: PopulationStats = summarize(&population, &scores, &points);
        history.push(stats);
        assert(measures(stats, population@, fitness_fn, num_dims)) by {
            assert(are_scores(fitness_fn, population@, num_dims, scores@) && are_points(
                fitness_fn,
                population@,
                num_dims,
                points@,
            ) && describes(stats, population@, scores@, points@));
        }
        assert(is_measured(stats, *params, fitness_fn, num_dims));
        if check_convergence(&stats, params.convergence_threshold) {
            return Ok(GaRun { population, history, generations, converged: true });
        }
        proof {
            if params.pop_size > 0 && always_positive(fitness_fn, num_dims) {
                assert forall|i: int| 0 <= i < scores@.len() implies scores@[i] > 0 by {
                    assert(fitness_fn.may_score(population@[i]@, num_dims, Ok(scores@[i])));
                }
                lemma_positive_total(scores@);
            }
        }
        let next: Vec<Vec<bool>> = match create_next_generation(
            &population,
            &scores,
            params,
            selection,
            rng,
        ) {
            Ok(next) => next,
            Err(e) => {
                return Err(e);
            },
        };
        assert(has_predecessor(next@, *params, selection, fitness_fn, num_dims)) by {
            assert(are_scores(fitness_fn, population@, num_dims, scores@) && is_next_generation(
                next@,
                population@,
                scores@,
                *params,
                selection,
            ));
        }
        population = next;
        generations += 1;
    }
    Ok(GaRun { population, history, generations, converged: false })
}

} // verus!
