use vstd::prelude::*;
use crate::bitstring::GAParameters;
use crate::evol_strat::ESParameters;

verus! {

/// The algorithm that a run belongs to.
#[derive(Clone, Copy, Debug, PartialEq, Eq, Structural)]
pub enum Algorithm {
    /// The genetic algorithm.
    Sga,
    /// The evolution strategy.
    Es,
}

impl Algorithm {
    /// The name under which the algorithm is reported.
    pub open spec fn label(self) -> Seq<char> {
        match self {
            Algorithm::Sga => "SGA"@,
            Algorithm::Es => "ES"@,
        }
    }

    /// The name under which the algorithm is reported.
    pub fn name(&self) -> (name: &'static str)
        ensures
            name@ == self.label(),
    {
        match self {
            Algorithm::Sga => "SGA",
            Algorithm::Es => "ES",
        }
    }
}

/// The name of a hyperparameter. The variants stand in the alphabetical
/// order of the names they are reported under.
#[derive(Clone, Copy, Debug, PartialEq, Eq, Structural)]
pub enum ParamKey {
    ConvergenceThreshold,
    CrossoverRate,
    Lambda,
    MaxGens,
    MaxIters,
    MemRangeMax,
    MemRangeMin,
    MemSize,
    Mu,
    MutationRate,
    PopSize,
    Sigma,
    Tau,
}

/// The number of hyperparameter names.
pub const PARAM_KEYS: usize = 13;

impl ParamKey {
    /// The position of the name in alphabetical order.
    pub open spec fn rank(self) -> int {
        match self {
            ParamKey::ConvergenceThreshold => 0,
            ParamKey::CrossoverRate => 1,
            ParamKey::Lambda => 2,
            ParamKey::MaxGens => 3,
            ParamKey::MaxIters => 4,
            ParamKey::MemRangeMax => 5,
            ParamKey::MemRangeMin => 6,
            ParamKey::MemSize => 7,
            ParamKey::Mu => 8,
            ParamKey::MutationRate => 9,
            ParamKey::PopSize => 10,
            ParamKey::Sigma => 11,
            ParamKey::Tau => 12,
        }
    }

    /// The position of the name in alphabetical order.
    pub fn index(&self) -> (i: usize)
        ensures
            i == self.rank(),
            i < PARAM_KEYS,
    {
        match self {
            ParamKey::ConvergenceThreshold => 0,
            ParamKey::CrossoverRate => 1,
            ParamKey::Lambda => 2,
            ParamKey::MaxGens => 3,
            ParamKey::MaxIters => 4,
            ParamKey::MemRangeMax => 5,
            ParamKey::MemRangeMin => 6,
            ParamKey::MemSize => 7,
            ParamKey::Mu => 8,
            ParamKey::MutationRate => 9,
            ParamKey::PopSize => 10,
            ParamKey::Sigma => 11,
            ParamKey::Tau => 12,
        }
    }

    /// The name at a position in alphabetical order, if there is one.
    pub fn from_index(i: usize) -> (key: Option<ParamKey>)
        ensures
            i < PARAM_KEYS <==> key is Some,
            key matches Some(k) ==> k.rank() == i,
    {
        match i {
            0 => Some(ParamKey::ConvergenceThreshold),
            1 => Some(ParamKey::CrossoverRate),
            2 => Some(ParamKey::Lambda),
            3 => Some(ParamKey::MaxGens),
            4 => Some(ParamKey::MaxIters),
            5 => Some(ParamKey::MemRangeMax),
            6 => Some(ParamKey::MemRangeMin),
            7 => Some(ParamKey::MemSize),
            8 => Some(ParamKey::Mu),
            9 => Some(ParamKey::MutationRate),
            10 => Some(ParamKey::PopSize),
            11 => Some(ParamKey::Sigma),
            12 => Some(ParamKey::Tau),
            _ => None,
        }
    }

    /// Whether the value under the name is a count, rather than a
    /// fixed-point value.
    pub open spec fn counts(self) -> bool {
        match self {
            ParamKey::Lambda | ParamKey::MaxGens | ParamKey::MaxIters | ParamKey::MemSize | ParamKey::Mu | ParamKey::PopSize => true,
            _ => false,
        }
    }

    /// Whether the value under the name is a count, rather than a
    /// fixed-point value.
    pub fn is_count(&self) -> (count: bool)
        ensures
            count == self.counts(),
    {
        match self {
            ParamKey::Lambda => true,
            ParamKey::MaxGens => true,
            ParamKey::MaxIters => true,
            ParamKey::MemSize => true,
            ParamKey::Mu => true,
            ParamKey::PopSize => true,
            _ => false,
        }
    }

    /// The name as it is reported.
    pub open spec fn label(self) -> Seq<char> {
        match self {
            ParamKey::ConvergenceThreshold => "convergence_threshold"@,
            ParamKey::CrossoverRate => "crossover_rate"@,
            ParamKey::Lambda => "lambda"@,
            ParamKey::MaxGens => "max_gens"@,
            ParamKey::MaxIters => "max_iters"@,
            ParamKey::MemRangeMax => "mem_range_max"@,
            ParamKey::MemRangeMin => "mem_range_min"@,
            ParamKey::MemSize => "mem_size"@,
            ParamKey::Mu => "mu"@,
            ParamKey::MutationRate => "mutation_rate"@,
            ParamKey::PopSize => "pop_size"@,
            ParamKey::Sigma => "sigma"@,
            ParamKey::Tau => "tau"@,
        }
    }

    /// The name as it is reported.
    pub fn name(&self) -> (name: &'static str)
        ensures
            name@ == self.label(),
    {
        match self {
            ParamKey::ConvergenceThreshold => "convergence_threshold",
            ParamKey::CrossoverRate => "crossover_rate",
            ParamKey::Lambda => "lambda",
            ParamKey::MaxGens => "max_gens",
            ParamKey::MaxIters => "max_iters",
            ParamKey::MemRangeMax => "mem_range_max",
            ParamKey::MemRangeMin => "mem_range_min",
            ParamKey::MemSize => "mem_size",
            ParamKey::Mu => "mu",
            ParamKey::MutationRate => "mutation_rate",
            ParamKey::PopSize => "pop_size",
            ParamKey::Sigma => "sigma",
            ParamKey::Tau => "tau",
        }
    }
}

/// The configuration of a run as a mapping from hyperparameter names to
/// values. Counts are held as they are, fixed-point values as their count of
/// billionths.
#[derive(Clone, Copy, Debug, PartialEq, Eq)]
pub struct ParamMap {
    pub convergence_threshold: Option<i128>,
    pub crossover_rate: Option<i128>,
    pub lambda: Option<i128>,
    pub max_gens: Option<i128>,
    pub max_iters: Option<i128>,
    pub mem_range_max: Option<i128>,
    pub mem_range_min: Option<i128>,
    pub mem_size: Option<i128>,
    pub mu: Option<i128>,
    pub mutation_rate: Option<i128>,
    pub pop_size: Option<i128>,
    pub sigma: Option<i128>,
    pub tau: Option<i128>,
}

impl View for ParamMap {
    type V = Map<ParamKey, i128>;

    open spec fn view(&self) -> Map<ParamKey, i128> {
        Map::new(|key: ParamKey| self.value(key) is Some, |key: ParamKey| self.value(key)->Some_0)
    }
}

impl ParamMap {
    /// The value under a name, if there is one.
    pub open spec fn value(self, key: ParamKey) -> Option<i128> {
        match key {
            ParamKey::ConvergenceThreshold => self.convergence_threshold,
            ParamKey::CrossoverRate => self.crossover_rate,
            ParamKey::Lambda => self.lambda,
            ParamKey::MaxGens => self.max_gens,
            ParamKey::MaxIters => self.max_iters,
            ParamKey::MemRangeMax => self.mem_range_max,
            ParamKey::MemRangeMin => self.mem_range_min,
            ParamKey::MemSize => self.mem_size,
            ParamKey::Mu => self.mu,
            ParamKey::MutationRate => self.mutation_rate,
            ParamKey::PopSize => self.pop_size,
            ParamKey::Sigma => self.sigma,
            ParamKey::Tau => self.tau,
        }
    }

    /// The mapping without entries.
    pub fn new() -> (map: ParamMap)
        ensures
            forall|key: ParamKey| map.value(key) is None,
            map@ == Map::<ParamKey, i128>::empty(),
    {
        let map = ParamMap {
            convergence_threshold: None,
            crossover_rate: None,
            lambda: None,
            max_gens: None,
            max_iters: None,
            mem_range_max: None,
            mem_range_min: None,
            mem_size: None,
            mu: None,
            mutation_rate: None,
            pop_size: None,
            sigma: None,
            tau: None,
        };
        map
    }

    /// The value under a name, if there is one.
    pub fn get(&self, key: ParamKey) -> (value: Option<i128>)
        ensures
            value == self.value(key),
            value is Some <==> self@.dom().contains(key),
            value matches Some(v) ==> self@[key] == v,
    {
        match key {
            ParamKey::ConvergenceThreshold => self.convergence_threshold,
            ParamKey::CrossoverRate => self.crossover_rate,
            ParamKey::Lambda => self.lambda,
            ParamKey::MaxGens => self.max_gens,
            ParamKey::MaxIters => self.max_iters,
            ParamKey::MemRangeMax => self.mem_range_max,
            ParamKey::MemRangeMin => self.mem_range_min,
            ParamKey::MemSize => self.mem_size,
            ParamKey::Mu => self.mu,
            ParamKey::MutationRate => self.mutation_rate,
            ParamKey::PopSize => self.pop_size,
            ParamKey::Sigma => self.sigma,
            ParamKey::Tau => self.tau,
        }
    }

    /// Sets the value under a name; a value that was there is replaced.
    pub fn insert(&mut self, key: ParamKey, value: i128)
        ensures
            final(self).value(key) == Some(value),
            forall|other: ParamKey| other != key ==> final(self).value(other) == old(self).value(other),
            final(self)@ == old(self)@.insert(key, value),
    {
        match key {
            ParamKey::ConvergenceThreshold => {
                self.convergence_threshold = Some(value);
            },
            ParamKey::CrossoverRate => {
                self.crossover_rate = Some(value);
            },
            ParamKey::Lambda => {
                self.lambda = Some(value);
            },
            ParamKey::MaxGens => {
                self.max_gens = Some(value);
            },
            ParamKey::MaxIters => {
                self.max_iters = Some(value);
            },
            ParamKey::MemRangeMax => {
                self.mem_range_max = Some(value);
            },
            ParamKey::MemRangeMin => {
                self.mem_range_min = Some(value);
            },
            ParamKey::MemSize => {
                self.mem_size = Some(value);
            },
            ParamKey::Mu => {
                self.mu = Some(value);
            },
            ParamKey::MutationRate => {
                self.mutation_rate = Some(value);
            },
            ParamKey::PopSize => {
                self.pop_size = Some(value);
            },
            ParamKey::Sigma => {
                self.sigma = Some(value);
            },
            ParamKey::Tau => {
                self.tau = Some(value);
            },
        }
    }

    /// The names that have a value, in alphabetical order.
    pub fn keys(&self) -> (names: Vec<ParamKey>)
        ensures
            forall|key: ParamKey| names@.contains(key) <==> self.value(key) is Some,
            forall|i: int, j: int|
                0 <= i < j < names@.len() ==> (#[trigger] names@[i]).rank() < (
                #[trigger] names@[j]).rank(),
    {
        let mut names: Vec<ParamKey> = Vec::new();
        let mut i: usize = 0;
        while i < PARAM_KEYS
            invariant
                i <= PARAM_KEYS,
                forall|key: ParamKey|
                    names@.contains(key) <==> (self.value(key) is Some && key.rank() < i),
                forall|a: int, b: int|
                    0 <= a < b < names@.len() ==> (#[trigger] names@[a]).rank() < (
                    #[trigger] names@[b]).rank(),
                forall|a: int| 0 <= a < names@.len() ==> (#[trigger] names@[a]).rank() < i,
            decreases PARAM_KEYS - i,
        {
            match ParamKey::from_index(i) {
                Some(key) => {
                    let ghost before = names@;
                    if self.get(key).is_some() {
                        names.push(key);
                        proof {
                            assert(names@[before.len() as int] == key);
                            assert forall|other: ParamKey|
                                names@.contains(other) <==> (self.value(other) is Some
                                    && other.rank() < i + 1) by {
                                if names@.contains(other) {
                                    let a = choose|a: int|
                                        0 <= a < names@.len() && names@[a] == other;
                                    if a < before.len() {
                                        assert(before.contains(other));
                                    }
                                }
                                if self.value(other) is Some && other.rank() < i + 1 {
                                    if other.rank() != i {
                                        assert(before.contains(other));
                                        let a = choose|a: int|
                                            0 <= a < before.len() && before[a] == other;
                                        assert(names@[a] == other);
                                    }
                                }
                            }
                        }
                    }
                },
                None => {},
            }
            i += 1;
        }
        names
    }
}

/// The outcome of one run.
#[derive(Clone, Copy, Debug, PartialEq, Eq)]
pub struct TuningResult {
    /// The algorithm that ran.
    pub algorithm: Algorithm,
    /// The configuration it ran under.
    pub parameters: ParamMap,
    /// The number of the run among the repetitions of its configuration.
    pub run_id: usize,
    /// The best fitness seen in the last generation that was measured.
    pub max_fitness: u64,
    /// The time the run took, in nanoseconds.
    pub execution_time: u64,
    /// The fitness reached per second of execution.
    pub score: u64,
    /// Whether the run converged.
    pub converged: bool,
    /// The number of generations that were replaced.
    pub generations: usize,
    /// Whether the time budget was used up.
    pub timeout_reached: bool,
}

/// How a sweep repeats and bounds its runs.
#[derive(Clone, Copy, Debug, PartialEq, Eq, Structural)]
pub struct TuningConfig {
    /// The number of runs of each configuration.
    pub num_runs: usize,
    /// The time budget of one run, in seconds.
    pub timeout_seconds: u64,
    /// The number of genes that a bitstring decodes to.
    pub num_dimensions: usize,
    /// The number of bits that encode one gene.
    pub bits_per_dimension: usize,
}

impl Default for TuningConfig {
    /// Five runs of sixty seconds each, on ten genes of sixteen bits.
    fn default() -> (config: TuningConfig)
        ensures
            config == (TuningConfig {
                num_runs: 5,
                timeout_seconds: 60,
                num_dimensions: 10,
                bits_per_dimension: 16,
            }),
    {
        TuningConfig { num_runs: 5, timeout_seconds: 60, num_dimensions: 10, bits_per_dimension: 16 }
    }
}

/// The value as a `usize`: zero where it is negative, the largest `usize`
/// where it is too large.
pub open spec fn clamp_usize(value: i128) -> usize {
    if value < 0 {
        0
    } else if value > usize::MAX {
        usize::MAX
    } else {
        value as usize
    }
}

/// The value as a `u64`: zero where it is negative, the largest `u64` where
/// it is too large.
pub open spec fn clamp_u64(value: i128) -> u64 {
    if value < 0 {
        0
    } else if value > u64::MAX {
        u64::MAX
    } else {
        value as u64
    }
}

/// The value as an `i64`, held to the range of an `i64`.
pub open spec fn clamp_i64(value: i128) -> i64 {
    if value < i64::MIN {
        i64::MIN
    } else if value > i64::MAX {
        i64::MAX
    } else {
        value as i64
    }
}

/// The value as a `usize`, held to the range of a `usize`.
pub fn to_usize(value: i128) -> (clamped: usize)
    ensures
        clamped == clamp_usize(value),
{
    if value < 0 {
        0
    } else if value > usize::MAX as i128 {
        usize::MAX
    } else {
        value as usize
    }
}

/// The value as a `u64`, held to the range of a `u64`.
pub fn to_u64(value: i128) -> (clamped: u64)
    ensures
        clamped == clamp_u64(value),
{
    if value < 0 {
        0
    } else if value > u64::MAX as i128 {
        u64::MAX
    } else {
        value as u64
    }
}

/// The value as an `i64`, held to the range of an `i64`.
pub fn to_i64(value: i128) -> (clamped: i64)
    ensures
        clamped == clamp_i64(value),
{
    if value < i64::MIN as i128 {
        i64::MIN
    } else if value > i64::MAX as i128 {
        i64::MAX
    } else {
        value as i64
    }
}

/// The mapping that stands for a configuration of the genetic algorithm.
pub open spec fn ga_map(params: GAParameters) -> ParamMap {
    ParamMap {
        convergence_threshold: Some(params.convergence_threshold as i128),
        crossover_rate: Some(params.crossover_rate as i128),
        lambda: None,
        max_gens: None,
        max_iters: Some(params.max_iters as i128),
        mem_range_max: None,
        mem_range_min: None,
        mem_size: Some(params.mem_size as i128),
        mu: None,
        mutation_rate: Some(params.mutation_rate as i128),
        pop_size: Some(params.pop_size as i128),
        sigma: None,
        tau: None,
    }
}

/// The mapping that stands for a configuration of the evolution strategy.
pub open spec fn es_map(params: ESParameters) -> ParamMap {
    ParamMap {
        convergence_threshold: None,
        crossover_rate: None,
        lambda: Some(params.lambda as i128),
        max_gens: Some(params.max_gens as i128),
        max_iters: None,
        mem_range_max: Some(params.mem_range.1 as i128),
        mem_range_min: Some(params.mem_range.0 as i128),
        mem_size: Some(params.mem_size as i128),
        mu: Some(params.mu as i128),
        mutation_rate: None,
        pop_size: None,
        sigma: Some(params.sigma as i128),
        tau: Some(params.tau as i128),
    }
}

/// The population sizes of the genetic algorithm's grid.
pub open spec fn sga_population_sizes() -> Seq<usize> {
    seq![50, 162, 275, 387, 500]
}

/// The mutation rates of the genetic algorithm's grid: 0.001, 0.05, 0.1, 0.15
/// and 0.2.
pub open spec fn sga_mutation_rates() -> Seq<u64> {
    seq![1_000_000, 50_000_000, 100_000_000, 150_000_000, 200_000_000]
}

/// The offspring counts of the evolution strategy's grid.
pub open spec fn es_lambda_values() -> Seq<usize> {
    seq![50, 162, 275, 387, 500]
}

/// The initial step sizes of the evolution strategy's grid: 0.1, 0.575,
/// 1.05, 1.525 and 2.0.
pub open spec fn es_sigma_values() -> Seq<u64> {
    seq![100_000_000, 575_000_000, 1_050_000_000, 1_525_000_000, 2_000_000_000]
}

/// The configuration of the genetic algorithm for one population size and
/// one mutation rate: 160 bits, crossover rate 0.75, 1000 generations,
/// threshold 0.95.
pub open spec fn sga_cell(pop_size: usize, mutation_rate: u64) -> GAParameters {
    GAParameters {
        pop_size,
        mem_size: 160,
        mutation_rate,
        crossover_rate: 750_000_000,
        max_iters: 1000,
        convergence_threshold: 950_000_000,
    }
}

/// The configuration of the evolution strategy for one offspring count and
/// one initial step size: half as many parents as offspring, ten genes drawn
/// from -5.12 to 5.11, learning rate one over the square root of twenty, 1000
/// generations.
pub open spec fn es_cell(lambda: usize, sigma: u64) -> ESParameters {
    ESParameters {
        mu: lambda / 2,
        lambda,
        mem_size: 10,
        mem_range: (-5_120_000_000i64, 5_110_000_000i64),
        sigma,
        tau: 223_606_798,
        max_gens: 1000,
    }
}

/// `grid` is the full product of `rows` and `columns` under `cell`, row by
/// row.
pub open spec fn is_product<R, C, T>(
    grid: Seq<T>,
    rows: Seq<R>,
    columns: Seq<C>,
    cell: spec_fn(R, C) -> T,
) -> bool {
    &&& grid.len() == rows.len() * columns.len()
    &&& forall|i: int, j: int|
        0 <= i < rows.len() && 0 <= j < columns.len() ==> grid[i * columns.len() + j] == cell(
            #[trigger] rows[i],
            #[trigger] columns[j],
        )
}

/// The grids of configurations that a sweep covers.
pub struct ParameterGrid;

impl ParameterGrid {
    /// The grid of the genetic algorithm: every population size with every
    /// mutation rate.
    pub fn generate_sga_grid() -> (grid: Vec<GAParameters>)
        ensures
            is_product(
                grid@,
                sga_population_sizes(),
                sga_mutation_rates(),
                |p: usize, m: u64| sga_cell(p, m),
            ),
            grid@.len() == 25,
    {
        let population_sizes: Vec<usize> = vec![50, 162, 275, 387, 500];
        let mutation_rates: Vec<u64> = vec![
            1_000_000,
            50_000_000,
            100_000_000,
            150_000_000,
            200_000_000,
        ];
        let mut grid: Vec<GAParameters> = Vec::new();
        let mut i: usize = 0;
        while i < population_sizes.len()
            invariant
                i <= population_sizes@.len() == 5,
                mutation_rates@.len() == 5,
                grid@.len() == i * 5,
                forall|a: int, b: int|
                    0 <= a < i && 0 <= b < 5 ==> grid@[a * 5 + b] == sga_cell(
                        #[trigger] population_sizes@[a],
                        #[trigger] mutation_rates@[b],
                    ),
            decreases population_sizes@.len() - i,
        {
            let mut j: usize = 0;
            while j < mutation_rates.len()
                invariant
                    i < population_sizes@.len() == 5,
                    j <= mutation_rates@.len() == 5,
                    grid@.len() == i * 5 + j,
                    forall|a: int, b: int|
                        0 <= a < i && 0 <= b < 5 ==> grid@[a * 5 + b] == sga_cell(
                            #[trigger] population_sizes@[a],
                            #[trigger] mutation_rates@[b],
                        ),
                    forall|b: int|
                        0 <= b < j ==> grid@[i * 5 + b] == sga_cell(
                            population_sizes@[i as int],
                            #[trigger] mutation_rates@[b],
                        ),
                decreases mutation_rates@.len() - j,
            {
                grid.push(
                    GAParameters {
                        pop_size: population_sizes[i],
                        mem_size: 160,
                        mutation_rate: mutation_rates[j],
                        crossover_rate: 750_000_000,
                        max_iters: 1000,
                        convergence_threshold: 950_000_000,
                    },
                );
                j += 1;
            }
            i += 1;
        }
        grid
    }

    /// The grid of the evolution strategy: every offspring count with every
    /// initial step size.
    pub fn generate_es_grid() -> (grid: Vec<ESParameters>)
        ensures
            is_product(
                grid@,
                es_lambda_values(),
                es_sigma_values(),
                |l: usize, s: u64| es_cell(l, s),
            ),
            grid@.len() == 25,
    {
        let lambda_values: Vec<usize> = vec![50, 162, 275, 387, 500];
        let sigma_values: Vec<u64> = vec![
            100_000_000,
            575_000_000,
            1_050_000_000,
            1_525_000_000,
            2_000_000_000,
        ];
        let mut grid: Vec<ESParameters> = Vec::new();
        let mut i: usize = 0;
        while i < lambda_values.len()
            invariant
                i <= lambda_values@.len() == 5,
                sigma_values@.len() == 5,
                grid@.len() == i * 5,
                forall|a: int, b: int|
                    0 <= a < i && 0 <= b < 5 ==> grid@[a * 5 + b] == es_cell(
                        #[trigger] lambda_values@[a],
                        #[trigger] sigma_values@[b],
                    ),
            decreases lambda_values@.len() - i,
        {
            let mut j: usize = 0;
            while j < sigma_values.len()
                invariant
                    i < lambda_values@.len() == 5,
                    j <= sigma_values@.len() == 5,
                    grid@.len() == i * 5 + j,
                    forall|a: int, b: int|
                        0 <= a < i && 0 <= b < 5 ==> grid@[a * 5 + b] == es_cell(
                            #[trigger] lambda_values@[a],
                            #[trigger] sigma_values@[b],
                        ),
                    forall|b: int|
                        0 <= b < j ==> grid@[i * 5 + b] == es_cell(
                            lambda_values@[i as int],
                            #[trigger] sigma_values@[b],
                        ),
                decreases sigma_values@.len() - j,
            {
                let lambda: usize = lambda_values[i];
                grid.push(
                    ESParameters {
                        mu: lambda / 2,
                        lambda,
                        mem_size: 10,
                        mem_range: (-5_120_000_000, 5_110_000_000),
                        sigma: sigma_values[j],
                        tau: 223_606_798,
                        max_gens: 1000,
                    },
                );
                j += 1;
            }
            i += 1;
        }
        grid
    }

    /// The mapping that stands for a configuration of the genetic algorithm.
    pub fn params_to_map_ga(params: &GAParameters) -> (map: ParamMap)
        ensures
            map == ga_map(*params),
    {
        ParamMap {
            convergence_threshold: Some(params.convergence_threshold as i128),
            crossover_rate: Some(params.crossover_rate as i128),
            lambda: None,
            max_gens: None,
            max_iters: Some(params.max_iters as i128),
            mem_range_max: None,
            mem_range_min: None,
            mem_size: Some(params.mem_size as i128),
            mu: None,
            mutation_rate: Some(params.mutation_rate as i128),
            pop_size: Some(params.pop_size as i128),
            sigma: None,
            tau: None,
        }
    }

    /// The mapping that stands for a configuration of the evolution
    /// strategy.
    pub fn params_to_map_es(params: &ESParameters) -> (map: ParamMap)
        ensures
            map == es_map(*params),
    {
        ParamMap {
            convergence_threshold: None,
            crossover_rate: None,
            lambda: Some(params.lambda as i128),
            max_gens: Some(params.max_gens as i128),
            max_iters: None,
            mem_range_max: Some(params.mem_range.1 as i128),
            mem_range_min: Some(params.mem_range.0 as i128),
            mem_size: Some(params.mem_size as i128),
            mu: Some(params.mu as i128),
            mutation_rate: None,
            pop_size: None,
            sigma: Some(params.sigma as i128),
            tau: Some(params.tau as i128),
        }
    }
}

} // verus!
