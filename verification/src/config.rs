//! The configuration the generational search runs under.

use vstd::prelude::*;
use crate::math::FP_ONE;

verus! {

/// Largest population the search accepts in one generation.  It stays
/// at the similarity scale so the truncated fixed-point diversity mean
/// of a valid population is zero only for identical genomes: in a
/// larger population, one stray genome's whole-unit distance would be
/// lost to the division by the population size.
pub const POPULATION_MAX: usize = 1_000;

/// Largest raw genome component; random draws, mutation and crossover
/// all stay at or below it, which keeps the similarity arithmetic free
/// of overflow.
pub const GENE_MAX_VALUE: usize = 1_000_000;

/// Semantic configuration of one training run.  The crossover and
/// mutation rates are fixed-point fractions of `FP_ONE`.
#[derive(Debug, Clone, PartialEq)]
pub struct Config {
    /// Number of raw rate samples a forecast consumes.
    pub forecast_input_size: usize,
    /// How many samples ahead the forecast target lies.
    pub forecast_offset_minutes: usize,
    /// The currency pair this run trains for.
    pub currency_pair: String,
    /// Persistence slot read by production forecasting.
    pub forecast_model_no: i32,
    /// Persistence slot written while a search runs.
    pub training_model_no: i32,
    /// Population size of each generation.
    pub training_model_count: usize,
    /// Largest number of generations before the search stops.
    pub generation_count: i32,
    /// Fewest samples accepted as training data.
    pub training_data_required_count: usize,
    /// Fewest samples accepted as test data.
    pub test_data_required_count: usize,
    /// Probability of breeding by crossover, times `FP_ONE`.
    pub crossover_rate: u64,
    /// Probability of breeding by mutation, times `FP_ONE`.
    pub mutation_rate: u64,
}

impl Config {
    /// Upper end of the range every random genome component is drawn
    /// from.
    pub open spec fn gene_upper(self) -> int {
        self.forecast_input_size as int / 3
    }

    /// What every function of the search assumes of its configuration.
    pub open spec fn valid(self) -> bool {
        &&& 6 <= self.forecast_input_size
        &&& self.gene_upper() <= GENE_MAX_VALUE
        &&& self.forecast_offset_minutes <= 1_000_000
        &&& 1 <= self.training_model_count <= POPULATION_MAX
        &&& 1 <= self.generation_count
        &&& self.crossover_rate + self.mutation_rate <= FP_ONE
    }

    /// Executable form of `valid`, for callers that read configuration
    /// from the environment.
    pub fn is_valid(&self) -> (r: bool)
        ensures
            r == self.valid(),
    {
        6 <= self.forecast_input_size
            && self.forecast_input_size / 3 <= GENE_MAX_VALUE
            && self.forecast_offset_minutes <= 1_000_000
            && 1 <= self.training_model_count && self.training_model_count <= POPULATION_MAX
            && 1 <= self.generation_count
            && self.crossover_rate <= FP_ONE
            && self.mutation_rate <= FP_ONE - self.crossover_rate
    }

    /// Largest value a genome component may take under this
    /// configuration.
    pub fn gene_value_max(&self) -> (r: usize)
        ensures
            r == self.gene_upper(),
    {
        self.forecast_input_size / 3
    }
}

} // verus!
