//! The decisions of the generational search: seeding the first
//! population, scoring a generation's trained candidates, testing
//! convergence, and breeding the next population.  Training itself and
//! persistence are the caller's work; every decision they depend on is
//! made here.

use vstd::prelude::*;
use crate::config::Config;
use crate::error::{MyError, MyResult};
use crate::ga::{
    Gene, check_params_encodable, params_encodable, spec_encode, spec_diversity,
};
use crate::math::{FP_ONE, SIM_SCALE};
use crate::model::{FeatureParams, ForecastModel};
use crate::rng::gen_range_u64;

verus! {

/// A persisted model may seed the first population only when its input
/// width matches the configured window and its parameters can be
/// written back into a genome; anything else counts as no seed.
pub fn accept_seed_model(model: Option<ForecastModel>, expected_input_size: usize) -> (r: Option<ForecastModel>)
    ensures
        r matches Some(m) ==> (model == Some(m)
            && m.input_data_size == expected_input_size
            && params_encodable(m.feature_params)),
        (model matches Some(m) && m.input_data_size == expected_input_size
            && params_encodable(m.feature_params)) ==> r == model,
{
    match model {
        Some(m) => {
            if m.input_data_size == expected_input_size && check_params_encodable(&m.feature_params) {
                Some(m)
            } else {
                None
            }
        },
        None => None,
    }
}

/// The starting population: the seed parameters, when given, become the
/// first genome, and random genomes fill the remaining slots.
pub fn initial_population(
    seed: Option<&FeatureParams>,
    config: &Config,
    rng: &mut rand::rngs::StdRng,
) -> (r: MyResult<Vec<Gene>>)
    requires
        config.valid(),
        seed matches Some(p) ==> params_encodable(*p),
    ensures
        r matches Ok(gs) && {
            &&& forall|k: int| 0 <= k < gs@.len() ==> (#[trigger] gs@[k]).wf()
            &&& seed matches Some(p) ==> gs@.len() >= 1 && gs@[0]@ == spec_encode(*p)
                && gs@.len() == (if config.training_model_count > 1 {
                    config.training_model_count as int
                } else {
                    1int
                })
            &&& seed is None ==> gs@.len() == config.training_model_count
        },
{
    let mut genes: Vec<Gene> = Vec::new();
    if let Some(p) = seed {
        let g = match Gene::new(p) {
            Ok(g) => g,
            Err(e) => {
                return Err(e);
            },
        };
        genes.push(g);
    }
    while genes.len() < config.training_model_count
        invariant
            config.valid(),
            forall|k: int| 0 <= k < genes@.len() ==> (#[trigger] genes@[k]).wf(),
            seed matches Some(p) ==> genes@.len() >= 1 && genes@[0]@ == spec_encode(*p),
            seed is None ==> genes@.len() <= config.training_model_count,
            genes@.len() <= config.training_model_count || genes@.len() == 1,
        decreases config.training_model_count - genes@.len(),
    {
        let g = match Gene::new_random_gene(config, rng) {
            Ok(g) => g,
            Err(e) => {
                return Err(e);
            },
        };
        genes.push(g);
    }
    Ok(genes)
}

/// Index of the first candidate whose mean squared error is minimal.
pub open spec fn first_min_index(ms: Seq<ForecastModel>) -> int
    decreases ms.len(),
{
    if ms.len() <= 1 {
        0
    } else {
        let j = first_min_index(ms.drop_last());
        if ms.last().performance_mse < ms[j].performance_mse {
            ms.len() - 1
        } else {
            j
        }
    }
}

/// The minimal mean squared error among a candidate list.
pub open spec fn min_mse(ms: Seq<ForecastModel>) -> u64 {
    ms[first_min_index(ms)].performance_mse
}

/// `first_min_index` points at the first minimum.
pub proof fn lemma_first_min_index_props(ms: Seq<ForecastModel>)
    requires
        ms.len() > 0,
    ensures
        0 <= first_min_index(ms) < ms.len(),
        forall|j: int| 0 <= j < ms.len()
            ==> min_mse(ms) <= (#[trigger] ms[j]).performance_mse,
        forall|j: int| 0 <= j < first_min_index(ms)
            ==> (#[trigger] ms[j]).performance_mse > min_mse(ms),
    decreases ms.len(),
{
    if ms.len() > 1 {
        let pre = ms.drop_last();
        lemma_first_min_index_props(pre);
        let j = first_min_index(pre);
        assert(forall|t: int| 0 <= t < pre.len() ==> pre[t] == #[trigger] ms[t]);
        if ms.last().performance_mse < ms[j].performance_mse {
            assert(first_min_index(ms) == ms.len() - 1);
            assert(forall|t: int| 0 <= t < pre.len()
                ==> min_mse(pre) <= (#[trigger] ms[t]).performance_mse);
        } else {
            assert(first_min_index(ms) == j);
            assert(min_mse(ms) == min_mse(pre));
        }
    }
}

/// The candidate a genome contributes to the generation: the one with
/// the lowest mean squared error, the earliest winning ties.
pub fn find_best_model_index(models: &Vec<ForecastModel>) -> (r: MyResult<usize>)
    ensures
        r matches Ok(i) && (models@.len() == 0 ==> i == 0)
            && (models@.len() > 0 ==> i < models@.len() && i == first_min_index(models@)),
{
    let mut best_model_index: usize = 0;
    let mut best_mse: Option<u64> = None;
    let mut i: usize = 0;
    while i < models.len()
        invariant
            i <= models@.len(),
            i == 0 ==> best_model_index == 0 && best_mse is None,
            i > 0 ==> {
                &&& best_mse == Some(min_mse(models@.take(i as int)))
                &&& best_model_index < i
                &&& best_model_index == first_min_index(models@.take(i as int))
            },
        decreases models@.len() - i,
    {
        proof {
            assert(models@.take(i as int + 1).drop_last() =~= models@.take(i as int));
            assert(models@.take(i as int + 1).last() == models@[i as int]);
            if i > 0 {
                lemma_first_min_index_props(models@.take(i as int));
            }
        }
        let mse = models[i].get_performance_mse();
        let replace = match best_mse {
            None => true,
            Some(b) => mse < b,
        };
        if replace {
            best_model_index = i;
            best_mse = Some(mse);
        }
        i = i + 1;
    }
    proof {
        if models@.len() > 0 {
            assert(models@.take(models@.len() as int) =~= models@);
        }
    }
    Ok(best_model_index)
}

/// The fixed-point mean squared errors of the genomes that produced at
/// least one candidate, in genome order.
pub open spec fn gene_best_mses(sets: Seq<Vec<ForecastModel>>) -> Seq<u64>
    decreases sets.len(),
{
    if sets.len() == 0 {
        Seq::empty()
    } else {
        let rest = gene_best_mses(sets.drop_last());
        if sets.last()@.len() == 0 {
            rest
        } else {
            rest.push(min_mse(sets.last()@))
        }
    }
}

/// No genome produced any candidate.
pub open spec fn all_sets_empty(sets: Seq<Vec<ForecastModel>>) -> bool {
    forall|k: int| 0 <= k < sets.len() ==> (#[trigger] sets[k])@.len() == 0
}

/// The outcome of scoring one generation: the overall best candidate,
/// named by genome index and candidate index, and the per-genome best
/// errors that drive roulette selection.
pub struct GenerationBest {
    /// Genome index and candidate index of the generation's single best
    /// candidate; absent when every genome failed to produce one.
    pub best: Option<(usize, usize)>,
    /// Per-genome best errors, in genome order, skipping genomes with
    /// no candidates.
    pub results: Vec<u64>,
}

/// Score one generation: for every genome take its lowest-error
/// candidate, and across the generation keep the single best by strict
/// comparison, the earliest genome winning ties.
pub fn pick_generation_best(model_sets: &Vec<Vec<ForecastModel>>) -> (r: GenerationBest)
    ensures
        r.results@ == gene_best_mses(model_sets@),
        r.best is None <==> all_sets_empty(model_sets@),
        r.best matches Some(pair) ==> {
            &&& (pair.0 as int) < model_sets@.len()
            &&& model_sets@[pair.0 as int]@.len() > 0
            &&& pair.1 == first_min_index(model_sets@[pair.0 as int]@)
            &&& forall|k: int| 0 <= k < model_sets@.len() && (#[trigger] model_sets@[k])@.len() > 0
                ==> min_mse(model_sets@[k]@) >= min_mse(model_sets@[pair.0 as int]@)
            &&& forall|k: int| 0 <= k < pair.0 && (#[trigger] model_sets@[k])@.len() > 0
                ==> min_mse(model_sets@[k]@) > min_mse(model_sets@[pair.0 as int]@)
        },
{
    let n = model_sets.len();
    let mut results: Vec<u64> = Vec::new();
    let mut best_gene: usize = 0;
    let mut best_model: usize = 0;
    let mut best_mse: u64 = 0;
    let mut have_best: bool = false;
    let mut k: usize = 0;
    while k < n
        invariant
            n == model_sets@.len(),
            k <= n,
            results@ == gene_best_mses(model_sets@.take(k as int)),
            !have_best <==> (forall|j: int| 0 <= j < k
                ==> (#[trigger] model_sets@[j])@.len() == 0),
            have_best ==> {
                &&& (best_gene as int) < k
                &&& model_sets@[best_gene as int]@.len() > 0
                &&& best_model == first_min_index(model_sets@[best_gene as int]@)
                &&& best_mse == min_mse(model_sets@[best_gene as int]@)
                &&& forall|j: int| 0 <= j < k && (#[trigger] model_sets@[j])@.len() > 0
                    ==> min_mse(model_sets@[j]@) >= best_mse
                &&& forall|j: int| 0 <= j < best_gene && (#[trigger] model_sets@[j])@.len() > 0
                    ==> min_mse(model_sets@[j]@) > best_mse
            },
        decreases n - k,
    {
        proof {
            assert(model_sets@.take(k as int + 1).drop_last() =~= model_sets@.take(k as int));
            assert(model_sets@.take(k as int + 1).last() == model_sets@[k as int]);
        }
        let set = &model_sets[k];
        let index = match find_best_model_index(set) {
            Ok(i) => i,
            Err(_) => 0,
        };
        if set.len() > 0 {
            proof {
                lemma_first_min_index_props(model_sets@[k as int]@);
                assert(set@ == model_sets@[k as int]@);
                assert(index as int == first_min_index(set@));
            }
            let mse = set[index].get_performance_mse();
            proof {
                assert(mse == min_mse(model_sets@[k as int]@));
            }
            results.push(mse);
            if !have_best || best_mse > mse {
                have_best = true;
                best_gene = k;
                best_model = index;
                best_mse = mse;
            }
        }
        proof {
            if have_best {
                assert forall|j: int| 0 <= j < k as int + 1
                    && (#[trigger] model_sets@[j])@.len() > 0
                    implies min_mse(model_sets@[j]@) >= best_mse by {}
                assert forall|j: int| 0 <= j < best_gene
                    && (#[trigger] model_sets@[j])@.len() > 0
                    implies min_mse(model_sets@[j]@) > best_mse by {}
            }
        }
        k = k + 1;
    }
    proof {
        assert(model_sets@.take(n as int) =~= model_sets@);
        if !have_best {
            assert(all_sets_empty(model_sets@));
        } else {
            assert(!all_sets_empty(model_sets@));
        }
    }
    GenerationBest {
        best: if have_best {
            Some((best_gene, best_model))
        } else {
            None
        },
        results,
    }
}

/// The search stops at the final generation, or as soon as the
/// population's mean distance to its own average falls below one whole
/// unit of the similarity scale.
pub fn should_training_complete(config: &Config, generation_no: i32, genes: &Vec<Gene>) -> (r: MyResult<bool>)
    requires
        forall|k: int| 0 <= k < genes@.len() ==> (#[trigger] genes@[k]).wf(),
    ensures
        generation_no == config.generation_count ==> r == Ok::<bool, MyError>(true),
        generation_no != config.generation_count && genes@.len() == 0 ==> (r matches Err(e)
            && e matches MyError::ArrayIsEmpty { name } && name@ == "genes"@),
        generation_no != config.generation_count && genes@.len() > 0 ==> (r matches Ok(b)
            && (b <==> spec_diversity(genes@) < SIM_SCALE)),
{
    if generation_no == config.generation_count {
        return Ok(true);
    }

    let similarity = match Gene::calc_similarity_average(genes) {
        Ok(s) => s,
        Err(e) => {
            return Err(e);
        },
    };
    Ok(similarity < SIM_SCALE)
}

/// Breed the next population from the scored current one.  Each draw
/// picks crossover, mutation or roulette selection by the configured
/// rates; a crossover draw with fewer than two open slots is discarded
/// and drawn again, and a roulette draw that lands on an already chosen
/// genome is drawn again.  The genome named by `elite_index` is carried
/// over verbatim as the first of the new population.  When no progress
/// is made within `max_attempts` draws the breeding is abandoned with
/// a typed failure; the draw budget is the one behavioural addition of
/// this form of the loop, which would otherwise retry without bound
/// (with a crossover rate of one and a single open slot, forever).
pub fn build_next_generation(
    genes: &Vec<Gene>,
    results: &Vec<u64>,
    elite_index: Option<usize>,
    config: &Config,
    rng: &mut rand::rngs::StdRng,
    max_attempts: usize,
) -> (r: MyResult<Vec<Gene>>)
    requires
        config.valid(),
        genes@.len() > 0,
        forall|k: int| 0 <= k < genes@.len() ==> (#[trigger] genes@[k]).wf(),
        results@.len() <= genes@.len(),
        elite_index matches Some(i) ==> i < genes@.len(),
    ensures
        r matches Ok(ng) ==> {
            &&& ng@.len() == genes@.len()
            &&& forall|k: int| 0 <= k < ng@.len() ==> (#[trigger] ng@[k]).wf()
            &&& elite_index matches Some(i) ==> ng@.len() > 0 && ng@[0]@ == genes@[i as int]@
        },
        r matches Err(e) ==> e == (MyError::BreedingStalled { attempts: max_attempts }),
        elite_index is Some && genes@.len() == 1 ==> r is Ok,
        config.crossover_rate == 0 && config.mutation_rate == FP_ONE
            && max_attempts >= genes@.len() ==> r is Ok,
{
    let n = genes.len();
    let mut new_genes: Vec<Gene> = Vec::new();
    let mut selected: Vec<bool> = Vec::new();
    while selected.len() < n
        invariant
            selected@.len() <= n,
        decreases n - selected@.len(),
    {
        selected.push(false);
    }
    if let Some(i) = elite_index {
        new_genes.push(genes[i].clone());
        selected.set(i, true);
    }

    let mut attempts: usize = 0;
    while new_genes.len() < n
        invariant
            config.valid(),
            n == genes@.len(),
            n > 0,
            forall|k: int| 0 <= k < genes@.len() ==> (#[trigger] genes@[k]).wf(),
            results@.len() <= genes@.len(),
            selected@.len() == n,
            new_genes@.len() <= n,
            forall|k: int| 0 <= k < new_genes@.len() ==> (#[trigger] new_genes@[k]).wf(),
            elite_index matches Some(i) ==> new_genes@.len() > 0 && new_genes@[0]@ == genes@[i as int]@,
            attempts <= max_attempts,
            config.crossover_rate == 0 && config.mutation_rate == FP_ONE
                ==> new_genes@.len() >= attempts,
        decreases max_attempts - attempts,
    {
        if attempts >= max_attempts {
            return Err(MyError::BreedingStalled { attempts });
        }
        attempts = attempts + 1;

        let v = gen_range_u64(rng, 0, FP_ONE);
        if v < config.crossover_rate {
            // Crossover needs two open slots; with fewer the draw is
            // discarded and drawn afresh.
            if n - new_genes.len() < 2 {
                continue;
            }

            let index1 = gen_range_u64(rng, 0, n as u64) as usize;
            let skewed = gen_range_u64(rng, 0, n as u64 - 1) as usize;
            // A uniform choice among the indices other than `index1`.
            let index2 = if skewed >= index1 {
                skewed + 1
            } else {
                skewed
            };
            let mut g1 = genes[index1].clone();
            let mut g2 = genes[index2].clone();
            let max = config.gene_value_max();
            match Gene::crossover(&mut g1, &mut g2, max, rng) {
                Ok(()) => {},
                Err(_) => {},
            }
            new_genes.push(g1);
            new_genes.push(g2);
        } else if v < config.crossover_rate + config.mutation_rate {
            let index = match Gene::select_gene_index_random(genes, rng) {
                Ok(i) => i,
                Err(_) => 0,
            };
            let mut new_gene = genes[index].clone();
            match new_gene.mutation(config, rng) {
                Ok(()) => {},
                Err(_) => {},
            }
            new_genes.push(new_gene);
        } else {
            let index = match Gene::select_index_roulette(results, rng) {
                Ok(i) => i,
                Err(_) => 0,
            };
            // The roulette index names a genome; a genome already
            // chosen this generation is not chosen again.
            if index < n && !selected[index] {
                new_genes.push(genes[index].clone());
                selected.set(index, true);
            }
        }
    }
    Ok(new_genes)
}

} // verus!
