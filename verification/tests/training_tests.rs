use forecast_training::config::Config;
use forecast_training::error::MyError;
use forecast_training::ga::Gene;
use forecast_training::math::FP_ONE;
use forecast_training::model::{FeatureParams, ForecastModel, ModelFamily};
use forecast_training::rng::rng_from_seed;
use forecast_training::training::{
    accept_seed_model, build_next_generation, find_best_model_index, initial_population,
    pick_generation_best, should_training_complete,
};

fn base_config() -> Config {
    Config {
        forecast_input_size: 30,
        forecast_offset_minutes: 5,
        currency_pair: "usdjpy".to_string(),
        forecast_model_no: 0,
        training_model_no: 1,
        training_model_count: 4,
        generation_count: 10,
        training_data_required_count: 10,
        test_data_required_count: 5,
        crossover_rate: 300_000,
        mutation_rate: 200_000,
    }
}

fn seed_params() -> FeatureParams {
    FeatureParams {
        feature_size: 3,
        fast_period: 4,
        slow_period: 9,
        signal_period: 5,
        bb_period: 6,
    }
}

fn candidate(mse: u64) -> ForecastModel {
    ForecastModel {
        pair: "usdjpy".to_string(),
        no: 1,
        family: ModelFamily::Linear,
        model_data: vec![1, 2, 3],
        input_data_size: 30,
        feature_params: seed_params(),
        performance_mse: mse,
        performance_rmse: 0,
        memo: "Linear".to_string(),
    }
}

#[test]
fn seed_model_with_matching_input_size_is_accepted() {
    let mut m = candidate(5);
    m.input_data_size = 30;
    let accepted = accept_seed_model(Some(m.clone()), 30);
    assert_eq!(accepted, Some(m));
}

#[test]
fn seed_model_with_other_input_size_is_ignored() {
    let mut m = candidate(5);
    m.input_data_size = 99;
    assert_eq!(accept_seed_model(Some(m), 30), None);
    assert_eq!(accept_seed_model(None, 30), None);
}

#[test]
fn population_without_seed_is_entirely_random_sized() {
    let config = base_config();
    let mut rng = rng_from_seed(31);
    let genes = initial_population(None, &config, &mut rng).unwrap();
    assert_eq!(genes.len(), 4);
    for g in &genes {
        let vs = g.raw_values();
        assert_eq!(vs.len(), 5);
        for i in 0..5 {
            assert!(2 <= vs[i] && vs[i] <= 10);
        }
    }
}

#[test]
fn mismatched_seed_never_reaches_the_population() {
    // A persisted model trained against another input width is dropped
    // before seeding, so the population carries no trace of it.
    let config = base_config();
    let mut stale = candidate(5);
    stale.input_data_size = 60;
    stale.feature_params = FeatureParams {
        feature_size: 9,
        fast_period: 9,
        slow_period: 10,
        signal_period: 9,
        bb_period: 9,
    };
    let seed = accept_seed_model(Some(stale.clone()), config.forecast_input_size);
    assert_eq!(seed, None);

    let mut rng = rng_from_seed(37);
    let seed_params_opt = match &seed {
        Some(m) => Some(&m.feature_params),
        None => None,
    };
    let genes = initial_population(seed_params_opt, &config, &mut rng).unwrap();
    assert_eq!(genes.len(), config.training_model_count);
    // The stale parameters encode to [9, 9, 1, 9, 9]; no genome may
    // carry that vector, and indeed none can: every random component
    // is at least 2.
    for g in &genes {
        assert_ne!(g.raw_values(), &vec![9, 9, 1, 9, 9]);
    }
}

#[test]
fn seeded_population_starts_with_the_seed_genome() {
    let config = base_config();
    let mut rng = rng_from_seed(41);
    let p = seed_params();
    let genes = initial_population(Some(&p), &config, &mut rng).unwrap();
    assert_eq!(genes.len(), 4);
    assert_eq!(genes[0].raw_values(), &vec![3, 4, 5, 5, 6]);
}

#[test]
fn best_model_index_takes_the_first_minimum() {
    let models = vec![candidate(5), candidate(3), candidate(3), candidate(9)];
    assert_eq!(find_best_model_index(&models).unwrap(), 1);
    assert_eq!(find_best_model_index(&vec![]).unwrap(), 0);
}

#[test]
fn generation_best_skips_failed_genomes_and_prefers_the_earliest_minimum() {
    let sets = vec![
        vec![candidate(5), candidate(3)],
        vec![],
        vec![candidate(3)],
        vec![candidate(4)],
    ];
    let outcome = pick_generation_best(&sets);
    assert_eq!(outcome.results, vec![3, 3, 4]);
    assert_eq!(outcome.best, Some((0, 1)));
}

#[test]
fn generation_with_no_candidates_has_no_best() {
    let sets: Vec<Vec<ForecastModel>> = vec![vec![], vec![]];
    let outcome = pick_generation_best(&sets);
    assert_eq!(outcome.best, None);
    assert!(outcome.results.is_empty());
}

#[test]
fn final_generation_always_completes() {
    let config = base_config();
    let g = Gene::new(&seed_params()).unwrap();
    let genes = vec![g];
    assert_eq!(should_training_complete(&config, 10, &genes).unwrap(), true);
}

#[test]
fn converged_population_completes_early() {
    let config = base_config();
    let g = Gene::new(&seed_params()).unwrap();
    let genes = vec![g.clone(), g.clone(), g.clone()];
    assert_eq!(should_training_complete(&config, 3, &genes).unwrap(), true);
}

#[test]
fn diverse_population_continues() {
    let config = base_config();
    let g1 = Gene::new(&seed_params()).unwrap();
    let g2 = Gene::new(&FeatureParams {
        feature_size: 8,
        fast_period: 9,
        slow_period: 11,
        signal_period: 2,
        bb_period: 2,
    })
    .unwrap();
    let genes = vec![g1, g2];
    assert_eq!(should_training_complete(&config, 3, &genes).unwrap(), false);
}

#[test]
fn empty_population_cannot_be_checked_before_the_last_generation() {
    let config = base_config();
    let genes: Vec<Gene> = vec![];
    let r = should_training_complete(&config, 3, &genes);
    assert!(matches!(r, Err(MyError::ArrayIsEmpty { .. })));
}

#[test]
fn crossover_draw_with_one_open_slot_is_discarded() {
    // With a crossover rate of one and a single open slot, every draw
    // asks for a crossover that cannot fit; each one is discarded and
    // retried, and no single offspring is ever produced.  The breeding
    // gives up once its draw budget is exhausted.
    let mut config = base_config();
    config.crossover_rate = FP_ONE;
    config.mutation_rate = 0;
    let g1 = Gene::new(&seed_params()).unwrap();
    let g2 = Gene::new(&FeatureParams {
        feature_size: 7,
        fast_period: 10,
        slow_period: 12,
        signal_period: 8,
        bb_period: 9,
    })
    .unwrap();
    let genes = vec![g1, g2];
    let results = vec![100u64, 200u64];
    let mut rng = rng_from_seed(43);
    let r = build_next_generation(&genes, &results, Some(0), &config, &mut rng, 50);
    assert!(matches!(r, Err(MyError::BreedingStalled { .. })));
}

#[test]
fn crossover_fills_paired_open_slots() {
    let mut config = base_config();
    config.crossover_rate = FP_ONE;
    config.mutation_rate = 0;
    config.training_model_count = 3;
    let g1 = Gene::new(&seed_params()).unwrap();
    let g2 = Gene::new(&FeatureParams {
        feature_size: 7,
        fast_period: 10,
        slow_period: 12,
        signal_period: 8,
        bb_period: 9,
    })
    .unwrap();
    let g3 = Gene::new(&FeatureParams {
        feature_size: 2,
        fast_period: 2,
        slow_period: 4,
        signal_period: 2,
        bb_period: 2,
    })
    .unwrap();
    let genes = vec![g1.clone(), g2, g3];
    let results = vec![100u64, 200u64, 300u64];
    let mut rng = rng_from_seed(47);
    let next = build_next_generation(&genes, &results, Some(0), &config, &mut rng, 1000).unwrap();
    assert_eq!(next.len(), 3);
    assert_eq!(next[0].raw_values(), g1.raw_values());
}

#[test]
fn mutation_only_breeding_fills_the_population() {
    let mut config = base_config();
    config.crossover_rate = 0;
    config.mutation_rate = FP_ONE;
    config.training_model_count = 2;
    let g1 = Gene::new(&seed_params()).unwrap();
    let g2 = Gene::new(&FeatureParams {
        feature_size: 7,
        fast_period: 10,
        slow_period: 12,
        signal_period: 8,
        bb_period: 9,
    })
    .unwrap();
    let genes = vec![g1, g2];
    let results = vec![100u64, 200u64];
    let mut rng = rng_from_seed(53);
    let next = build_next_generation(&genes, &results, None, &config, &mut rng, 1000).unwrap();
    assert_eq!(next.len(), 2);
}

#[test]
fn selection_only_breeding_never_repeats_a_genome() {
    let mut config = base_config();
    config.crossover_rate = 0;
    config.mutation_rate = 0;
    config.training_model_count = 3;
    let g1 = Gene::new(&seed_params()).unwrap();
    let g2 = Gene::new(&FeatureParams {
        feature_size: 7,
        fast_period: 10,
        slow_period: 12,
        signal_period: 8,
        bb_period: 9,
    })
    .unwrap();
    let g3 = Gene::new(&FeatureParams {
        feature_size: 2,
        fast_period: 2,
        slow_period: 4,
        signal_period: 2,
        bb_period: 2,
    })
    .unwrap();
    let genes = vec![g1.clone(), g2.clone(), g3.clone()];
    let results = vec![100_000u64, 200_000u64, 300_000u64];
    let mut rng = rng_from_seed(59);
    let next =
        build_next_generation(&genes, &results, Some(0), &config, &mut rng, 100_000).unwrap();
    assert_eq!(next.len(), 3);
    assert_eq!(next[0].raw_values(), g1.raw_values());
    // Plain selection excludes already chosen genomes, so the new
    // population is a permutation of the old one.
    let mut seen = vec![false; 3];
    for g in &next {
        for (i, o) in [&g1, &g2, &g3].iter().enumerate() {
            if g.raw_values() == o.raw_values() {
                assert!(!seen[i]);
                seen[i] = true;
            }
        }
    }
    assert!(seen.iter().all(|&s| s));
}

#[test]
fn lone_elite_population_always_breeds() {
    // With a single genome carried over as the elite there is nothing
    // left to breed; the new population is complete before any draw.
    let mut config = base_config();
    config.training_model_count = 1;
    let g1 = Gene::new(&seed_params()).unwrap();
    let genes = vec![g1.clone()];
    let results = vec![100u64];
    let mut rng = rng_from_seed(73);
    let next = build_next_generation(&genes, &results, Some(0), &config, &mut rng, 0).unwrap();
    assert_eq!(next.len(), 1);
    assert_eq!(next[0].raw_values(), g1.raw_values());
}

#[test]
fn mutation_only_breeding_needs_one_attempt_per_slot() {
    // With a mutation rate of one every draw inserts a mutant, so a
    // budget of one attempt per open slot already suffices.
    let mut config = base_config();
    config.crossover_rate = 0;
    config.mutation_rate = FP_ONE;
    config.training_model_count = 2;
    let g1 = Gene::new(&seed_params()).unwrap();
    let g2 = Gene::new(&FeatureParams {
        feature_size: 7,
        fast_period: 10,
        slow_period: 12,
        signal_period: 8,
        bb_period: 9,
    })
    .unwrap();
    let genes = vec![g1, g2];
    let results = vec![100u64, 200u64];
    let mut rng = rng_from_seed(79);
    let next = build_next_generation(&genes, &results, None, &config, &mut rng, 2).unwrap();
    assert_eq!(next.len(), 2);
}
