use forecast_training::config::Config;
use forecast_training::ga::Gene;
use forecast_training::math::{FP_ONE, SIM_SCALE};
use forecast_training::model::FeatureParams;
use forecast_training::rng::rng_from_seed;

fn test_config() -> Config {
    Config {
        forecast_input_size: 30,
        forecast_offset_minutes: 5,
        currency_pair: "usdjpy".to_string(),
        forecast_model_no: 0,
        training_model_no: 1,
        training_model_count: 4,
        generation_count: 10,
        training_data_required_count: 10,
        test_data_required_count: 5,
        crossover_rate: 300_000,
        mutation_rate: 200_000,
    }
}

fn params(fs: usize, fast: usize, slow: usize, signal: usize, bb: usize) -> FeatureParams {
    FeatureParams {
        feature_size: fs,
        fast_period: fast,
        slow_period: slow,
        signal_period: signal,
        bb_period: bb,
    }
}

#[test]
fn encode_then_decode_round_trips_periods() {
    let p = params(3, 4, 9, 5, 6);
    let g = Gene::new(&p).unwrap();
    assert_eq!(g.raw_values(), &vec![3, 4, 5, 5, 6]);
    let d = g.to_feature_params().unwrap();
    // The feature size is folded into [1, 10); 3 stays 3 + 1 after the
    // modulo wrap of the raw component 3.
    assert_eq!(d.feature_size, 3 % 9 + 1);
    assert_eq!(d.fast_period, 4);
    assert_eq!(d.slow_period, 9);
    assert_eq!(d.signal_period, 5);
    assert_eq!(d.bb_period, 6);
}

#[test]
fn decoded_genomes_keep_slow_longer_than_fast_and_feature_size_in_window() {
    let config = test_config();
    let mut rng = rng_from_seed(7);
    for _ in 0..200 {
        let g = Gene::new_random_gene(&config, &mut rng).unwrap();
        let p = g.to_feature_params().unwrap();
        assert!(p.slow_period > p.fast_period);
        assert!(1 <= p.feature_size && p.feature_size < 10);
    }
}

#[test]
fn random_gene_components_stay_in_configured_range() {
    let config = test_config();
    let mut rng = rng_from_seed(11);
    for _ in 0..100 {
        let g = Gene::new_random_gene(&config, &mut rng).unwrap();
        let vs = g.raw_values();
        assert_eq!(vs.len(), 5);
        for i in 0..5 {
            assert!(2 <= vs[i] && vs[i] <= 10);
        }
    }
}

#[test]
fn mutation_changes_at_most_one_component_into_range() {
    let config = test_config();
    let mut rng = rng_from_seed(13);
    let original = Gene::new(&params(3, 4, 9, 5, 6)).unwrap();
    for _ in 0..100 {
        let mut mutated = original.clone();
        mutated.mutation(&config, &mut rng).unwrap();
        let before = original.raw_values();
        let after = mutated.raw_values();
        let mut changed = 0;
        for i in 0..5 {
            if before[i] != after[i] {
                changed += 1;
                assert!(2 <= after[i] && after[i] <= 10);
            }
        }
        // The fresh draw may coincide with the old value; otherwise
        // exactly one component moved.
        assert!(changed <= 1);
    }
}

#[test]
fn crossover_keeps_every_component_within_bounds() {
    let config = test_config();
    let max = config.forecast_input_size / 3;
    let mut rng = rng_from_seed(17);
    for _ in 0..100 {
        // Both parents start inside [2, max], so both offspring stay
        // inside [2, max].
        let mut h1 = Gene::new(&params(3, 4, 6, 5, 6)).unwrap();
        let mut h2 = Gene::new(&params(7, 10, 12, 8, 9)).unwrap();
        Gene::crossover(&mut h1, &mut h2, max, &mut rng).unwrap();
        for g in [&h1, &h2] {
            assert_eq!(g.raw_values().len(), 5);
            for &v in g.raw_values() {
                assert!(2 <= v && v <= max);
            }
        }
    }
}

#[test]
fn crossover_touches_the_same_single_component_of_both_parents() {
    let config = test_config();
    let max = config.forecast_input_size / 3;
    let mut rng = rng_from_seed(19);
    for _ in 0..100 {
        let g1_before = Gene::new(&params(3, 4, 6, 5, 6)).unwrap();
        let g2_before = Gene::new(&params(7, 10, 12, 8, 9)).unwrap();
        let mut g1 = g1_before.clone();
        let mut g2 = g2_before.clone();
        Gene::crossover(&mut g1, &mut g2, max, &mut rng).unwrap();
        for i in 0..5 {
            let untouched1 = g1.raw_values()[i] == g1_before.raw_values()[i];
            let untouched2 = g2.raw_values()[i] == g2_before.raw_values()[i];
            // A component may only move together with its counterpart.
            if !untouched1 {
                let mut other_moved = 0;
                for j in 0..5 {
                    if j != i && g1.raw_values()[j] != g1_before.raw_values()[j] {
                        other_moved += 1;
                    }
                }
                assert_eq!(other_moved, 0);
            }
            if !untouched2 {
                let mut other_moved = 0;
                for j in 0..5 {
                    if j != i && g2.raw_values()[j] != g2_before.raw_values()[j] {
                        other_moved += 1;
                    }
                }
                assert_eq!(other_moved, 0);
            }
        }
    }
}

#[test]
fn average_of_identical_population_is_that_genome() {
    let g = Gene::new(&params(3, 4, 9, 5, 6)).unwrap();
    let genes = vec![g.clone(), g.clone(), g.clone()];
    let avg = Gene::make_average_gene(&genes).unwrap();
    assert_eq!(avg.raw_values(), g.raw_values());
}

#[test]
fn average_truncates_component_means() {
    let g1 = Gene::new(&params(2, 2, 4, 2, 2)).unwrap();
    let g2 = Gene::new(&params(5, 5, 10, 5, 5)).unwrap();
    let avg = Gene::make_average_gene(&vec![g1, g2]).unwrap();
    // Component sums are 7 (and 2 + 5 = 7 for the slow distance), so
    // the truncated means are all 3.
    assert_eq!(avg.raw_values(), &vec![3, 3, 3, 3, 3]);
}

#[test]
fn average_of_empty_population_is_refused() {
    let r = Gene::make_average_gene(&vec![]);
    assert!(matches!(
        r,
        Err(forecast_training::error::MyError::ArrayIsEmpty { .. })
    ));
}

#[test]
fn similarity_is_scaled_euclidean_distance() {
    let g1 = Gene::new(&params(2, 2, 4, 2, 2)).unwrap();
    let g2 = Gene::new(&params(2, 2, 4, 2, 4)).unwrap();
    // The vectors differ in one component by 2: distance 2.000.
    assert_eq!(g1.calc_similarity(&g2), 2 * SIM_SCALE);
    let g3 = Gene::new(&params(3, 3, 6, 3, 3)).unwrap();
    // All five components differ by 1: distance sqrt(5) = 2.236...
    assert_eq!(g1.calc_similarity(&g3), 2236);
    assert_eq!(g1.calc_similarity(&g1), 0);
}

#[test]
fn diversity_is_zero_exactly_for_identical_populations() {
    let g = Gene::new(&params(3, 4, 9, 5, 6)).unwrap();
    let same = vec![g.clone(), g.clone(), g.clone(), g.clone()];
    assert_eq!(Gene::calc_similarity_average(&same).unwrap(), 0);

    let other = Gene::new(&params(3, 4, 9, 5, 10)).unwrap();
    let mixed = vec![g.clone(), g.clone(), g.clone(), other];
    assert!(Gene::calc_similarity_average(&mixed).unwrap() > 0);
}

#[test]
fn roulette_walk_follows_the_documented_weighting() {
    // Weights 0.0 and 1.0: the total is (1 - 0.0) + (1 - 1.0) = 1, and
    // the walk accumulates the raw weights, so index 0 is reached only
    // by a border of exactly zero; every other border lands on index 1.
    let weights = vec![0u64, FP_ONE];
    assert_eq!(Gene::select_index_for_border(&weights, 0), 0);
    assert_eq!(Gene::select_index_for_border(&weights, 1), 1);
    assert_eq!(Gene::select_index_for_border(&weights, FP_ONE / 2), 1);
    assert_eq!(Gene::select_index_for_border(&weights, FP_ONE - 1), 1);
}

#[test]
fn roulette_distribution_over_many_draws_favours_the_high_raw_weight() {
    let weights = vec![0u64, FP_ONE];
    let mut rng = rng_from_seed(23);
    let mut counts = [0usize; 2];
    for _ in 0..1000 {
        let i = Gene::select_index_roulette(&weights, &mut rng).unwrap();
        counts[i] += 1;
    }
    // Index 0 needs a border draw of exactly 0, a one-in-a-million
    // event; the literal weighting sends essentially every draw to
    // index 1, not the "intuitive" inverse weighting.
    assert!(counts[1] >= 990);
}

#[test]
fn roulette_defaults_to_first_index_when_walk_never_reaches_border() {
    // All weights zero: the walk accumulates nothing and falls back to
    // index 0 for any positive border.
    let weights = vec![0u64, 0u64, 0u64];
    assert_eq!(Gene::select_index_for_border(&weights, 1), 0);
    // A non-positive normalising total also falls back to index 0.
    let heavy = vec![FP_ONE, FP_ONE];
    assert_eq!(Gene::select_index_for_border(&heavy, 500_000), 0);
}

#[test]
fn roulette_picks_middle_index_for_middle_border() {
    // Weights 0.2, 0.2, 0.2: total = 3 - 0.6 = 2.4; cumulative raw
    // shares are 1/12, 2/12, 3/12 of the total.  A border of 0.1
    // exceeds 1/12 and is reached at index 1.
    let w = FP_ONE / 5;
    let weights = vec![w, w, w];
    assert_eq!(Gene::select_index_for_border(&weights, FP_ONE / 10), 1);
    // A border below 1/12 is reached at once.
    assert_eq!(Gene::select_index_for_border(&weights, FP_ONE / 20), 0);
    // A border above 1/4 is never reached; the walk falls back to 0.
    assert_eq!(Gene::select_index_for_border(&weights, FP_ONE / 2), 0);
}

#[test]
fn gene_index_selection_is_uniformly_in_range() {
    let g = Gene::new(&params(3, 4, 9, 5, 6)).unwrap();
    let genes = vec![g.clone(), g.clone(), g.clone()];
    let mut rng = rng_from_seed(29);
    for _ in 0..100 {
        let i = Gene::select_gene_index_random(&genes, &mut rng).unwrap();
        assert!(i < 3);
    }
}

#[test]
fn seeded_generators_repeat_their_draws() {
    let config = test_config();
    let mut rng1 = rng_from_seed(42);
    let mut rng2 = rng_from_seed(42);
    let g1 = Gene::new_random_gene(&config, &mut rng1).unwrap();
    let g2 = Gene::new_random_gene(&config, &mut rng2).unwrap();
    assert_eq!(g1.raw_values(), g2.raw_values());
}

#[test]
fn random_draws_actually_vary() {
    let config = test_config();
    let mut rng = rng_from_seed(71);
    let mut seen = std::collections::BTreeSet::new();
    for _ in 0..200 {
        let g = Gene::new_random_gene(&config, &mut rng).unwrap();
        seen.insert(g.raw_values()[1]);
    }
    // A uniform draw over [2, 10] must produce more than one value in
    // two hundred tries.
    assert!(seen.len() > 1);
}
