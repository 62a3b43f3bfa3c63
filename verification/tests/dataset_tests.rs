use forecast_training::config::Config;
use forecast_training::dataset::{build_input_data, train_test_split, InputDataLoader};
use forecast_training::error::MyError;
use forecast_training::math::FP_ONE;
use forecast_training::rng::rng_from_seed;

fn window_config() -> Config {
    Config {
        forecast_input_size: 6,
        forecast_offset_minutes: 1,
        currency_pair: "usdjpy".to_string(),
        forecast_model_no: 0,
        training_model_no: 1,
        training_model_count: 4,
        generation_count: 10,
        training_data_required_count: 3,
        test_data_required_count: 2,
        crossover_rate: 300_000,
        mutation_rate: 200_000,
    }
}

#[test]
fn windows_are_cut_every_five_samples_with_their_labels() {
    let config = window_config();
    // Twenty distinct samples; windows of six may start at offsets 0,
    // 5 and 10: the label of the window at 15 would sit at index 21.
    let rates: Vec<u64> = (0..20).map(|i| 1000 + i * 10).collect();
    let (x, y) = build_input_data(&rates, &config);
    assert_eq!(x.len(), 3);
    assert_eq!(y.len(), 3);
    assert_eq!(x[0], rates[0..6].to_vec());
    assert_eq!(x[1], rates[5..11].to_vec());
    assert_eq!(x[2], rates[10..16].to_vec());
    // Each label sits one sample past the window's end.
    assert_eq!(y[0], rates[6]);
    assert_eq!(y[1], rates[11]);
    assert_eq!(y[2], rates[16]);
}

#[test]
fn flat_windows_are_dropped() {
    let config = window_config();
    // A constant history: in every window all samples but the first
    // repeat their predecessor, which is more than half of six.
    let rates: Vec<u64> = vec![7; 20];
    let (x, y) = build_input_data(&rates, &config);
    assert!(x.is_empty());
    assert!(y.is_empty());
}

#[test]
fn half_flat_windows_are_kept() {
    let config = window_config();
    // Alternating samples never repeat their predecessor.
    let rates: Vec<u64> = (0..20).map(|i| if i % 2 == 0 { 5 } else { 9 }).collect();
    let (x, _y) = build_input_data(&rates, &config);
    assert_eq!(x.len(), 3);
}

#[test]
fn short_histories_yield_no_windows() {
    let config = window_config();
    let rates: Vec<u64> = (0..6).collect();
    let (x, y) = build_input_data(&rates, &config);
    assert!(x.is_empty());
    assert!(y.is_empty());
}

#[test]
fn loader_refuses_too_small_datasets() {
    let config = window_config();
    let loader = InputDataLoader { config };
    // Only three windows fit, but ten are required for training.
    let mut config2 = window_config();
    config2.training_data_required_count = 10;
    let strict = InputDataLoader { config: config2 };
    let rates: Vec<u64> = (0..20).map(|i| 1000 + i * 10).collect();

    let ok = loader.load_training_data(&rates);
    assert!(ok.is_ok());

    let refused = strict.load_training_data(&rates);
    assert!(matches!(
        refused,
        Err(MyError::InputDataIsTooLittle { count: 3, require: 10 })
    ));
}

#[test]
fn loader_accepts_test_data_over_its_own_floor() {
    let config = window_config();
    let loader = InputDataLoader { config };
    let rates: Vec<u64> = (0..20).map(|i| 1000 + i * 10).collect();
    let (x, y) = loader.load_test_data(&rates).unwrap();
    assert_eq!(x.len(), 3);
    assert_eq!(y.len(), 3);
}

#[test]
fn split_with_full_ratio_sends_every_row_to_the_test_side() {
    let x: Vec<Vec<u64>> = (0..10).map(|i| vec![i]).collect();
    let y: Vec<u64> = (0..10).map(|i| 100 + i).collect();
    let mut rng = rng_from_seed(61);
    let (train_x, test_x, train_y, test_y) =
        train_test_split(&x, &y, FP_ONE, &mut rng).unwrap();
    assert!(train_x.is_empty());
    assert!(train_y.is_empty());
    assert_eq!(test_x, x);
    assert_eq!(test_y, y);
}

#[test]
fn split_partitions_rows_in_order_with_labels_aligned() {
    let x: Vec<Vec<u64>> = (0..50).map(|i| vec![i]).collect();
    let y: Vec<u64> = (0..50).map(|i| 100 + i).collect();
    let mut rng = rng_from_seed(67);
    let (train_x, test_x, train_y, test_y) =
        train_test_split(&x, &y, FP_ONE / 2, &mut rng).unwrap();
    assert_eq!(train_x.len() + test_x.len(), 50);
    assert_eq!(train_x.len(), train_y.len());
    assert_eq!(test_x.len(), test_y.len());
    // Every row keeps its own label, and each side keeps the original
    // order.
    for (row, label) in train_x.iter().zip(train_y.iter()) {
        assert_eq!(row[0] + 100, *label);
    }
    for (row, label) in test_x.iter().zip(test_y.iter()) {
        assert_eq!(row[0] + 100, *label);
    }
    for w in train_x.windows(2) {
        assert!(w[0][0] < w[1][0]);
    }
    for w in test_x.windows(2) {
        assert!(w[0][0] < w[1][0]);
    }
    // Together the two sides hold every row exactly once.
    let mut seen = vec![false; 50];
    for row in train_x.iter().chain(test_x.iter()) {
        let i = row[0] as usize;
        assert!(!seen[i]);
        seen[i] = true;
    }
    assert!(seen.iter().all(|&s| s));
}

#[test]
fn split_with_almost_full_ratio_also_sends_every_row_to_the_test_side() {
    // Every draw lies below FP_ONE, so a ratio of FP_ONE - 1 is already
    // at or above every possible draw.
    let x: Vec<Vec<u64>> = (0..10).map(|i| vec![i]).collect();
    let y: Vec<u64> = (0..10).map(|i| 100 + i).collect();
    let mut rng = rng_from_seed(83);
    let (train_x, test_x, train_y, test_y) =
        train_test_split(&x, &y, FP_ONE - 1, &mut rng).unwrap();
    assert!(train_x.is_empty());
    assert!(train_y.is_empty());
    assert_eq!(test_x, x);
    assert_eq!(test_y, y);
}
