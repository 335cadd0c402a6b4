use rayon::iter::{IntoParallelRefIterator, ParallelIterator};
use rust_spike_model_emnist::classifier::classify;
use rust_spike_model_emnist::encoder::{encode, ACTIVE_COLUMNS, COLUMN_COUNT, INPUT_LEN};
use rust_spike_model_emnist::error::PipelineError;
use rust_spike_model_emnist::expander::{expand, FEATURE_LEN};
use rust_spike_model_emnist::fixed::Fixed;
use rust_spike_model_emnist::pipeline::{classify_batch, encode_batch, expand_batch, run_pipeline};
use rust_spike_model_emnist::NUM_CLASSES;

fn uniform(raw: i32) -> Vec<Fixed> {
    vec![Fixed { raw }; INPUT_LEN]
}

fn by_residue(values: [i32; 4]) -> Vec<Fixed> {
    (0..INPUT_LEN).map(|i| Fixed { raw: values[i % 4] }).collect()
}

/// Intensities between zero and one, from a fixed seed. Every fourth sample
/// is dimmed so that some of them stay below the activation floor.
fn random_batch(samples: usize, seed: u64) -> Vec<Vec<Fixed>> {
    let mut state = seed;
    let mut batch = Vec::with_capacity(samples);
    for s in 0..samples {
        let mut input = Vec::with_capacity(INPUT_LEN);
        for _ in 0..INPUT_LEN {
            state = state.wrapping_mul(6364136223846793005).wrapping_add(1442695040888963407);
            let raw = ((state >> 33) % 65537) as i32;
            input.push(Fixed { raw: if s % 4 == 3 { raw / 8 } else { raw } });
        }
        batch.push(input);
    }
    batch
}

fn one_by_one(input: &Vec<Fixed>) -> usize {
    let code = encode(input).unwrap();
    let features = expand(&code).unwrap();
    classify(&features).unwrap()
}

fn varied_batch() -> Vec<Vec<Fixed>> {
    vec![
        uniform(0),
        uniform(32768),
        by_residue([13107, 58982, 13107, 13107]),
        by_residue([52429, 6553, 52429, 6553]),
        by_residue([13107, 13107, 58982, 13107]),
        by_residue([13107, 13107, 13107, 58982]),
        uniform(6553),
        uniform(6554),
    ]
}

#[test]
fn run_pipeline_labels_an_all_zero_input_zero() {
    let codes = encode_batch(&vec![uniform(0)]).unwrap();
    assert_eq!(codes, vec![vec![false; COLUMN_COUNT]]);
    assert_eq!(run_pipeline(&vec![uniform(0)]), Ok(vec![0]));
}

#[test]
fn run_pipeline_on_uniform_half() {
    let batch = vec![uniform(32768)];
    let codes = encode_batch(&batch).unwrap();
    let expected: Vec<bool> = (0..COLUMN_COUNT).map(|c| c < 20).collect();
    assert_eq!(codes[0], expected);
    let vectors = expand_batch(&codes).unwrap();
    assert_eq!(vectors[0][0].raw as f64 / 65536.0, 20.0 / 256.0);
    assert_eq!(run_pipeline(&batch), Ok(vec![0]));
    assert_eq!(run_pipeline(&batch), run_pipeline(&batch));
}

#[test]
fn run_pipeline_is_deterministic() {
    let batch = random_batch(40, 7);
    let first = run_pipeline(&batch).unwrap();
    let second = run_pipeline(&batch).unwrap();
    assert_eq!(first, second);
    let copy = batch.clone();
    assert_eq!(run_pipeline(&copy).unwrap(), first);
}

#[test]
fn run_pipeline_chains_the_three_stages() {
    let batch = varied_batch();
    let codes = encode_batch(&batch).unwrap();
    let vectors = expand_batch(&codes).unwrap();
    let labels = classify_batch(&vectors).unwrap();
    assert_eq!(run_pipeline(&batch), Ok(labels));
}

#[test]
fn batches_keep_the_order_of_their_samples() {
    let batch = varied_batch();
    let codes = encode_batch(&batch).unwrap();
    let vectors = expand_batch(&codes).unwrap();
    let labels = classify_batch(&vectors).unwrap();
    assert_eq!(codes.len(), batch.len());
    assert_eq!(vectors.len(), batch.len());
    assert_eq!(labels.len(), batch.len());
    for i in 0..batch.len() {
        assert_eq!(codes[i], encode(&batch[i]).unwrap());
        assert_eq!(vectors[i], expand(&codes[i]).unwrap());
        assert_eq!(labels[i], classify(&vectors[i]).unwrap());
    }

    let mut reversed = batch.clone();
    reversed.reverse();
    let mut reversed_codes = encode_batch(&reversed).unwrap();
    reversed_codes.reverse();
    assert_eq!(reversed_codes, codes);
    let mut reversed_labels = run_pipeline(&reversed).unwrap();
    reversed_labels.reverse();
    assert_eq!(reversed_labels, labels);
}

#[test]
fn batches_have_the_shapes_of_their_stages() {
    let batch = random_batch(24, 99);
    let codes = encode_batch(&batch).unwrap();
    for code in codes.iter() {
        assert_eq!(code.len(), COLUMN_COUNT);
        assert!(code.iter().filter(|&&on| on).count() <= ACTIVE_COLUMNS);
    }
    let vectors = expand_batch(&codes).unwrap();
    for features in vectors.iter() {
        assert_eq!(features.len(), FEATURE_LEN);
    }
    let labels = classify_batch(&vectors).unwrap();
    for &label in labels.iter() {
        assert!(label < NUM_CLASSES);
    }
    // The dimmed samples stay silent, the others do not.
    for (s, code) in codes.iter().enumerate() {
        let on = code.iter().filter(|&&on| on).count();
        assert_eq!(on, if s % 4 == 3 { 0 } else { 20 }, "sample {}", s);
    }
}

#[test]
fn parallel_and_sequential_runs_agree() {
    let batch = random_batch(1000, 2024);
    let sequential = run_pipeline(&batch).unwrap();
    let pool = rayon::ThreadPoolBuilder::new().num_threads(24).build().unwrap();
    let parallel: Vec<usize> = pool.install(|| batch.par_iter().map(one_by_one).collect());
    assert_eq!(parallel, sequential);
    let single = rayon::ThreadPoolBuilder::new().num_threads(1).build().unwrap();
    let alone: Vec<usize> = single.install(|| batch.par_iter().map(one_by_one).collect());
    assert_eq!(alone, sequential);
}

#[test]
fn empty_batches_pass_through() {
    assert_eq!(encode_batch(&Vec::new()), Ok(Vec::new()));
    assert_eq!(expand_batch(&Vec::new()), Ok(Vec::new()));
    assert_eq!(classify_batch(&Vec::new()), Ok(Vec::new()));
    assert_eq!(run_pipeline(&Vec::new()), Ok(Vec::new()));
}

#[test]
fn encode_batch_rejects_a_batch_with_a_wrong_length() {
    let batch = vec![uniform(32768), vec![Fixed { raw: 1 }; 783], uniform(0)];
    assert_eq!(encode_batch(&batch), Err(PipelineError::InvalidInputLength));
    assert_eq!(run_pipeline(&batch), Err(PipelineError::InvalidInputLength));
    assert_eq!(run_pipeline(&vec![Vec::new()]), Err(PipelineError::InvalidInputLength));
}

#[test]
fn expand_batch_rejects_a_batch_with_a_wrong_length() {
    let batch = vec![vec![false; COLUMN_COUNT], vec![false; COLUMN_COUNT + 1]];
    assert_eq!(expand_batch(&batch), Err(PipelineError::InvalidInputLength));
    assert_eq!(expand_batch(&vec![Vec::new()]), Err(PipelineError::InvalidInputLength));
}

#[test]
fn classify_batch_reports_the_first_refused_vector() {
    let good = vec![Fixed { raw: 65536 }; FEATURE_LEN];
    let short = vec![Fixed { raw: 65536 }; FEATURE_LEN - 1];
    let empty: Vec<Fixed> = Vec::new();
    assert_eq!(
        classify_batch(&vec![good.clone(), empty.clone(), short.clone()]),
        Err(PipelineError::InvalidInput)
    );
    assert_eq!(
        classify_batch(&vec![good.clone(), short.clone(), empty.clone()]),
        Err(PipelineError::InvalidInputLength)
    );
    assert_eq!(classify_batch(&vec![good.clone(), good]), Ok(vec![0, 0]));
}
