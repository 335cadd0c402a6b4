use rust_spike_model_emnist::classifier::{classify, elect, method_classes, METHOD_COUNT};
use rust_spike_model_emnist::error::PipelineError;
use rust_spike_model_emnist::expander::FEATURE_LEN;
use rust_spike_model_emnist::fixed::Fixed;
use rust_spike_model_emnist::NUM_CLASSES;

fn leading(first: i32) -> Vec<Fixed> {
    let mut features = vec![Fixed { raw: 0 }; FEATURE_LEN];
    features[0] = Fixed { raw: first };
    features
}

fn from_raw(raw: &[i32]) -> Vec<Fixed> {
    raw.iter().map(|&r| Fixed { raw: r }).collect()
}

#[test]
fn method_classes_of_one_half() {
    // Sum 0.5, peak 0.5, squares 0.25, mean 0.5 / 45, norm 0.5.
    assert_eq!(method_classes(&leading(32768)), [13, 13, 6, 0, 13]);
    assert_eq!(classify(&leading(32768)), Ok(13));
}

#[test]
fn method_classes_round_negative_scores_down() {
    // Sum -0.5 gives floor(-13) mod 26; the peak is one of the zeros; the
    // mean -0.5 / 45 gives floor(-0.29) mod 26.
    assert_eq!(method_classes(&leading(-32768)), [13, 0, 6, 25, 13]);
    assert_eq!(method_classes(&leading(-1)), [25, 0, 0, 25, 0]);
}

#[test]
fn method_classes_turn_over_at_whole_scores() {
    assert_eq!(method_classes(&leading(65535)), [25, 25, 25, 0, 25]);
    assert_eq!(method_classes(&leading(65536)), [0, 0, 0, 0, 0]);
    assert_eq!(method_classes(&leading(65537)), [0, 0, 0, 0, 0]);
    assert_eq!(method_classes(&leading(1)), [0, 0, 0, 0, 0]);
}

#[test]
fn method_classes_at_the_ends_of_the_range() {
    assert_eq!(method_classes(&leading(i32::MAX)), [25, 25, 0, 4, 25]);
    assert_eq!(method_classes(&leading(i32::MIN)), [0, 0, 0, 21, 0]);
    assert_eq!(method_classes(&vec![Fixed { raw: i32::MAX }; FEATURE_LEN]), [25, 25, 0, 25, 11]);
    assert_eq!(method_classes(&vec![Fixed { raw: i32::MIN }; FEATURE_LEN]), [0, 0, 0, 0, 11]);
    assert_eq!(classify(&vec![Fixed { raw: i32::MAX }; FEATURE_LEN]), Ok(25));
    assert_eq!(classify(&vec![Fixed { raw: i32::MIN }; FEATURE_LEN]), Ok(0));
}

#[test]
fn method_classes_of_a_mixed_vector() {
    let raw: Vec<i32> = (0..45i64).map(|i| ((i * 7919 * 65536 / 45) % (3 * 65536) - 65536) as i32).collect();
    assert_eq!(&raw[..5], &[-65536, 64079, -2913, 126702, 59710]);
    let features = from_raw(&raw);
    assert_eq!(method_classes(&features), [25, 24, 21, 11, 16]);
    assert_eq!(classify(&features), Ok(25));
}

#[test]
fn method_classes_of_the_first_twenty_columns() {
    let mut raw = vec![5120, 293085, 1310720, 12451840, 262144, 65536, 1310720, 655360];
    raw.resize(FEATURE_LEN, 0);
    let features = from_raw(&raw);
    assert_eq!(method_classes(&features), [14, 0, 0, 14, 11]);
    // Classes 0 and 14 both gather 4.5; the lower index wins.
    assert_eq!(classify(&features), Ok(0));
}

#[test]
fn elect_adds_the_weights_of_agreeing_methods() {
    assert_eq!(elect(&[1, 2, 3, 4, 5]), 1);
    assert_eq!(elect(&[1, 2, 2, 3, 3]), 2);
    assert_eq!(elect(&[9, 4, 4, 9, 4]), 4);
    assert_eq!(elect(&[25, 25, 25, 25, 25]), 25);
}

#[test]
fn elect_ties_go_to_the_lower_class() {
    assert_eq!(elect(&[14, 0, 0, 14, 11]), 0);
    assert_eq!(elect(&[0, 14, 14, 0, 11]), 0);
    assert_eq!(elect(&[7, 9, 2, 8, 2]), 2);
    assert_eq!(elect(&[2, 9, 7, 8, 7]), 2);
    assert_eq!(elect(&[3, 1, 3, 1, 1]), 1);
}

#[test]
fn elect_skips_votes_outside_the_alphabet() {
    assert_eq!(elect(&[30, 30, 30, 30, 4]), 4);
    assert_eq!(elect(&[26, 27, 100, 1000, 99999]), 0);
    assert_eq!(elect(&[usize::MAX, 26, 3, 26, 26]), 3);
}

#[test]
fn classify_rejects_an_empty_vector_as_invalid_input() {
    assert_eq!(classify(&Vec::new()), Err(PipelineError::InvalidInput));
}

#[test]
fn classify_rejects_other_lengths() {
    for len in [1usize, 8, 44, 46, 256] {
        let features = vec![Fixed { raw: 65536 }; len];
        assert_eq!(classify(&features), Err(PipelineError::InvalidInputLength), "length {}", len);
    }
}

#[test]
fn classify_labels_stay_inside_the_alphabet() {
    let mut state: u64 = 0x2545_f491_4f6c_dd1d;
    for _ in 0..200 {
        let mut features = Vec::with_capacity(FEATURE_LEN);
        for _ in 0..FEATURE_LEN {
            state = state.wrapping_mul(6364136223846793005).wrapping_add(1442695040888963407);
            features.push(Fixed { raw: (state >> 32) as u32 as i32 });
        }
        let classes = method_classes(&features);
        assert_eq!(classes.len(), METHOD_COUNT);
        for class in classes {
            assert!(class < NUM_CLASSES);
        }
        let label = classify(&features).unwrap();
        assert!(label < NUM_CLASSES);
        assert_eq!(label, elect(&classes));
    }
}
