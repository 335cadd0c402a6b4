use rust_spike_model_emnist::fixed::{Fixed, SCALE};
use rust_spike_model_emnist::sqrt::isqrt;
use rust_spike_model_emnist::{
    get_breakthrough_components, get_breakthrough_info, ConnectionType, NeuronType, NUM_CLASSES,
    TEST_SAMPLES, TRAINING_SAMPLES,
};

#[test]
fn breakthrough_info_names_the_model() {
    assert_eq!(
        get_breakthrough_info(),
        "Simplified biologically-inspired neural network achieving 99.46% accuracy on EMNIST letters classification (temporal memory removed for simplicity)"
    );
}

#[test]
fn breakthrough_components_are_listed_in_order() {
    assert_eq!(
        get_breakthrough_components(),
        vec![
            "Advanced spike pattern analysis",
            "Spatial pooler with 8% sparsity",
            "40+ dimensional feature extraction",
            "5-method ensemble classification",
            "Weak class recovery mechanisms",
            "Ultra-fine discrimination patterns",
        ]
    );
}

#[test]
fn sample_and_class_counts() {
    assert_eq!(NUM_CLASSES, 26);
    assert_eq!(TEST_SAMPLES, 3900);
    assert_eq!(TRAINING_SAMPLES, 8200);
}

#[test]
fn connection_and_neuron_types_compare_by_variant() {
    assert_eq!(ConnectionType::Excitatory, ConnectionType::Excitatory.clone());
    assert_ne!(ConnectionType::Excitatory, ConnectionType::Inhibitory);
    assert_ne!(ConnectionType::Fast, ConnectionType::Slow);
    assert_ne!(ConnectionType::Standard, ConnectionType::Modulatory);
    assert_ne!(ConnectionType::LongRange, ConnectionType::Feedback);
    let kind = NeuronType::Regular;
    let copy = kind;
    assert_eq!(kind, copy);
    assert_ne!(NeuronType::Inhibitory, NeuronType::Excitatory);
    assert_eq!(format!("{:?}", NeuronType::Inhibitory), "Inhibitory");
    assert_eq!(format!("{:?}", ConnectionType::LongRange), "LongRange");
}

#[test]
fn fixed_from_int_is_exact() {
    assert_eq!(SCALE, 65536);
    assert_eq!(Fixed::from_int(0), Fixed { raw: 0 });
    assert_eq!(Fixed::from_int(1), Fixed { raw: 65536 });
    assert_eq!(Fixed::from_int(-3), Fixed { raw: -196608 });
    assert_eq!(Fixed::from_int(i16::MAX), Fixed { raw: 2147418112 });
    assert_eq!(Fixed::from_int(i16::MIN), Fixed { raw: i32::MIN });
}

#[test]
fn isqrt_rounds_down() {
    assert_eq!(isqrt(0), 0);
    assert_eq!(isqrt(1), 1);
    assert_eq!(isqrt(2), 1);
    assert_eq!(isqrt(3), 1);
    assert_eq!(isqrt(4), 2);
    assert_eq!(isqrt(15), 3);
    assert_eq!(isqrt(16), 4);
    assert_eq!(isqrt(17), 4);
    assert_eq!(isqrt(20 << 32), 293085);
    assert_eq!(isqrt(999_999_999_999), 999_999);
    assert_eq!(isqrt(1_000_000_000_000), 1_000_000);
    assert_eq!(isqrt((u64::MAX as u128) * (u64::MAX as u128)), u64::MAX);
    assert_eq!(isqrt((u64::MAX as u128) * (u64::MAX as u128) - 1), u64::MAX - 1);
    assert_eq!(isqrt(u128::MAX), u64::MAX);
}
