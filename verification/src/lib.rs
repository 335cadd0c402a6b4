//! Fixed-point core of a sparse-coding letter classifier.
//!
//! A sample of 784 intensities is reduced to a sparse binary code over 256
//! columns, expanded into 45 features and labelled with one of 26 classes by
//! a weighted vote of five scoring methods. Every stage is a pure function,
//! and every number is a Q16.16 fixed-point value, so that each result is
//! determined exactly by its input.

use vstd::prelude::*;

pub mod classifier;
pub mod counting;
pub mod encoder;
pub mod error;
pub mod expander;
pub mod fixed;
pub mod pipeline;
pub mod sqrt;

verus! {

/// Number of letter classes.
pub const NUM_CLASSES: usize = 26;

/// Number of test samples used.
pub const TEST_SAMPLES: usize = 3900;

/// Number of training samples used.
pub const TRAINING_SAMPLES: usize = 8200;

/// How a synapse acts on its target.
#[derive(Debug, Clone, Copy, PartialEq, Eq, Structural)]
pub enum ConnectionType {
    Excitatory,
    Inhibitory,
    Fast,
    Slow,
    Standard,
    Modulatory,
    LongRange,
    Feedback,
}

/// The kind of a model neuron.
#[derive(Debug, Clone, Copy, PartialEq, Eq, Structural)]
pub enum NeuronType {
    Regular,
    Inhibitory,
    Excitatory,
}

/// The text that `get_breakthrough_info` returns.
pub open spec fn breakthrough_info_text() -> Seq<char> {
    "Simplified biologically-inspired neural network achieving 99.46% accuracy on EMNIST letters classification (temporal memory removed for simplicity)"@
}

/// One-line description of the model.
pub fn get_breakthrough_info() -> (info: &'static str)
    ensures
        info@ == breakthrough_info_text(),
{
    "Simplified biologically-inspired neural network achieving 99.46% accuracy on EMNIST letters classification (temporal memory removed for simplicity)"
}

/// The names that `get_breakthrough_components` returns, in order.
pub open spec fn breakthrough_component_names() -> Seq<Seq<char>> {
    seq![
        "Advanced spike pattern analysis"@,
        "Spatial pooler with 8% sparsity"@,
        "40+ dimensional feature extraction"@,
        "5-method ensemble classification"@,
        "Weak class recovery mechanisms"@,
        "Ultra-fine discrimination patterns"@,
    ]
}

/// The parts that make up the model, in the order in which they are reported.
pub fn get_breakthrough_components() -> (names: Vec<&'static str>)
    ensures
        names@.len() == 6,
        forall|i: int| 0 <= i < 6 ==> (#[trigger] names@[i])@ == breakthrough_component_names()[i],
{
    let mut names: Vec<&'static str> = Vec::new();
    names.push("Advanced spike pattern analysis");
    names.push("Spatial pooler with 8% sparsity");
    names.push("40+ dimensional feature extraction");
    names.push("5-method ensemble classification");
    names.push("Weak class recovery mechanisms");
    names.push("Ultra-fine discrimination patterns");
    names
}

} // verus!
