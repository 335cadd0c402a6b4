//! The ways in which a stage can refuse its input.

use vstd::prelude::*;

verus! {

/// Why a vector was refused.
#[derive(Debug, Clone, Copy, PartialEq, Eq, Structural)]
pub enum PipelineError {
    /// A vector does not have the length that its stage works on.
    InvalidInputLength,
    /// An empty feature vector reached the classifier.
    InvalidInput,
}

} // verus!
