//! The three stages over batches, and their composition.
//!
//! Each batch function applies its stage to every sample on its own and
//! keeps the order of the batch: entry `i` of the result belongs to entry
//! `i` of the input, and depends on nothing else. A batch with a vector of
//! the wrong length is refused as a whole.

use vstd::prelude::*;
use crate::classifier::{classify, ensemble_label, lemma_label_in_range, lemma_zero_features_label};
use crate::counting::{count_true, lemma_count_leading};
use crate::encoder::{
    encode, lemma_nonpositive_input_is_silent, lemma_uniform_input_code, sparse_code,
    ACTIVE_COLUMNS, COLUMN_COUNT, FLOOR_DIVISOR, INPUT_LEN,
};
use crate::error::PipelineError;
use crate::expander::{expand, features, lemma_silent_code_features, FEATURE_LEN};
use crate::fixed::{raws, Fixed, SCALE};
use crate::NUM_CLASSES;

verus! {

/// The label that the whole pipeline gives to one raw input vector, given in
/// raw units.
pub open spec fn pipeline_label(input: Seq<int>) -> int {
    ensemble_label(features(sparse_code(input)))
}

/// The error with which the classifier refuses a vector of length `len`.
pub open spec fn refusal(len: nat) -> PipelineError {
    if len == 0 {
        PipelineError::InvalidInput
    } else {
        PipelineError::InvalidInputLength
    }
}

/// Every label of the pipeline lies in `[0, 26)`.
pub proof fn lemma_pipeline_label_in_range(input: Seq<int>)
    ensures
        0 <= pipeline_label(input) < NUM_CLASSES,
{
    lemma_label_in_range(features(sparse_code(input)));
}

/// Whether `labels` holds, place by place, the label of each sample of
/// `inputs`.
pub open spec fn labels_fit(inputs: Seq<Vec<Fixed>>, labels: Seq<usize>) -> bool {
    &&& labels.len() == inputs.len()
    &&& forall|i: int|
        0 <= i < labels.len() ==> #[trigger] labels[i] == pipeline_label(raws(inputs[i]@))
}

/// The pipeline is deterministic: a batch has one labelling. Whatever two
/// runs return on it, on one thread or on many, they return the same labels.
pub proof fn lemma_labelling_is_unique(inputs: Seq<Vec<Fixed>>, first: Seq<usize>, second: Seq<usize>)
    requires
        labels_fit(inputs, first),
        labels_fit(inputs, second),
    ensures
        first == second,
{
    assert(first =~= second);
}

/// A label belongs to its sample alone: equal samples get equal labels,
/// wherever they stand and whatever else their batches hold.
pub proof fn lemma_label_follows_sample(
    a: Seq<Vec<Fixed>>,
    labels_a: Seq<usize>,
    i: int,
    b: Seq<Vec<Fixed>>,
    labels_b: Seq<usize>,
    j: int,
)
    requires
        labels_fit(a, labels_a),
        labels_fit(b, labels_b),
        0 <= i < a.len(),
        0 <= j < b.len(),
        raws(a[i]@) == raws(b[j]@),
    ensures
        labels_a[i] == labels_b[j],
{
}

/// An input without a positive entry, the all-zero input among them, is
/// labelled zero: its sparse representation has no active column, and its
/// features are zero throughout.
pub proof fn lemma_nonpositive_input_label(input: Seq<int>)
    requires
        forall|i: int| 0 <= i < input.len() ==> input[i] <= 0,
    ensures
        count_true(sparse_code(input)) == 0,
        pipeline_label(input) == 0,
{
    lemma_nonpositive_input_is_silent(input);
    lemma_silent_code_features(sparse_code(input));
    lemma_zero_features_label(features(sparse_code(input)));
}

/// A uniform input whose entries exceed the activation floor has the first
/// `ACTIVE_COLUMNS` columns active and no other, so the mean of its sparse
/// representation, the first feature, is 20/256.
pub proof fn lemma_uniform_input_mean(input: Seq<int>, value: int)
    requires
        input.len() == INPUT_LEN,
        forall|i: int| 0 <= i < input.len() ==> input[i] == value,
        FLOOR_DIVISOR * value > SCALE,
    ensures
        forall|c: int| 0 <= c < COLUMN_COUNT ==> sparse_code(input)[c] == (c < ACTIVE_COLUMNS),
        count_true(sparse_code(input)) == ACTIVE_COLUMNS,
        features(sparse_code(input))[0] * COLUMN_COUNT == ACTIVE_COLUMNS * SCALE,
{
    lemma_uniform_input_code(input, value);
    lemma_count_leading(sparse_code(input), ACTIVE_COLUMNS as int, COLUMN_COUNT as int);
}

/// Encodes every raw input vector of a batch.
///
/// The batch is refused if any of its vectors has a length other than
/// `INPUT_LEN`.
pub fn encode_batch(inputs: &Vec<Vec<Fixed>>) -> (result: Result<Vec<Vec<bool>>, PipelineError>)
    ensures
        match result {
            Ok(codes) => {
                &&& codes@.len() == inputs@.len()
                &&& forall|i: int| 0 <= i < inputs@.len() ==> (#[trigger] inputs@[i])@.len() == INPUT_LEN
                &&& forall|i: int|
                    0 <= i < codes@.len() ==> {
                        &&& (#[trigger] codes@[i])@ == sparse_code(raws(inputs@[i]@))
                        &&& codes@[i]@.len() == COLUMN_COUNT
                        &&& count_true(codes@[i]@) <= ACTIVE_COLUMNS
                    }
            },
            Err(e) => {
                &&& e == PipelineError::InvalidInputLength
                &&& exists|i: int| 0 <= i < inputs@.len() && (#[trigger] inputs@[i])@.len() != INPUT_LEN
            },
        },
{
    let mut codes: Vec<Vec<bool>> = Vec::new();
    let mut i: usize = 0;
    while i < inputs.len()
        invariant
            i <= inputs@.len(),
            codes@.len() == i,
            forall|j: int| 0 <= j < i ==> (#[trigger] inputs@[j])@.len() == INPUT_LEN,
            forall|j: int|
                0 <= j < i ==> {
                    &&& (#[trigger] codes@[j])@ == sparse_code(raws(inputs@[j]@))
                    &&& codes@[j]@.len() == COLUMN_COUNT
                    &&& count_true(codes@[j]@) <= ACTIVE_COLUMNS
                },
        decreases inputs@.len() - i,
    {
        match encode(&inputs[i]) {
            Ok(code) => {
                codes.push(code);
            },
            Err(e) => {
                return Err(e);
            },
        }
        i += 1;
    }
    Ok(codes)
}

/// Expands every sparse representation of a batch.
///
/// The batch is refused if any of its codes has a length other than
/// `COLUMN_COUNT`.
pub fn expand_batch(codes: &Vec<Vec<bool>>) -> (result: Result<Vec<Vec<Fixed>>, PipelineError>)
    ensures
        match result {
            Ok(vectors) => {
                &&& vectors@.len() == codes@.len()
                &&& forall|i: int| 0 <= i < codes@.len() ==> (#[trigger] codes@[i])@.len() == COLUMN_COUNT
                &&& forall|i: int|
                    0 <= i < vectors@.len() ==> {
                        &&& raws((#[trigger] vectors@[i])@) == features(codes@[i]@)
                        &&& vectors@[i]@.len() == FEATURE_LEN
                    }
            },
            Err(e) => {
                &&& e == PipelineError::InvalidInputLength
                &&& exists|i: int| 0 <= i < codes@.len() && (#[trigger] codes@[i])@.len() != COLUMN_COUNT
            },
        },
{
    let mut vectors: Vec<Vec<Fixed>> = Vec::new();
    let mut i: usize = 0;
    while i < codes.len()
        invariant
            i <= codes@.len(),
            vectors@.len() == i,
            forall|j: int| 0 <= j < i ==> (#[trigger] codes@[j])@.len() == COLUMN_COUNT,
            forall|j: int|
                0 <= j < i ==> {
                    &&& raws((#[trigger] vectors@[j])@) == features(codes@[j]@)
                    &&& vectors@[j]@.len() == FEATURE_LEN
                },
        decreases codes@.len() - i,
    {
        match expand(&codes[i]) {
            Ok(values) => {
                vectors.push(values);
            },
            Err(e) => {
                return Err(e);
            },
        }
        i += 1;
    }
    Ok(vectors)
}

/// Classifies every feature vector of a batch.
///
/// The batch is refused if any of its vectors has a length other than
/// `FEATURE_LEN`, with the error of the first such vector: invalid input
/// for an empty one, invalid length for any other.
pub fn classify_batch(vectors: &Vec<Vec<Fixed>>) -> (result: Result<Vec<usize>, PipelineError>)
    ensures
        match result {
            Ok(labels) => {
                &&& labels@.len() == vectors@.len()
                &&& forall|i: int| 0 <= i < vectors@.len() ==> (#[trigger] vectors@[i])@.len() == FEATURE_LEN
                &&& forall|i: int|
                    0 <= i < labels@.len() ==> {
                        &&& #[trigger] labels@[i] == ensemble_label(raws(vectors@[i]@))
                        &&& labels@[i] < NUM_CLASSES
                    }
            },
            Err(e) => exists|i: int|
                {
                    &&& 0 <= i < vectors@.len()
                    &&& (#[trigger] vectors@[i])@.len() != FEATURE_LEN
                    &&& e == refusal(vectors@[i]@.len())
                    &&& forall|j: int| 0 <= j < i ==> (#[trigger] vectors@[j])@.len() == FEATURE_LEN
                },
        },
{
    let mut labels: Vec<usize> = Vec::new();
    let mut i: usize = 0;
    while i < vectors.len()
        invariant
            i <= vectors@.len(),
            labels@.len() == i,
            forall|j: int| 0 <= j < i ==> (#[trigger] vectors@[j])@.len() == FEATURE_LEN,
            forall|j: int|
                0 <= j < i ==> {
                    &&& #[trigger] labels@[j] == ensemble_label(raws(vectors@[j]@))
                    &&& labels@[j] < NUM_CLASSES
                },
        decreases vectors@.len() - i,
    {
        match classify(&vectors[i]) {
            Ok(label) => {
                labels.push(label);
            },
            Err(e) => {
                return Err(e);
            },
        }
        i += 1;
    }
    Ok(labels)
}

/// Runs the three stages in sequence over a batch of raw input vectors.
///
/// The batch is refused if any of its vectors has a length other than
/// `INPUT_LEN`; later stages cannot fail on what the earlier ones hand them.
pub fn run_pipeline(inputs: &Vec<Vec<Fixed>>) -> (result: Result<Vec<usize>, PipelineError>)
    ensures
        match result {
            Ok(labels) => {
                &&& forall|i: int| 0 <= i < inputs@.len() ==> (#[trigger] inputs@[i])@.len() == INPUT_LEN
                &&& labels_fit(inputs@, labels@)
                &&& forall|i: int| 0 <= i < labels@.len() ==> #[trigger] labels@[i] < NUM_CLASSES
            },
            Err(e) => {
                &&& e == PipelineError::InvalidInputLength
                &&& exists|i: int| 0 <= i < inputs@.len() && (#[trigger] inputs@[i])@.len() != INPUT_LEN
            },
        },
{
    let codes = match encode_batch(inputs) {
        Ok(codes) => codes,
        Err(e) => {
            return Err(e);
        },
    };
    let vectors = match expand_batch(&codes) {
        Ok(vectors) => vectors,
        Err(e) => {
            proof {
                let i = choose|i: int| 0 <= i < codes@.len() && (#[trigger] codes@[i])@.len() != COLUMN_COUNT;
                assert(inputs@[i]@.len() == INPUT_LEN);
            }
            return Err(e);
        },
    };
    let labels = match classify_batch(&vectors) {
        Ok(labels) => labels,
        Err(e) => {
            proof {
                let i = choose|i: int|
                    0 <= i < vectors@.len() && (#[trigger] vectors@[i])@.len() != FEATURE_LEN;
                assert(codes@[i]@.len() == COLUMN_COUNT);
            }
            return Err(e);
        },
    };
    proof {
        assert forall|i: int| 0 <= i < labels@.len() implies #[trigger] labels@[i]
            == pipeline_label(raws(inputs@[i]@)) by {
            assert(codes@[i]@ == sparse_code(raws(inputs@[i]@)));
            assert(raws(vectors@[i]@) == features(codes@[i]@));
        }
    }
    Ok(labels)
}

} // verus!
