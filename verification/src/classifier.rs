//! The ensemble classifier: from 45 features to one of 26 class labels.
//!
//! Five methods each reduce the feature vector to a score and the score to a
//! class, `floor(score * 26) mod 26`. Each method then votes for its class
//! with a fixed weight, and the class with the heaviest tally wins, the
//! lowest index among equals.
//!
//! Scores are never rounded: a score is held as a ratio of integers, or as
//! the square root of one, and its class is computed exactly.

use vstd::prelude::*;
use vstd::arithmetic::div_mod::{lemma_fundamental_div_mod, lemma_fundamental_div_mod_converse};
use crate::error::PipelineError;
use crate::expander::FEATURE_LEN;
use crate::fixed::{raws, Fixed, SCALE};
use crate::sqrt::{floor_sqrt, isqrt, lemma_floor_sqrt, lemma_floor_sqrt_zero};
use crate::NUM_CLASSES;

verus! {

/// Number of scoring methods.
pub const METHOD_COUNT: usize = 5;

/// Sum of the first `n` entries.
pub open spec fn total_upto(values: Seq<int>, n: int) -> int
    decreases n,
{
    if n <= 0 {
        0
    } else {
        total_upto(values, n - 1) + values[n - 1]
    }
}

/// The largest of the first `n` entries, for `n` at least one.
pub open spec fn peak_upto(values: Seq<int>, n: int) -> int
    decreases n,
{
    if n <= 1 {
        values[0]
    } else if values[n - 1] > peak_upto(values, n - 1) {
        values[n - 1]
    } else {
        peak_upto(values, n - 1)
    }
}

/// Sum of the squares of the first `n` entries.
pub open spec fn energy_upto(values: Seq<int>, n: int) -> int
    decreases n,
{
    if n <= 0 {
        0
    } else {
        energy_upto(values, n - 1) + values[n - 1] * values[n - 1]
    }
}

/// The class of the score `num / den`, for a positive `den`:
/// `floor(score * 26) mod 26`.
pub open spec fn class_of_ratio(num: int, den: int) -> int {
    (NUM_CLASSES * num / den) % (NUM_CLASSES as int)
}

/// The class of the score `sqrt(square) / den`, for a positive `den`:
/// `floor(score * 26) mod 26`, the root being taken of the score times 26.
pub open spec fn class_of_root(square: int, den: int) -> int {
    (floor_sqrt((NUM_CLASSES * NUM_CLASSES * square) as nat) as int / den) % (NUM_CLASSES as int)
}

/// The class that method `m` derives from a feature vector given in raw
/// units. The scores are, in order: the sum of the entries, the largest
/// entry, the sum of their squares, their mean, and their Euclidean norm.
pub open spec fn method_class(values: Seq<int>, m: int) -> int {
    let n = values.len() as int;
    if m == 0 {
        class_of_ratio(total_upto(values, n), SCALE as int)
    } else if m == 1 {
        class_of_ratio(peak_upto(values, n), SCALE as int)
    } else if m == 2 {
        class_of_ratio(energy_upto(values, n), SCALE * SCALE)
    } else if m == 3 {
        class_of_ratio(total_upto(values, n), n * SCALE)
    } else {
        class_of_root(energy_upto(values, n), SCALE as int)
    }
}

/// The classes of all methods, by method index.
pub open spec fn method_classes_of(values: Seq<int>) -> Seq<int> {
    Seq::new(METHOD_COUNT as nat, |m: int| method_class(values, m))
}

/// The weight of method `m`'s vote in raw units: 3.0, 2.5, 2.0, 1.5 and 1.0.
pub open spec fn method_weight(m: int) -> int {
    if m == 0 {
        196608
    } else if m == 1 {
        163840
    } else if m == 2 {
        131072
    } else if m == 3 {
        98304
    } else {
        65536
    }
}

/// The weight that the first `n` methods give to `class`.
pub open spec fn tally_upto(votes: Seq<int>, class: int, n: int) -> int
    decreases n,
{
    if n <= 0 {
        0
    } else {
        tally_upto(votes, class, n - 1) + if votes[n - 1] == class {
            method_weight(n - 1)
        } else {
            0
        }
    }
}

/// The weight that all methods together give to `class`.
pub open spec fn tally(votes: Seq<int>, class: int) -> int {
    tally_upto(votes, class, METHOD_COUNT as int)
}

/// The class that leads among the first `n`: the first one, in ascending
/// order, whose tally no other of them exceeds.
pub open spec fn leader_upto(votes: Seq<int>, n: int) -> int
    decreases n,
{
    if n <= 1 {
        0
    } else if tally(votes, n - 1) > tally(votes, leader_upto(votes, n - 1)) {
        n - 1
    } else {
        leader_upto(votes, n - 1)
    }
}

/// The class that wins the vote.
pub open spec fn winner(votes: Seq<int>) -> int {
    leader_upto(votes, NUM_CLASSES as int)
}

/// Whether class `w` holds the lead: it lies in the alphabet, no class
/// holds a heavier tally, and none that holds the same tally has a lower
/// index.
pub open spec fn leads(votes: Seq<int>, w: int) -> bool {
    &&& 0 <= w < NUM_CLASSES
    &&& forall|c: int| 0 <= c < NUM_CLASSES ==> #[trigger] tally(votes, c) <= tally(votes, w)
    &&& forall|c: int|
        0 <= c < NUM_CLASSES && #[trigger] tally(votes, c) == tally(votes, w) ==> w <= c
}

/// The label of a feature vector given in raw units.
pub open spec fn ensemble_label(values: Seq<int>) -> int {
    winner(method_classes_of(values))
}

/// The votes as mathematical integers.
pub open spec fn vote_ints(votes: Seq<usize>) -> Seq<int> {
    Seq::new(votes.len(), |m: int| votes[m] as int)
}

/// Multiplying by `c`, rounding down and reducing modulo `c` keeps only the
/// fractional part of a ratio: `floor(c * num / den) mod c` is
/// `floor(c * (num mod den) / den)`.
pub proof fn lemma_scaled_floor(c: int, num: int, den: int)
    requires
        c > 0,
        den > 0,
    ensures
        (c * num / den) % c == (c * (num % den)) / den,
        0 <= (c * num / den) % c < c,
{
    let q = num / den;
    let r = num % den;
    lemma_fundamental_div_mod(num, den);
    let x = c * r;
    let y = x / den;
    let z = x % den;
    lemma_fundamental_div_mod(x, den);
    assert(c * num == (c * q + y) * den + z) by (nonlinear_arith)
        requires
            num == den * q + r,
            x == c * r,
            x == den * y + z,
    ;
    lemma_fundamental_div_mod_converse(c * num, den, c * q + y, z);
    assert(0 <= y < c) by (nonlinear_arith)
        requires
            x == c * r,
            0 <= r < den,
            x == den * y + z,
            0 <= z < den,
            c > 0,
    ;
    assert(c * q + y == q * c + y) by (nonlinear_arith);
    lemma_fundamental_div_mod_converse(c * q + y, c, q, y);
}

/// The remainder of a negative number, from that of its magnitude.
proof fn lemma_mod_of_negative(a: int, den: int)
    requires
        a >= 0,
        den > 0,
    ensures
        (-a) % den == if a % den == 0 { 0 } else { den - a % den },
{
    let q = a / den;
    let m = a % den;
    lemma_fundamental_div_mod(a, den);
    if m == 0 {
        assert(-a == (-q) * den + 0) by (nonlinear_arith)
            requires
                a == den * q + m,
                m == 0,
        ;
        lemma_fundamental_div_mod_converse(-a, den, -q, 0);
    } else {
        assert(-a == (-q - 1) * den + (den - m)) by (nonlinear_arith)
            requires
                a == den * q + m,
        ;
        lemma_fundamental_div_mod_converse(-a, den, -q - 1, den - m);
    }
}

/// What `class_of_root` computes before it reduces modulo `c`: the number
/// `k = floor_sqrt(c * c * square) / den` is `floor(c * sqrt(square) / den)`,
/// for `k * den` is at most the root of `c * c * square` and `(k + 1) * den`
/// is above it.
pub proof fn lemma_scaled_root(c: int, square: int, den: int)
    requires
        c > 0,
        den > 0,
        square >= 0,
    ensures
        ({
            let k = floor_sqrt((c * c * square) as nat) as int / den;
            (k * den) * (k * den) <= c * c * square < ((k + 1) * den) * ((k + 1) * den)
        }),
{
    assert(c * c * square >= 0) by (nonlinear_arith)
        requires
            square >= 0,
    ;
    let n = (c * c * square) as nat;
    let r = floor_sqrt(n) as int;
    lemma_floor_sqrt(n);
    let k = r / den;
    lemma_fundamental_div_mod(r, den);
    assert(0 <= k * den <= r && r + 1 <= (k + 1) * den) by (nonlinear_arith)
        requires
            r == den * k + r % den,
            0 <= r % den < den,
            r >= 0,
            den > 0,
    ;
    assert((k * den) * (k * den) <= r * r) by (nonlinear_arith)
        requires
            0 <= k * den <= r,
    ;
    assert((r + 1) * (r + 1) <= ((k + 1) * den) * ((k + 1) * den)) by (nonlinear_arith)
        requires
            0 <= r + 1 <= (k + 1) * den,
    ;
}

/// The leader of the first `n` classes holds the largest tally among them,
/// and is the first to hold it.
pub proof fn lemma_leader(votes: Seq<int>, n: int)
    requires
        1 <= n,
    ensures
        0 <= leader_upto(votes, n) < n,
        forall|c: int|
            0 <= c < n ==> #[trigger] tally(votes, c) <= tally(votes, leader_upto(votes, n)),
        forall|c: int|
            0 <= c < n && #[trigger] tally(votes, c) == tally(votes, leader_upto(votes, n))
                ==> leader_upto(votes, n) <= c,
    decreases n,
{
    if n > 1 {
        lemma_leader(votes, n - 1);
    }
}

/// The winner holds the lead: no class holds a heavier tally, and ties go
/// to the lower index.
pub proof fn lemma_winner_leads(votes: Seq<int>)
    ensures
        leads(votes, winner(votes)),
{
    lemma_leader(votes, NUM_CLASSES as int);
}

/// Only one class holds the lead.
pub proof fn lemma_lead_is_unique(votes: Seq<int>, a: int, b: int)
    requires
        leads(votes, a),
        leads(votes, b),
    ensures
        a == b,
{
    assert(tally(votes, a) <= tally(votes, b));
    assert(tally(votes, b) <= tally(votes, a));
}

/// The peak is the largest entry: it is one of the entries, and none of
/// them exceeds it.
pub proof fn lemma_peak_is_largest(values: Seq<int>, n: int)
    requires
        1 <= n <= values.len(),
    ensures
        forall|i: int| 0 <= i < n ==> values[i] <= peak_upto(values, n),
        exists|i: int| 0 <= i < n && values[i] == peak_upto(values, n),
    decreases n,
{
    if n == 1 {
        assert(values[0] == peak_upto(values, 1));
    } else {
        lemma_peak_is_largest(values, n - 1);
        if values[n - 1] > peak_upto(values, n - 1) {
            assert(values[n - 1] == peak_upto(values, n));
        } else {
            let i = choose|i: int| 0 <= i < n - 1 && values[i] == peak_upto(values, n - 1);
            assert(values[i] == peak_upto(values, n));
        }
    }
}

/// Every label lies in `[0, 26)`.
pub proof fn lemma_label_in_range(values: Seq<int>)
    ensures
        0 <= ensemble_label(values) < NUM_CLASSES,
{
    lemma_leader(method_classes_of(values), NUM_CLASSES as int);
}

/// Every reduction of a vector of zeros is zero.
proof fn lemma_zero_sums(values: Seq<int>, n: int)
    requires
        0 <= n <= values.len(),
        forall|k: int| 0 <= k < values.len() ==> values[k] == 0,
    ensures
        total_upto(values, n) == 0,
        n >= 1 ==> peak_upto(values, n) == 0,
        energy_upto(values, n) == 0,
    decreases n,
{
    if n > 0 {
        lemma_zero_sums(values, n - 1);
    }
}

/// A feature vector of zeros is labelled zero: every method scores zero and
/// votes for class zero.
pub proof fn lemma_zero_features_label(values: Seq<int>)
    requires
        values.len() > 0,
        forall|k: int| 0 <= k < values.len() ==> values[k] == 0,
    ensures
        forall|m: int| 0 <= m < METHOD_COUNT ==> method_classes_of(values)[m] == 0,
        ensemble_label(values) == 0,
{
    let n = values.len() as int;
    lemma_zero_sums(values, n);
    assert(n * SCALE > 0 && SCALE * SCALE > 0 && NUM_CLASSES * NUM_CLASSES * 0 == 0) by (nonlinear_arith)
        requires
            n > 0,
            SCALE == 65536,
    ;
    vstd::arithmetic::div_mod::lemma_div_of0(SCALE as int);
    vstd::arithmetic::div_mod::lemma_div_of0(SCALE * SCALE);
    vstd::arithmetic::div_mod::lemma_div_of0(n * SCALE);
    lemma_floor_sqrt_zero();
    let votes = method_classes_of(values);
    assert forall|m: int| 0 <= m < METHOD_COUNT implies votes[m] == 0 by {
        assert(votes[m] == method_class(values, m));
    }
    assert(tally(votes, 0) == 655360 && forall|c: int| c != 0 ==> tally(votes, c) == 0) by {
        reveal_with_fuel(tally_upto, 6);
    }
    lemma_winner_leads(votes);
}

/// Computes `floor(26 * num / den) mod 26` without rounding.
fn ratio_class(num: i128, den: u128) -> (class: usize)
    requires
        0 < den <= 0x1_0000_0000_0000_0000,
        -0x1_0000_0000_0000_0000_0000_0000 <= num <= 0x1_0000_0000_0000_0000_0000_0000,
    ensures
        class == class_of_ratio(num as int, den as int),
        class < NUM_CLASSES,
{
    let rest: u128 = if num >= 0 {
        (num as u128) % den
    } else {
        let m = ((-num) as u128) % den;
        if m == 0 {
            0
        } else {
            den - m
        }
    };
    proof {
        if num < 0 {
            lemma_mod_of_negative(-num as int, den as int);
        }
        assert(rest == (num as int) % (den as int));
        lemma_scaled_floor(NUM_CLASSES as int, num as int, den as int);
        assert(0 <= NUM_CLASSES * rest <= 26 * 0x1_0000_0000_0000_0000) by (nonlinear_arith)
            requires
                NUM_CLASSES == 26,
                0 <= rest <= 0x1_0000_0000_0000_0000,
        ;
    }
    let class = ((NUM_CLASSES as u128) * rest) / den;
    class as usize
}

/// Computes `floor(26 * sqrt(square) / 65536) mod 26` without rounding.
fn root_class(square: u128) -> (class: usize)
    requires
        square <= 0x1_0000_0000_0000_0000_0000_0000,
    ensures
        class == class_of_root(square as int, SCALE as int),
        class < NUM_CLASSES,
{
    assert(NUM_CLASSES * NUM_CLASSES * square <= 676 * 0x1_0000_0000_0000_0000_0000_0000
        && NUM_CLASSES * NUM_CLASSES * square >= 0) by (nonlinear_arith)
        requires
            NUM_CLASSES == 26,
            0 <= square <= 0x1_0000_0000_0000_0000_0000_0000,
    ;
    assert(NUM_CLASSES * NUM_CLASSES == 676) by (nonlinear_arith)
        requires
            NUM_CLASSES == 26,
    ;
    let scaled: u128 = ((NUM_CLASSES * NUM_CLASSES) as u128) * square;
    let root: u64 = isqrt(scaled);
    ((root / (SCALE as u64)) % (NUM_CLASSES as u64)) as usize
}

/// The three reductions of a feature vector that the scores are made of.
struct Sums {
    total: i64,
    peak: i32,
    energy: u128,
}

/// Walks the feature vector once and returns its sum, its largest entry and
/// the sum of its squares.
fn sums(features: &Vec<Fixed>) -> (s: Sums)
    requires
        features@.len() == FEATURE_LEN,
    ensures
        s.total == total_upto(raws(features@), FEATURE_LEN as int),
        s.peak == peak_upto(raws(features@), FEATURE_LEN as int),
        s.energy == energy_upto(raws(features@), FEATURE_LEN as int),
        -45 * 0x8000_0000 <= s.total <= 45 * 0x8000_0000,
        s.energy <= 45 * 0x4000_0000_0000_0000,
{
    let mut s = Sums { total: 0, peak: features[0].raw, energy: 0 };
    let mut i: usize = 0;
    while i < FEATURE_LEN
        invariant
            i <= FEATURE_LEN,
            features@.len() == FEATURE_LEN,
            s.total == total_upto(raws(features@), i as int),
            s.peak == peak_upto(raws(features@), i as int),
            s.energy == energy_upto(raws(features@), i as int),
            -0x8000_0000 * i <= s.total <= 0x8000_0000 * i,
            s.energy <= 0x4000_0000_0000_0000 * i,
        decreases FEATURE_LEN - i,
    {
        let value: i32 = features[i].raw;
        assert(0 <= value * value <= 0x4000_0000_0000_0000) by (nonlinear_arith)
            requires
                -0x8000_0000 <= value <= 0x8000_0000,
        ;
        s.total = s.total + value as i64;
        if value > s.peak {
            s.peak = value;
        }
        s.energy = s.energy + ((value as i64) * (value as i64)) as u128;
        i += 1;
    }
    s
}

/// Computes the class that each of the five methods derives from one
/// feature vector.
pub fn method_classes(features: &Vec<Fixed>) -> (classes: [usize; 5])
    requires
        features@.len() == FEATURE_LEN,
    ensures
        vote_ints(classes@) == method_classes_of(raws(features@)),
        forall|m: int| 0 <= m < METHOD_COUNT ==> classes@[m] < NUM_CLASSES,
{
    let s = sums(features);
    let scale: u128 = SCALE as u128;
    let by_sum = ratio_class(s.total as i128, scale);
    let by_peak = ratio_class(s.peak as i128, scale);
    let by_energy = ratio_class(s.energy as i128, scale * scale);
    let by_mean = ratio_class(s.total as i128, (FEATURE_LEN as u128) * scale);
    let by_norm = root_class(s.energy);
    let classes = [by_sum, by_peak, by_energy, by_mean, by_norm];
    assert(vote_ints(classes@) =~= method_classes_of(raws(features@)));
    classes
}

/// The weight of one method's vote.
fn weight_of(m: usize) -> (w: i64)
    requires
        m < METHOD_COUNT,
    ensures
        w == method_weight(m as int),
{
    if m == 0 {
        196608
    } else if m == 1 {
        163840
    } else if m == 2 {
        131072
    } else if m == 3 {
        98304
    } else {
        65536
    }
}

/// Tallies the five votes and returns the winning class: the one with the
/// heaviest tally, and the lowest index among those that share it. A vote
/// for a class outside `[0, 26)` adds to no tally.
pub fn elect(votes: &[usize; 5]) -> (label: usize)
    ensures
        label == winner(vote_ints(votes@)),
        leads(vote_ints(votes@), label as int),
        label < NUM_CLASSES,
{
    let ghost cast = vote_ints(votes@);
    let mut weights: Vec<i64> = Vec::new();
    let mut c: usize = 0;
    while c < NUM_CLASSES
        invariant
            c <= NUM_CLASSES,
            weights@.len() == c,
            forall|k: int| 0 <= k < c ==> weights@[k] == 0,
        decreases NUM_CLASSES - c,
    {
        weights.push(0);
        c += 1;
    }
    let mut m: usize = 0;
    while m < METHOD_COUNT
        invariant
            m <= METHOD_COUNT,
            cast == vote_ints(votes@),
            weights@.len() == NUM_CLASSES,
            forall|k: int| 0 <= k < NUM_CLASSES ==> #[trigger] weights@[k] == tally_upto(cast, k, m as int),
            forall|k: int| 0 <= k < NUM_CLASSES ==> 0 <= #[trigger] weights@[k] <= 196608 * m,
        decreases METHOD_COUNT - m,
    {
        let vote = votes[m];
        if vote < NUM_CLASSES {
            let sum = weights[vote] + weight_of(m);
            weights.set(vote, sum);
        }
        m += 1;
    }
    let mut label: usize = 0;
    let mut c: usize = 1;
    while c < NUM_CLASSES
        invariant
            1 <= c <= NUM_CLASSES,
            label < c,
            weights@.len() == NUM_CLASSES,
            forall|k: int| 0 <= k < NUM_CLASSES ==> #[trigger] weights@[k] == tally(cast, k),
            label == leader_upto(cast, c as int),
        decreases NUM_CLASSES - c,
    {
        if weights[c] > weights[label] {
            label = c;
        }
        c += 1;
    }
    proof {
        lemma_leader(cast, NUM_CLASSES as int);
    }
    label
}

/// Classifies one feature vector.
///
/// An empty vector is refused as invalid input, and a vector of any other
/// length but `FEATURE_LEN` for its length.
pub fn classify(features: &Vec<Fixed>) -> (result: Result<usize, PipelineError>)
    ensures
        match result {
            Ok(label) => {
                &&& features@.len() == FEATURE_LEN
                &&& label == ensemble_label(raws(features@))
                &&& label < NUM_CLASSES
            },
            Err(e) => {
                &&& features@.len() != FEATURE_LEN
                &&& e == if features@.len() == 0 {
                    PipelineError::InvalidInput
                } else {
                    PipelineError::InvalidInputLength
                }
            },
        },
{
    if features.len() == 0 {
        return Err(PipelineError::InvalidInput);
    }
    if features.len() != FEATURE_LEN {
        return Err(PipelineError::InvalidInputLength);
    }
    let votes = method_classes(features);
    let label = elect(&votes);
    Ok(label)
}

} // verus!
