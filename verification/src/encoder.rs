//! The spatial encoder: from 784 intensities to a sparse binary code over
//! 256 columns.
//!
//! Each column sums the intensities of its receptive field. The columns are
//! then ranked by that sum, the larger first and the lower index first among
//! equals, and a column stays active where it is among the first twenty and
//! its score lies above the activation floor.

use vstd::prelude::*;
use crate::counting::{
    count_true, lemma_count_implied, lemma_count_none, lemma_count_split, lemma_count_unique,
};
use crate::error::PipelineError;
use crate::fixed::{raws, Fixed, SCALE};

verus! {

/// Length of a raw input vector.
pub const INPUT_LEN: usize = 784;

/// Number of columns, the length of a sparse representation.
pub const COLUMN_COUNT: usize = 256;

/// Input positions and columns are tied by their residue modulo this stride.
pub const FIELD_STRIDE: usize = 4;

/// Number of input positions in each receptive field; an overlap score is
/// the field's sum divided by this.
pub const FIELD_SIZE: usize = 196;

/// At most this many columns stay active.
pub const ACTIVE_COLUMNS: usize = 20;

/// The activation floor is one over this: a score must exceed 1/10.
pub const FLOOR_DIVISOR: usize = 10;

/// Whether input position `pos` lies in the receptive field of column `col`.
pub open spec fn in_receptive_field(col: int, pos: int) -> bool {
    pos % (FIELD_STRIDE as int) == col % (FIELD_STRIDE as int)
}

/// Sum of the entries of `input` that lie in the receptive field of `col`,
/// over the first `n` positions.
pub open spec fn overlap_upto(input: Seq<int>, col: int, n: int) -> int
    decreases n,
{
    if n <= 0 {
        0
    } else {
        overlap_upto(input, col, n - 1) + if in_receptive_field(col, n - 1) {
            input[n - 1]
        } else {
            0
        }
    }
}

/// The overlap of column `col` with `input`: the sum over its receptive
/// field, in raw units. The column's overlap score is this sum divided by
/// `FIELD_SIZE`; all scores share that divisor, so they are compared through
/// their sums.
pub open spec fn overlap(input: Seq<int>, col: int) -> int {
    overlap_upto(input, col, input.len() as int)
}

/// The overlaps of all columns, by column index.
pub open spec fn overlaps(input: Seq<int>) -> Seq<int> {
    Seq::new(COLUMN_COUNT as nat, |col: int| overlap(input, col))
}

/// The entries of `scores` as mathematical integers.
pub open spec fn ints(scores: Seq<i64>) -> Seq<int> {
    Seq::new(scores.len(), |i: int| scores[i] as int)
}

/// Whether column `d` comes before column `c` in the ranking: by the larger
/// score, and by the lower index where the scores are equal.
pub open spec fn outranks(scores: Seq<int>, d: int, c: int) -> bool {
    scores[d] > scores[c] || (scores[d] == scores[c] && d < c)
}

/// Number of columns among the first `n` that outrank column `c`.
pub open spec fn rank_upto(scores: Seq<int>, c: int, n: int) -> nat
    decreases n,
{
    if n <= 0 {
        0
    } else {
        rank_upto(scores, c, n - 1) + if outranks(scores, n - 1, c) { 1nat } else { 0nat }
    }
}

/// The place of column `c` in the ranking, counted from zero: the number of
/// columns that outrank it.
pub open spec fn rank(scores: Seq<int>, c: int) -> nat {
    rank_upto(scores, c, scores.len() as int)
}

/// Whether an overlap lies above the activation floor: the score
/// `sum / FIELD_SIZE`, taken as a real number, exceeds `1 / FLOOR_DIVISOR`.
pub open spec fn exceeds_floor(sum: int) -> bool {
    FLOOR_DIVISOR * sum > FIELD_SIZE * SCALE
}

/// Whether column `c` stays active under global inhibition.
pub open spec fn is_active(scores: Seq<int>, c: int) -> bool {
    rank(scores, c) < ACTIVE_COLUMNS && exceeds_floor(scores[c])
}

/// The columns that stay active, as one flag per column.
pub open spec fn active_columns(scores: Seq<int>) -> Seq<bool> {
    Seq::new(scores.len(), |c: int| is_active(scores, c))
}

/// The sparse representation of `input`, given in raw units.
pub open spec fn sparse_code(input: Seq<int>) -> Seq<bool> {
    active_columns(overlaps(input))
}

/// The columns whose rank is below `k`, as one flag per column.
pub open spec fn ranked_below(scores: Seq<int>, k: int) -> Seq<bool> {
    Seq::new(scores.len(), |c: int| rank(scores, c) < k)
}

/// The columns whose rank is exactly `k`, as one flag per column.
pub open spec fn ranked_at(scores: Seq<int>, k: int) -> Seq<bool> {
    Seq::new(scores.len(), |c: int| rank(scores, c) == k)
}

/// A column's overlap depends on its residue alone: columns that agree
/// modulo `FIELD_STRIDE` share their receptive field.
pub proof fn lemma_overlap_by_residue(input: Seq<int>, col: int, n: int)
    ensures
        overlap_upto(input, col, n) == overlap_upto(input, col % (FIELD_STRIDE as int), n),
    decreases n,
{
    if n > 0 {
        lemma_overlap_by_residue(input, col, n - 1);
    }
}

/// The count of outranking columns grows with the prefix that is counted.
pub proof fn lemma_rank_upto_monotone(scores: Seq<int>, c: int, m: int, n: int)
    requires
        m <= n,
    ensures
        rank_upto(scores, c, m) <= rank_upto(scores, c, n),
    decreases n - m,
{
    if m < n {
        lemma_rank_upto_monotone(scores, c, m, n - 1);
    }
}

/// Whatever outranks `a` outranks every column that `a` outranks, and so
/// does `a` itself.
proof fn lemma_rank_upto_strict(scores: Seq<int>, a: int, b: int, n: int)
    requires
        outranks(scores, a, b),
        0 <= a,
    ensures
        rank_upto(scores, a, n) + (if a < n { 1nat } else { 0nat }) <= rank_upto(scores, b, n),
    decreases n,
{
    if n > 0 {
        lemma_rank_upto_strict(scores, a, b, n - 1);
    }
}

/// The ranking is strict: a column that outranks another has the lower rank.
pub proof fn lemma_outranking_lowers_rank(scores: Seq<int>, a: int, b: int)
    requires
        0 <= a < scores.len(),
        outranks(scores, a, b),
    ensures
        rank(scores, a) < rank(scores, b),
{
    lemma_rank_upto_strict(scores, a, b, scores.len() as int);
}

/// No two columns share a rank.
pub proof fn lemma_rank_injective(scores: Seq<int>, a: int, b: int)
    requires
        0 <= a < scores.len(),
        0 <= b < scores.len(),
        rank(scores, a) == rank(scores, b),
    ensures
        a == b,
{
    if a != b {
        if outranks(scores, a, b) {
            lemma_outranking_lowers_rank(scores, a, b);
        } else {
            assert(outranks(scores, b, a));
            lemma_outranking_lowers_rank(scores, b, a);
        }
    }
}

/// At most `k` columns have a rank below `k`.
pub proof fn lemma_ranked_below_count(scores: Seq<int>, k: int)
    requires
        0 <= k,
    ensures
        count_true(ranked_below(scores, k)) <= k,
    decreases k,
{
    let n = scores.len() as int;
    if k == 0 {
        lemma_count_none(ranked_below(scores, 0), n);
    } else {
        lemma_ranked_below_count(scores, k - 1);
        let at = ranked_at(scores, k - 1);
        assert forall|i: int, j: int| 0 <= i < n && 0 <= j < n && at[i] && at[j] implies i == j by {
            lemma_rank_injective(scores, i, j);
        }
        lemma_count_unique(at, n);
        lemma_count_split(ranked_below(scores, k), ranked_below(scores, k - 1), at, n);
    }
}

/// Global inhibition leaves at most `ACTIVE_COLUMNS` columns active,
/// whatever the scores are.
pub proof fn lemma_sparsity_bound(scores: Seq<int>)
    ensures
        count_true(active_columns(scores)) <= ACTIVE_COLUMNS,
{
    let n = scores.len() as int;
    lemma_ranked_below_count(scores, ACTIVE_COLUMNS as int);
    lemma_count_implied(active_columns(scores), ranked_below(scores, ACTIVE_COLUMNS as int), n);
}

/// Ties go to the lower index: of two columns with the same score, the
/// higher one is active only if the lower one is.
pub proof fn lemma_tie_favours_lower_column(scores: Seq<int>, a: int, b: int)
    requires
        0 <= a < b < scores.len(),
        scores[a] == scores[b],
        active_columns(scores)[b],
    ensures
        active_columns(scores)[a],
{
    lemma_outranking_lowers_rank(scores, a, b);
}

/// Inhibition follows the ranking: where a column is active, so is every
/// column that outranks it.
pub proof fn lemma_active_columns_lead(scores: Seq<int>, a: int, b: int)
    requires
        0 <= a < scores.len(),
        0 <= b < scores.len(),
        outranks(scores, a, b),
        active_columns(scores)[b],
    ensures
        active_columns(scores)[a],
{
    lemma_outranking_lowers_rank(scores, a, b);
}

/// Where no score lies above the floor, no column is active.
pub proof fn lemma_silent_below_floor(scores: Seq<int>)
    requires
        forall|c: int| 0 <= c < scores.len() ==> !exceeds_floor(scores[c]),
    ensures
        forall|c: int| 0 <= c < scores.len() ==> !active_columns(scores)[c],
        count_true(active_columns(scores)) == 0,
{
    lemma_count_none(active_columns(scores), scores.len() as int);
}

/// Among columns of equal score, a column is outranked by exactly those in
/// front of it.
proof fn lemma_rank_among_equals(scores: Seq<int>, c: int, n: int)
    requires
        0 <= c < scores.len(),
        0 <= n <= scores.len(),
        forall|d: int| 0 <= d < scores.len() ==> #[trigger] scores[d] == scores[c],
    ensures
        rank_upto(scores, c, n) == if n <= c { n } else { c },
    decreases n,
{
    if n > 0 {
        lemma_rank_among_equals(scores, c, n - 1);
    }
}

/// Where all columns share one score above the floor, exactly the first
/// `ACTIVE_COLUMNS` of them are active.
pub proof fn lemma_equal_scores_activate_first_columns(scores: Seq<int>)
    requires
        scores.len() > 0,
        forall|d: int| 0 <= d < scores.len() ==> #[trigger] scores[d] == scores[0],
        exceeds_floor(scores[0]),
    ensures
        forall|c: int| 0 <= c < scores.len() ==> active_columns(scores)[c] == (c < ACTIVE_COLUMNS),
{
    assert forall|c: int| 0 <= c < scores.len() implies active_columns(scores)[c] == (c
        < ACTIVE_COLUMNS) by {
        lemma_rank_among_equals(scores, c, scores.len() as int);
    }
}

/// Over a whole number of strides, a uniform input gives every column the
/// same overlap: one entry for each stride.
proof fn lemma_uniform_overlap(input: Seq<int>, value: int, col: int, strides: int)
    requires
        0 <= strides,
        FIELD_STRIDE * strides <= input.len(),
        forall|i: int| 0 <= i < input.len() ==> input[i] == value,
    ensures
        overlap_upto(input, col, FIELD_STRIDE * strides) == strides * value,
    decreases strides,
{
    if strides > 0 {
        lemma_uniform_overlap(input, value, col, strides - 1);
        let n = FIELD_STRIDE * strides;
        assert(FIELD_STRIDE * (strides - 1) == n - 4);
        assert(overlap_upto(input, col, n) == overlap_upto(input, col, n - 4) + value) by {
            reveal_with_fuel(overlap_upto, 5);
        }
        assert(strides * value == (strides - 1) * value + value) by (nonlinear_arith);
    } else {
        assert(0 * value == 0);
    }
}

/// A uniform input whose entries exceed the activation floor activates
/// exactly the first `ACTIVE_COLUMNS` columns: all scores are equal, and
/// the lower index goes first.
pub proof fn lemma_uniform_input_code(input: Seq<int>, value: int)
    requires
        input.len() == INPUT_LEN,
        forall|i: int| 0 <= i < input.len() ==> input[i] == value,
        FLOOR_DIVISOR * value > SCALE,
    ensures
        forall|c: int| 0 <= c < COLUMN_COUNT ==> sparse_code(input)[c] == (c < ACTIVE_COLUMNS),
{
    let scores = overlaps(input);
    assert forall|c: int| 0 <= c < COLUMN_COUNT implies scores[c] == FIELD_SIZE * value by {
        lemma_uniform_overlap(input, value, c, FIELD_SIZE as int);
    }
    assert(exceeds_floor(FIELD_SIZE * value)) by (nonlinear_arith)
        requires
            FLOOR_DIVISOR * value > SCALE,
            FLOOR_DIVISOR == 10,
            FIELD_SIZE == 196,
            SCALE == 65536,
    ;
    lemma_equal_scores_activate_first_columns(scores);
}

/// No overlap of an input without a positive entry is positive.
proof fn lemma_overlap_nonpositive(input: Seq<int>, col: int, n: int)
    requires
        n <= input.len(),
        forall|i: int| 0 <= i < input.len() ==> input[i] <= 0,
    ensures
        overlap_upto(input, col, n) <= 0,
    decreases n,
{
    if n > 0 {
        lemma_overlap_nonpositive(input, col, n - 1);
    }
}

/// An input without a positive entry leaves every column inactive: no
/// score reaches the activation floor.
pub proof fn lemma_nonpositive_input_is_silent(input: Seq<int>)
    requires
        forall|i: int| 0 <= i < input.len() ==> input[i] <= 0,
    ensures
        forall|c: int| 0 <= c < COLUMN_COUNT ==> !sparse_code(input)[c],
        count_true(sparse_code(input)) == 0,
{
    let scores = overlaps(input);
    assert forall|c: int| 0 <= c < scores.len() implies !exceeds_floor(scores[c]) by {
        lemma_overlap_nonpositive(input, c, input.len() as int);
        let sum = scores[c];
        assert(FLOOR_DIVISOR * sum <= 0 && FIELD_SIZE * SCALE > 0) by (nonlinear_arith)
            requires
                sum <= 0,
                FLOOR_DIVISOR == 10,
                FIELD_SIZE == 196,
                SCALE == 65536,
        ;
    }
    lemma_silent_below_floor(scores);
}

/// The overlap of one column with the input.
fn column_overlap(input: &Vec<Fixed>, col: usize) -> (sum: i64)
    requires
        input@.len() == INPUT_LEN,
    ensures
        sum == overlap(raws(input@), col as int),
{
    let mut sum: i64 = 0;
    let mut pos: usize = 0;
    while pos < INPUT_LEN
        invariant
            pos <= INPUT_LEN,
            input@.len() == INPUT_LEN,
            sum == overlap_upto(raws(input@), col as int, pos as int),
            -0x8000_0000 * pos <= sum <= 0x8000_0000 * pos,
        decreases INPUT_LEN - pos,
    {
        if pos % FIELD_STRIDE == col % FIELD_STRIDE {
            sum = sum + input[pos].raw as i64;
        }
        pos += 1;
    }
    sum
}

/// Computes the overlap of every column with one raw input vector. The
/// overlap score of a column is its entry divided by `FIELD_SIZE`.
///
/// Columns with the same residue share their receptive field, so each of
/// the `FIELD_STRIDE` fields is summed once.
pub fn overlap_scores(input: &Vec<Fixed>) -> (scores: Vec<i64>)
    requires
        input@.len() == INPUT_LEN,
    ensures
        ints(scores@) == overlaps(raws(input@)),
{
    let mut fields: Vec<i64> = Vec::new();
    let mut residue: usize = 0;
    while residue < FIELD_STRIDE
        invariant
            residue <= FIELD_STRIDE,
            input@.len() == INPUT_LEN,
            fields@.len() == residue,
            forall|r: int| 0 <= r < residue ==> fields@[r] == overlap(raws(input@), r),
        decreases FIELD_STRIDE - residue,
    {
        let sum = column_overlap(input, residue);
        fields.push(sum);
        residue += 1;
    }
    let mut scores: Vec<i64> = Vec::new();
    let mut col: usize = 0;
    while col < COLUMN_COUNT
        invariant
            col <= COLUMN_COUNT,
            fields@.len() == FIELD_STRIDE,
            forall|r: int| 0 <= r < FIELD_STRIDE ==> fields@[r] == overlap(raws(input@), r),
            scores@.len() == col,
            forall|c: int| 0 <= c < col ==> scores@[c] == overlap(raws(input@), c),
        decreases COLUMN_COUNT - col,
    {
        proof {
            lemma_overlap_by_residue(raws(input@), col as int, raws(input@).len() as int);
        }
        scores.push(fields[col % FIELD_STRIDE]);
        col += 1;
    }
    assert(ints(scores@) =~= overlaps(raws(input@)));
    scores
}

/// Tests an overlap against the activation floor.
fn above_floor(sum: i64) -> (above: bool)
    ensures
        above == exceeds_floor(sum as int),
{
    assert(-0x10_0000_0000_0000_0000 <= FLOOR_DIVISOR * sum <= 0x10_0000_0000_0000_0000
        && FIELD_SIZE * SCALE == 12_845_056) by (nonlinear_arith)
        requires
            FLOOR_DIVISOR == 10,
            FIELD_SIZE == 196,
            SCALE == 65536,
            -0x8000_0000_0000_0000 <= sum < 0x8000_0000_0000_0000,
    ;
    let scaled: i128 = (FLOOR_DIVISOR as i128) * (sum as i128);
    let bound: i128 = (FIELD_SIZE as i128) * (SCALE as i128);
    scaled > bound
}

/// Decides whether one column stays active.
fn column_is_active(scores: &Vec<i64>, c: usize) -> (active: bool)
    requires
        c < scores@.len(),
    ensures
        active == is_active(ints(scores@), c as int),
{
    let n = scores.len();
    let own = scores[c];
    if !above_floor(own) {
        return false;
    }
    let mut ahead: usize = 0;
    let mut d: usize = 0;
    while d < n && ahead < ACTIVE_COLUMNS
        invariant
            d <= n,
            n == scores@.len(),
            c < n,
            own == scores@[c as int],
            ahead <= ACTIVE_COLUMNS,
            ahead == rank_upto(ints(scores@), c as int, d as int),
        decreases n - d,
    {
        let other = scores[d];
        if other > own || (other == own && d < c) {
            ahead += 1;
        }
        d += 1;
    }
    proof {
        lemma_rank_upto_monotone(ints(scores@), c as int, d as int, n as int);
    }
    ahead < ACTIVE_COLUMNS
}

/// Applies global inhibition to the overlaps of a set of columns: a column
/// stays active where fewer than `ACTIVE_COLUMNS` columns outrank it and its
/// score lies above the activation floor.
pub fn inhibit(scores: &Vec<i64>) -> (active: Vec<bool>)
    ensures
        active@ == active_columns(ints(scores@)),
        count_true(active@) <= ACTIVE_COLUMNS,
{
    let n = scores.len();
    let mut active: Vec<bool> = Vec::new();
    let mut c: usize = 0;
    while c < n
        invariant
            c <= n,
            n == scores@.len(),
            active@.len() == c,
            forall|j: int| 0 <= j < c ==> active@[j] == is_active(ints(scores@), j),
        decreases n - c,
    {
        let flag = column_is_active(scores, c);
        active.push(flag);
        c += 1;
    }
    proof {
        assert(active@ =~= active_columns(ints(scores@)));
        lemma_sparsity_bound(ints(scores@));
    }
    active
}

/// Encodes one raw input vector into its sparse representation.
///
/// A vector of any length but `INPUT_LEN` is refused.
pub fn encode(input: &Vec<Fixed>) -> (result: Result<Vec<bool>, PipelineError>)
    ensures
        match result {
            Ok(code) => {
                &&& input@.len() == INPUT_LEN
                &&& code@ == sparse_code(raws(input@))
                &&& code@.len() == COLUMN_COUNT
                &&& count_true(code@) <= ACTIVE_COLUMNS
            },
            Err(e) => input@.len() != INPUT_LEN && e == PipelineError::InvalidInputLength,
        },
{
    if input.len() != INPUT_LEN {
        return Err(PipelineError::InvalidInputLength);
    }
    let scores = overlap_scores(input);
    let code = inhibit(&scores);
    Ok(code)
}

} // verus!
