//! The feature expander: from a sparse binary code to 45 fixed-point
//! features.
//!
//! The first eight features are statistics of the code; the rest is padding
//! that depends on the number of active columns alone. An active column
//! counts as the value one, an inactive column as zero.

use vstd::prelude::*;
use crate::counting::{count_true, count_upto};
use crate::encoder::COLUMN_COUNT;
use crate::error::PipelineError;
use crate::fixed::{raws, Fixed, SCALE};
use crate::sqrt::{floor_sqrt, isqrt, lemma_floor_sqrt_zero};

verus! {

/// Number of statistics at the head of a feature vector.
pub const STATISTIC_COUNT: usize = 8;

/// Number of padding values that follow the statistics.
pub const PADDING_COUNT: usize = 37;

/// Length of a feature vector.
pub const FEATURE_LEN: usize = 45;

/// Number of columns in one row of the column grid.
pub const ROW_WIDTH: usize = 16;

/// Sum of the indices of the active columns among the first `n`.
pub open spec fn position_sum_upto(code: Seq<bool>, n: int) -> int
    decreases n,
{
    if n <= 0 {
        0
    } else {
        position_sum_upto(code, n - 1) + if code[n - 1] { n - 1 } else { 0 }
    }
}

/// Sum of the row numbers of the active columns among the first `n`, the
/// row of column `i` being `i / ROW_WIDTH`.
pub open spec fn row_sum_upto(code: Seq<bool>, n: int) -> int
    decreases n,
{
    if n <= 0 {
        0
    } else {
        row_sum_upto(code, n - 1) + if code[n - 1] { (n - 1) / (ROW_WIDTH as int) } else { 0 }
    }
}

/// Number of adjacent pairs among the first `n` columns whose two flags
/// differ: the sum of the absolute differences of neighbouring entries.
pub open spec fn roughness_upto(code: Seq<bool>, n: int) -> int
    decreases n,
{
    if n <= 1 {
        0
    } else {
        roughness_upto(code, n - 1) + if code[n - 1] != code[n - 2] { 1int } else { 0int }
    }
}

/// Number of active columns with an even index among the first `n`.
pub open spec fn even_active_upto(code: Seq<bool>, n: int) -> int
    decreases n,
{
    if n <= 0 {
        0
    } else {
        even_active_upto(code, n - 1) + if code[n - 1] && (n - 1) % 2 == 0 { 1int } else { 0int }
    }
}

/// The padding value with index `j`, in raw units: the fractional part of
/// `j` times the sum of all entries, that sum being given in raw units.
pub open spec fn padding(j: int, sum: int) -> int {
    (j * sum) % (SCALE as int)
}

/// Entry `k` of the feature vector of `code`, in raw units.
///
/// The Euclidean norm is rounded down to the next multiple of 1/65536; every
/// other entry is exact.
pub open spec fn feature(code: Seq<bool>, k: int) -> int {
    let n = code.len() as int;
    let active = count_true(code) as int;
    if k == 0 {
        active * SCALE / (COLUMN_COUNT as int)
    } else if k == 1 {
        floor_sqrt((active * SCALE * SCALE) as nat) as int
    } else if k == 2 {
        active * SCALE
    } else if k == 3 {
        position_sum_upto(code, n) * SCALE
    } else if k == 4 {
        row_sum_upto(code, n) * SCALE
    } else if k == 5 {
        roughness_upto(code, n) * SCALE
    } else if k == 6 {
        active * SCALE
    } else if k == 7 {
        even_active_upto(code, n) * SCALE
    } else {
        padding(k - STATISTIC_COUNT, active * SCALE)
    }
}

/// The feature vector of `code`, in raw units.
pub open spec fn features(code: Seq<bool>) -> Seq<int> {
    Seq::new(FEATURE_LEN as nat, |k: int| feature(code, k))
}

/// The padding of a binary code is zero throughout: the sum of its entries
/// is a whole number, and so is every multiple of it.
pub proof fn lemma_padding_vanishes(code: Seq<bool>, k: int)
    requires
        STATISTIC_COUNT <= k < FEATURE_LEN,
    ensures
        features(code)[k] == 0,
{
    let active = count_true(code) as int;
    let j = k - STATISTIC_COUNT;
    assert(j * (active * SCALE) == (j * active) * SCALE) by (nonlinear_arith);
    vstd::arithmetic::div_mod::lemma_mod_multiples_basic(j * active, SCALE as int);
}

/// Every sum over a code without an active column is zero.
proof fn lemma_silent_sums(code: Seq<bool>, n: int)
    requires
        n <= code.len(),
        forall|c: int| 0 <= c < code.len() ==> !code[c],
    ensures
        count_upto(code, n) == 0,
        position_sum_upto(code, n) == 0,
        row_sum_upto(code, n) == 0,
        roughness_upto(code, n) == 0,
        even_active_upto(code, n) == 0,
    decreases n,
{
    if n > 0 {
        lemma_silent_sums(code, n - 1);
    }
}

/// The feature vector of a code without an active column is zero
/// throughout.
pub proof fn lemma_silent_code_features(code: Seq<bool>)
    requires
        forall|c: int| 0 <= c < code.len() ==> !code[c],
    ensures
        forall|k: int| 0 <= k < FEATURE_LEN ==> features(code)[k] == 0,
{
    lemma_silent_sums(code, code.len() as int);
    lemma_floor_sqrt_zero();
    assert forall|k: int| 0 <= k < FEATURE_LEN implies features(code)[k] == 0 by {
        if k >= STATISTIC_COUNT {
            lemma_padding_vanishes(code, k);
        }
    }
}

/// The five sums that the statistics are made of.
struct CodeSums {
    active: u64,
    position: u64,
    row: u64,
    roughness: u64,
    even: u64,
}

/// Walks the code once and returns its five sums.
fn code_sums(code: &Vec<bool>) -> (t: CodeSums)
    requires
        code@.len() == COLUMN_COUNT,
    ensures
        t.active == count_true(code@),
        t.position == position_sum_upto(code@, COLUMN_COUNT as int),
        t.row == row_sum_upto(code@, COLUMN_COUNT as int),
        t.roughness == roughness_upto(code@, COLUMN_COUNT as int),
        t.even == even_active_upto(code@, COLUMN_COUNT as int),
        t.active <= 256,
        t.position <= 32640,
        t.row <= 3840,
        t.roughness <= 256,
        t.even <= 256,
{
    let mut t = CodeSums { active: 0, position: 0, row: 0, roughness: 0, even: 0 };
    let mut i: usize = 0;
    while i < COLUMN_COUNT
        invariant
            i <= COLUMN_COUNT,
            code@.len() == COLUMN_COUNT,
            t.active == count_upto(code@, i as int),
            t.position == position_sum_upto(code@, i as int),
            t.row == row_sum_upto(code@, i as int),
            t.roughness == roughness_upto(code@, i as int),
            t.even == even_active_upto(code@, i as int),
            t.active <= i,
            2 * t.position + i <= i * i,
            t.row <= 15 * i,
            t.roughness <= i,
            t.even <= i,
        decreases COLUMN_COUNT - i,
    {
        assert(i * i + 2 * i + 1 == (i + 1) * (i + 1)) by (nonlinear_arith);
        assert(i * i <= 65536) by (nonlinear_arith)
            requires
                i <= 256,
        ;
        if code[i] {
            t.active += 1;
            t.position += i as u64;
            t.row += (i / ROW_WIDTH) as u64;
            if i % 2 == 0 {
                t.even += 1;
            }
        }
        if i > 0 && code[i] != code[i - 1] {
            t.roughness += 1;
        }
        i += 1;
    }
    assert(i * i == 65536) by (nonlinear_arith)
        requires
            i == 256,
    ;
    t
}

/// Expands one sparse representation into its feature vector.
///
/// A code of any length but `COLUMN_COUNT` is refused.
pub fn expand(code: &Vec<bool>) -> (result: Result<Vec<Fixed>, PipelineError>)
    ensures
        match result {
            Ok(values) => {
                &&& code@.len() == COLUMN_COUNT
                &&& raws(values@) == features(code@)
                &&& values@.len() == FEATURE_LEN
            },
            Err(e) => code@.len() != COLUMN_COUNT && e == PipelineError::InvalidInputLength,
        },
{
    if code.len() != COLUMN_COUNT {
        return Err(PipelineError::InvalidInputLength);
    }
    let t = code_sums(code);
    let ghost active = count_true(code@) as int;
    let ghost n = code@.len() as int;
    let sum: u64 = t.active * (SCALE as u64);
    let mean: u64 = sum / (COLUMN_COUNT as u64);
    assert(t.active * SCALE * SCALE <= 0x100_0000_0000) by (nonlinear_arith)
        requires
            t.active <= 256,
            SCALE == 65536,
    ;
    let norm: u64 = isqrt((sum as u128) * (SCALE as u128));
    assert(norm <= 0x10_0000) by (nonlinear_arith)
        requires
            norm * norm <= 0x100_0000_0000,
    ;
    let mut values: Vec<Fixed> = Vec::new();
    values.push(Fixed { raw: mean as i32 });
    values.push(Fixed { raw: norm as i32 });
    values.push(Fixed::from_int(t.active as i16));
    values.push(Fixed::from_int(t.position as i16));
    values.push(Fixed::from_int(t.row as i16));
    values.push(Fixed::from_int(t.roughness as i16));
    values.push(Fixed::from_int(t.active as i16));
    values.push(Fixed::from_int(t.even as i16));
    let mut j: usize = 0;
    while j < PADDING_COUNT
        invariant
            j <= PADDING_COUNT,
            values@.len() == STATISTIC_COUNT + j,
            active == count_true(code@),
            sum == active * SCALE,
            sum <= 0x100_0000,
            forall|k: int| 0 <= k < STATISTIC_COUNT + j ==> (#[trigger] values@[k]).raw == feature(code@, k),
        decreases PADDING_COUNT - j,
    {
        assert(j * sum <= 37 * 0x100_0000) by (nonlinear_arith)
            requires
                j <= 37,
                sum <= 0x100_0000,
        ;
        let pad: u64 = ((j as u64) * sum) % (SCALE as u64);
        values.push(Fixed { raw: pad as i32 });
        j += 1;
    }
    assert(raws(values@) =~= features(code@));
    Ok(values)
}

} // verus!
