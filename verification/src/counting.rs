//! Counting the `true` entries of a sequence of booleans.

use vstd::prelude::*;

verus! {

/// Number of `true` entries among the first `n` of `bits`.
pub open spec fn count_upto(bits: Seq<bool>, n: int) -> nat
    decreases n,
{
    if n <= 0 {
        0
    } else {
        count_upto(bits, n - 1) + if bits[n - 1] { 1nat } else { 0nat }
    }
}

/// Number of `true` entries of `bits`.
pub open spec fn count_true(bits: Seq<bool>) -> nat {
    count_upto(bits, bits.len() as int)
}

/// Where no entry is `true`, the count is zero.
pub proof fn lemma_count_none(bits: Seq<bool>, n: int)
    requires
        forall|i: int| 0 <= i < n ==> !bits[i],
    ensures
        count_upto(bits, n) == 0,
    decreases n,
{
    if n > 0 {
        lemma_count_none(bits, n - 1);
    }
}

/// Where exactly the entries in front of `k` are `true`, the count is the
/// length of that stretch.
pub proof fn lemma_count_leading(bits: Seq<bool>, k: int, n: int)
    requires
        0 <= k,
        0 <= n,
        forall|i: int| 0 <= i < n ==> bits[i] == (i < k),
    ensures
        count_upto(bits, n) == if n <= k { n } else { k },
    decreases n,
{
    if n > 0 {
        lemma_count_leading(bits, k, n - 1);
    }
}

/// Where every `true` entry of `x` is `true` in `y` as well, `x` counts no more than `y`.
pub proof fn lemma_count_implied(x: Seq<bool>, y: Seq<bool>, n: int)
    requires
        forall|i: int| 0 <= i < n ==> (x[i] ==> y[i]),
    ensures
        count_upto(x, n) <= count_upto(y, n),
    decreases n,
{
    if n > 0 {
        lemma_count_implied(x, y, n - 1);
    }
}

/// Where `z` is the pointwise disjunction of `x` and `y`, and these never
/// hold together, the count of `z` is the sum of the two counts.
pub proof fn lemma_count_split(z: Seq<bool>, x: Seq<bool>, y: Seq<bool>, n: int)
    requires
        forall|i: int| 0 <= i < n ==> z[i] == (x[i] || y[i]),
        forall|i: int| 0 <= i < n ==> !(x[i] && y[i]),
    ensures
        count_upto(z, n) == count_upto(x, n) + count_upto(y, n),
    decreases n,
{
    if n > 0 {
        lemma_count_split(z, x, y, n - 1);
    }
}

/// Where no two distinct entries are both `true`, the count is at most one.
pub proof fn lemma_count_unique(bits: Seq<bool>, n: int)
    requires
        forall|i: int, j: int| 0 <= i < n && 0 <= j < n && bits[i] && bits[j] ==> i == j,
    ensures
        count_upto(bits, n) <= 1,
    decreases n,
{
    if n > 0 {
        if bits[n - 1] {
            assert forall|i: int| 0 <= i < n - 1 implies !bits[i] by {
                if bits[i] {
                    assert(i == n - 1);
                }
            }
            lemma_count_none(bits, n - 1);
        } else {
            lemma_count_unique(bits, n - 1);
        }
    }
}

} // verus!
