//! Why the kept samples give every value below the bound equally often, and
//! how few samples are rejected.

use vstd::prelude::*;
use vstd::arithmetic::div_mod::{lemma_fundamental_div_mod, lemma_fundamental_div_mod_converse};
use vstd::set_lib::{lemma_int_range, lemma_len_subset, lemma_set_disjoint_lens, set_int_range};
use crate::scaling::{accepted, candidate, lemma_candidate_below_max, product, threshold};
use crate::words::word_count;

verus! {

/// The samples that are kept under the bound `max` and scaled to `v`.
pub open spec fn kept_samples(max: u64, v: int) -> Set<int> {
    Set::new(
        |s: int|
            0 <= s < word_count() && accepted(s as u64, max) && candidate(s as u64, max) == v,
    )
}

/// The least multiplier that lifts `m` to `a` or above: `a / m` rounded up.
pub open spec fn quotient_up(a: int, m: int) -> int
    recommends
        m > 0,
{
    (a + m - 1) / m
}

/// A multiple `s * m` reaches `a` exactly when `s` reaches `a / m` rounded
/// up.
proof fn lemma_quotient_up(a: int, m: int, s: int)
    requires
        m > 0,
    ensures
        s * m >= a <==> s >= quotient_up(a, m),
{
    let up = quotient_up(a, m);
    lemma_fundamental_div_mod(a + m - 1, m);
    assert(s >= up ==> s * m >= up * m) by (nonlinear_arith)
        requires
            m > 0,
    ;
    assert(s < up ==> s * m <= up * m - m) by (nonlinear_arith)
        requires
            m > 0,
    ;
    assert(m * up == up * m) by (nonlinear_arith);
}

/// A sample is kept and scaled to `v` exactly when its product lies in the
/// upper part of the interval of `v`, from `v * 2^64 + threshold` up to the
/// next multiple of 2^64.
proof fn lemma_kept_by_product(max: u64, v: int, sample: u64)
    requires
        max > 0,
    ensures
        (accepted(sample, max) && candidate(sample, max) == v) <==> (v * word_count() + threshold(
            max,
        ) <= product(sample, max) < (v + 1) * word_count()),
{
    let w = word_count();
    let p = product(sample, max);
    lemma_fundamental_div_mod(p, w);
    assert(w * v == v * w && (v + 1) * w == v * w + w && w * (p / w) == (p / w) * w)
        by (nonlinear_arith);
    if v * w + threshold(max) <= p < (v + 1) * w {
        lemma_fundamental_div_mod_converse(p, w, v, p - v * w);
    }
}

/// The samples kept for `v` are `2^64 / max` consecutive numbers.
pub proof fn lemma_kept_samples_are_a_range(max: u64, v: int)
    requires
        max > 0,
        0 <= v < max,
    ensures
        quotient_up(v * word_count() + threshold(max), max as int) >= 0,
        kept_samples(max, v) == set_int_range(
            quotient_up(v * word_count() + threshold(max), max as int),
            quotient_up(v * word_count() + threshold(max), max as int) + word_count() / (
            max as int),
        ),
{
    let w = word_count();
    let m = max as int;
    let q = w / m;
    let a = v * w + threshold(max);
    let lo = quotient_up(a, m);
    lemma_fundamental_div_mod(w, m);
    assert(0 <= v * w && (v + 1) * w <= m * w && (v + 1) * w == v * w + w && m * q == q * m)
        by (nonlinear_arith)
        requires
            0 <= v < m,
            w > 0,
    ;
    lemma_quotient_up(a, m, 0);
    assert forall|s: int| kept_samples(max, v).contains(s) <==> lo <= s < lo + q by {
        lemma_quotient_up(a, m, s);
        lemma_quotient_up(a, m, s - q);
        assert((s - q) * m == s * m - q * m) by (nonlinear_arith);
        if 0 <= s < w {
            lemma_kept_by_product(max, v, s as u64);
        } else if lo <= s < lo + q {
            assert(s * m >= w * m) by (nonlinear_arith)
                requires
                    s >= w,
                    m > 0,
            ;
            assert(w * m == m * w) by (nonlinear_arith);
        }
    }
    assert(kept_samples(max, v) =~= set_int_range(lo, lo + q));
}

/// Each value below the bound is the candidate of the same number of kept
/// samples, `2^64 / max` of them: a sample drawn evenly from all 64-bit
/// words and kept is scaled to each value with the same chance.
pub proof fn lemma_each_value_equally_often(max: u64, v: int)
    requires
        max > 0,
        0 <= v < max,
    ensures
        kept_samples(max, v).finite(),
        kept_samples(max, v).len() == word_count() / (max as int),
        word_count() / (max as int) >= 1,
{
    let w = word_count();
    let m = max as int;
    lemma_kept_samples_are_a_range(max, v);
    lemma_fundamental_div_mod(w, m);
    assert(w / m >= 1) by (nonlinear_arith)
        requires
            0 < m < w,
            w == m * (w / m) + w % m,
            0 <= w % m < m,
    ;
    let lo = quotient_up(v * w + threshold(max), m);
    lemma_int_range(lo, lo + w / m);
}

/// The samples that are rejected under the bound `max`.
pub open spec fn rejected_samples(max: u64) -> Set<int> {
    Set::new(|s: int| 0 <= s < word_count() && !accepted(s as u64, max))
}

/// The samples that are kept under the bound `max` and scaled to a value
/// below `k`.
pub open spec fn kept_below(max: u64, k: int) -> Set<int> {
    Set::new(
        |s: int|
            0 <= s < word_count() && accepted(s as u64, max) && candidate(s as u64, max) < k,
    )
}

/// The values below `k` have `k * (2^64 / max)` kept samples between them.
proof fn lemma_kept_below_count(max: u64, k: int)
    requires
        max > 0,
        0 <= k <= max,
    ensures
        kept_below(max, k).finite(),
        kept_below(max, k).len() == k * (word_count() / (max as int)),
    decreases k,
{
    let q = word_count() / (max as int);
    if k == 0 {
        assert forall|s: int| !kept_below(max, 0).contains(s) by {
            if 0 <= s < word_count() {
                lemma_candidate_below_max(s as u64, max);
            }
        }
        assert(kept_below(max, 0) =~= Set::empty());
        assert(0 * q == 0) by (nonlinear_arith);
    } else {
        lemma_kept_below_count(max, k - 1);
        lemma_each_value_equally_often(max, k - 1);
        let before = kept_below(max, k - 1);
        let last = kept_samples(max, k - 1);
        assert(kept_below(max, k) =~= before + last);
        assert(before.disjoint(last));
        lemma_set_disjoint_lens(before, last);
        assert(k * q == (k - 1) * q + q) by (nonlinear_arith);
    }
}

/// The samples that are rejected number `2^64 mod max`, which is fewer than
/// half of all samples: a sample drawn evenly from all 64-bit words is
/// rejected with a chance below one half.
pub proof fn lemma_rejected_are_few(max: u64)
    requires
        max > 0,
    ensures
        rejected_samples(max).finite(),
        rejected_samples(max).len() == threshold(max),
        2 * threshold(max) < word_count(),
{
    let w = word_count();
    let m = max as int;
    let q = w / m;
    let all = set_int_range(0, w);
    let kept = kept_below(max, m);
    let rejected = rejected_samples(max);
    lemma_int_range(0, w);
    lemma_kept_below_count(max, m);
    lemma_len_subset(rejected, all);
    assert forall|s: int| all.contains(s) <==> (kept + rejected).contains(s) by {
        if 0 <= s < w {
            lemma_candidate_below_max(s as u64, max);
        }
    }
    assert(all =~= kept + rejected);
    assert(kept.disjoint(rejected));
    lemma_set_disjoint_lens(kept, rejected);
    lemma_fundamental_div_mod(w, m);
    assert(m * q >= m) by (nonlinear_arith)
        requires
            0 < m < w,
            w == m * q + w % m,
            0 <= w % m < m,
    ;
}

} // verus!
