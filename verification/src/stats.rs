//! Index arithmetic of the statistics table.
//!
//! The descriptive statistics themselves are floating-point and live with
//! the presentation layer; what is verified here is the part that decides
//! *which* elements the percentile rows report: the nearest-rank index,
//! `round(p/100 * (n-1))` with halves rounding up, computed exactly in
//! integer arithmetic for the three percentiles the table shows.

use vstd::prelude::*;
use vstd::arithmetic::div_mod::{lemma_div_is_ordered, lemma_fundamental_div_mod};

verus! {

/// The index of the nearest-rank percentile `p` in a sorted sequence of
/// `n` values: `p/100 * (n-1)`, rounded to the nearest integer with halves
/// rounded up.
pub open spec fn nearest_rank_index(p: int, n: int) -> int {
    (2 * p * (n - 1) + 100) / 200
}

proof fn lemma_index_bound(p: int, n: int)
    requires
        p == 25 || p == 50 || p == 75,
        n >= 1,
    ensures
        0 <= nearest_rank_index(p, n) < n,
{
    let m = n - 1;
    let a = 2 * p * m + 100;
    assert(2 * p * m <= 150 * m) by (nonlinear_arith)
        requires
            p <= 75,
            m >= 0,
    ;
    assert(2 * p * m >= 0) by (nonlinear_arith)
        requires
            p >= 0,
            m >= 0,
    ;
    lemma_fundamental_div_mod(a, 200);
    let q = a / 200;
    let rr = a % 200;
    assert(a == 200 * q + rr);
    assert(0 <= rr < 200);
    if q >= m + 1 {
        assert(200 * q >= 200 * (m + 1)) by (nonlinear_arith)
            requires
                q >= m + 1,
        ;
        assert(false);
    }
    if q < 0 {
        assert(200 * q <= -200) by (nonlinear_arith)
            requires
                q <= -1,
        ;
        assert(false);
    }
}

/// Percentile index monotonicity: the nearest-rank indices for the 25th,
/// 50th and 75th percentiles never decrease, and stay within the sorted
/// sequence. On a column sorted ascending, the values those indices select
/// therefore satisfy `p25 <= p50 <= p75`.
pub proof fn lemma_percentile_monotone(n: int)
    requires
        n >= 1,
    ensures
        0 <= nearest_rank_index(25, n),
        nearest_rank_index(25, n) <= nearest_rank_index(50, n),
        nearest_rank_index(50, n) <= nearest_rank_index(75, n),
        nearest_rank_index(75, n) < n,
{
    let m = n - 1;
    assert(2 * 25 * m + 100 <= 2 * 50 * m + 100) by (nonlinear_arith)
        requires
            m >= 0,
    ;
    assert(2 * 50 * m + 100 <= 2 * 75 * m + 100) by (nonlinear_arith)
        requires
            m >= 0,
    ;
    lemma_div_is_ordered(2 * 25 * m + 100, 2 * 50 * m + 100, 200);
    lemma_div_is_ordered(2 * 50 * m + 100, 2 * 75 * m + 100, 200);
    lemma_index_bound(25, n);
    lemma_index_bound(75, n);
}

/// The index the statistics table reads for percentile `p` of a sorted
/// column of `n` values.
pub fn percentile_index(p: usize, n: usize) -> (r: usize)
    requires
        p == 25 || p == 50 || p == 75,
        1 <= n,
        n - 1 <= (usize::MAX - 100) / 150,
    ensures
        r == nearest_rank_index(p as int, n as int),
        r < n,
{
    proof {
        lemma_index_bound(p as int, n as int);
    }
    (2 * p * (n - 1) + 100) / 200
}

/// The three indices the statistics table reads: the 25th, 50th and 75th
/// nearest-rank percentiles of a sorted column of `n` values, in
/// non-decreasing order and in bounds.
pub fn percentile_indices(n: usize) -> (r: (usize, usize, usize))
    requires
        1 <= n,
        n - 1 <= (usize::MAX - 100) / 150,
    ensures
        r.0 == nearest_rank_index(25, n as int),
        r.1 == nearest_rank_index(50, n as int),
        r.2 == nearest_rank_index(75, n as int),
        r.0 <= r.1 <= r.2 < n,
{
    proof {
        lemma_percentile_monotone(n as int);
    }
    (percentile_index(25, n), percentile_index(50, n), percentile_index(75, n))
}

/// The fixed ten statistic names of the summary table, in row order.
pub fn stat_names() -> (r: Vec<String>)
    ensures
        r@.len() == 10,
        r@[0]@ == "mean"@,
        r@[1]@ == "median"@,
        r@[2]@ == "range"@,
        r@[3]@ == "variance"@,
        r@[4]@ == "standard deviation"@,
        r@[5]@ == "percentile 25"@,
        r@[6]@ == "percentile 50"@,
        r@[7]@ == "percentile 75"@,
        r@[8]@ == "skewness"@,
        r@[9]@ == "kurtosis"@,
{
    let mut r: Vec<String> = Vec::new();
    r.push(String::from_str("mean"));
    r.push(String::from_str("median"));
    r.push(String::from_str("range"));
    r.push(String::from_str("variance"));
    r.push(String::from_str("standard deviation"));
    r.push(String::from_str("percentile 25"));
    r.push(String::from_str("percentile 50"));
    r.push(String::from_str("percentile 75"));
    r.push(String::from_str("skewness"));
    r.push(String::from_str("kurtosis"));
    r
}

} // verus!
