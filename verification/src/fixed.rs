//! Saturating fixed-point arithmetic over `i64` values.
//!
//! Every quantity the trainer works with (model parameters, gradients,
//! learning rates, losses, the validation split) is an integer number of
//! `1/SCALE` units. Intermediate products and sums are computed in `i128`;
//! accumulators saturate at `ACC_LIMIT` and results saturate at the `i64`
//! range, so every operation is total and its result is pinned exactly by a
//! spec function.

use vstd::prelude::*;

verus! {

/// Number of fixed-point units in 1.0.
pub const SCALE: i64 = 1_000_000;

/// Magnitude at which running accumulators saturate. One more product of two
/// `i64` values still fits in an `i128` next to an accumulator bounded by
/// this, so accumulation never overflows.
pub const ACC_LIMIT: i128 = 0x1_0000_0000_0000_0000_0000_0000;

/// Saturate an unbounded integer into the `i64` range.
pub open spec fn sat64(x: int) -> int {
    if x > i64::MAX {
        i64::MAX as int
    } else if x < i64::MIN {
        i64::MIN as int
    } else {
        x
    }
}

/// Saturate an unbounded integer into `[-ACC_LIMIT, ACC_LIMIT]`.
pub open spec fn sat_acc(x: int) -> int {
    if x > ACC_LIMIT {
        ACC_LIMIT as int
    } else if x < -(ACC_LIMIT as int) {
        -(ACC_LIMIT as int)
    } else {
        x
    }
}

/// Truncating (round-toward-zero) division by a positive divisor: the
/// semantics of Rust's `/` on signed integers.
pub open spec fn tdiv(a: int, d: int) -> int
    recommends
        d >= 1,
{
    if a >= 0 {
        a / d
    } else {
        -((-a) / d)
    }
}

/// Sum of a sequence of `i64` values, as an unbounded integer.
pub open spec fn sum_seq(s: Seq<i64>) -> int
    decreases s.len(),
{
    if s.len() == 0 {
        0
    } else {
        sum_seq(s.drop_last()) + s.last()
    }
}

/// Arithmetic mean of a non-empty sequence, rounded toward zero.
pub open spec fn mean_seq(s: Seq<i64>) -> int
    recommends
        s.len() >= 1,
{
    tdiv(sum_seq(s), s.len() as int)
}

/// Saturate an `i128` into the `i64` range.
pub fn clamp_to_i64(x: i128) -> (r: i64)
    ensures
        r as int == sat64(x as int),
{
    if x > i64::MAX as i128 {
        i64::MAX
    } else if x < i64::MIN as i128 {
        i64::MIN
    } else {
        x as i64
    }
}

/// Saturate an `i128` into `[-ACC_LIMIT, ACC_LIMIT]`.
pub fn clamp_acc(x: i128) -> (r: i128)
    ensures
        r as int == sat_acc(x as int),
{
    if x > ACC_LIMIT {
        ACC_LIMIT
    } else if x < -ACC_LIMIT {
        -ACC_LIMIT
    } else {
        x
    }
}

/// Widening product of two `i64` values; never overflows an `i128`.
pub fn mul_wide(a: i64, b: i64) -> (r: i128)
    ensures
        r as int == a as int * b as int,
{
    proof {
        lemma_i64_product_fits(a as int, b as int);
    }
    (a as i128) * (b as i128)
}

/// The product of two `i64` values fits well inside an `i128`.
pub proof fn lemma_i64_product_fits(a: int, b: int)
    requires
        i64::MIN <= a <= i64::MAX,
        i64::MIN <= b <= i64::MAX,
    ensures
        -0x4000_0000_0000_0000_0000_0000_0000_0000 <= a * b
            <= 0x4000_0000_0000_0000_0000_0000_0000_0000,
{
    assert(i64::MIN <= a <= i64::MAX && i64::MIN <= b <= i64::MAX ==> a * b
        <= 0x4000_0000_0000_0000_0000_0000_0000_0000 && a * b
        >= -0x4000_0000_0000_0000_0000_0000_0000_0000) by (nonlinear_arith);
}

/// Truncating division of an `i128` by a positive `i128`.
pub fn div_trunc(a: i128, d: i128) -> (r: i128)
    requires
        d >= 1,
    ensures
        r as int == tdiv(a as int, d as int),
{
    a / d
}

/// Truncating division rounds toward zero and never grows the magnitude.
pub proof fn lemma_tdiv_bounds(a: int, d: int)
    requires
        d >= 1,
    ensures
        a >= 0 ==> 0 <= tdiv(a, d) <= a,
        a < 0 ==> a <= tdiv(a, d) <= 0,
{
    if a >= 0 {
        vstd::arithmetic::div_mod::lemma_div_is_ordered_by_denominator(a, 1, d);
        vstd::arithmetic::div_mod::lemma_div_basics(a);
        vstd::arithmetic::div_mod::lemma_div_pos_is_pos(a, d);
    } else {
        vstd::arithmetic::div_mod::lemma_div_is_ordered_by_denominator(-a, 1, d);
        vstd::arithmetic::div_mod::lemma_div_basics(-a);
        vstd::arithmetic::div_mod::lemma_div_pos_is_pos(-a, d);
    }
}

/// A multiple of the divisor divides back to the multiplier exactly.
pub proof fn lemma_tdiv_exact(v: int, d: int)
    requires
        d >= 1,
    ensures
        tdiv(v * d, d) == v,
{
    if v >= 0 {
        vstd::arithmetic::div_mod::lemma_div_multiples_vanish(v, d);
        assert(v * d == d * v) by (nonlinear_arith);
    } else {
        vstd::arithmetic::div_mod::lemma_div_multiples_vanish(-v, d);
        assert(-(v * d) == d * (-v)) by (nonlinear_arith);
    }
}

/// A sum of `len` values each within the `i64` range is within `len` times
/// that range.
pub proof fn lemma_sum_seq_bounds(s: Seq<i64>)
    ensures
        s.len() * (i64::MIN as int) <= sum_seq(s) <= s.len() * (i64::MAX as int),
    decreases s.len(),
{
    if s.len() == 0 {
    } else {
        lemma_sum_seq_bounds(s.drop_last());
        assert((s.len() - 1) * (i64::MIN as int) + i64::MIN == s.len() * (i64::MIN as int)
            && (s.len() - 1) * (i64::MAX as int) + i64::MAX == s.len() * (i64::MAX as int))
            by (nonlinear_arith);
    }
}

/// The mean of a non-empty sequence of `i64` values fits in an `i64`.
pub proof fn lemma_mean_seq_in_range(s: Seq<i64>)
    requires
        s.len() >= 1,
    ensures
        i64::MIN <= mean_seq(s) <= i64::MAX,
{
    lemma_sum_seq_bounds(s);
    let n = s.len() as int;
    let total = sum_seq(s);
    if total >= 0 {
        lemma_tdiv_bounds(total, n);
        vstd::arithmetic::div_mod::lemma_div_is_ordered(total, n * (i64::MAX as int), n);
        lemma_tdiv_exact(i64::MAX as int, n);
        assert(n * (i64::MAX as int) == (i64::MAX as int) * n) by (nonlinear_arith);
    } else {
        lemma_tdiv_bounds(total, n);
        vstd::arithmetic::div_mod::lemma_div_is_ordered(-total, -(n * (i64::MIN as int)), n);
        lemma_tdiv_exact(-(i64::MIN as int), n);
        assert(-(n * (i64::MIN as int)) == (-(i64::MIN as int)) * n) by (nonlinear_arith);
    }
}

/// The mean of a sequence of equal values is that value.
pub proof fn lemma_mean_seq_uniform(s: Seq<i64>, v: i64)
    requires
        s.len() >= 1,
        forall|i: int| 0 <= i < s.len() ==> s[i] == v,
    ensures
        mean_seq(s) == v as int,
{
    lemma_sum_seq_uniform(s, v);
    lemma_tdiv_exact(v as int, s.len() as int);
    assert((v as int) * (s.len() as int) == (s.len() as int) * (v as int)) by (nonlinear_arith);
}

/// The sum of a sequence of equal values is the value times the length.
pub proof fn lemma_sum_seq_uniform(s: Seq<i64>, v: i64)
    requires
        forall|i: int| 0 <= i < s.len() ==> s[i] == v,
    ensures
        sum_seq(s) == s.len() * (v as int),
    decreases s.len(),
{
    if s.len() == 0 {
    } else {
        lemma_sum_seq_uniform(s.drop_last(), v);
        assert((s.len() - 1) * (v as int) + v == s.len() * (v as int)) by (nonlinear_arith);
    }
}

/// The mean of a non-empty sequence of non-negative values is non-negative.
pub proof fn lemma_mean_seq_nonneg(s: Seq<i64>)
    requires
        s.len() >= 1,
        forall|i: int| 0 <= i < s.len() ==> s[i] >= 0,
    ensures
        mean_seq(s) >= 0,
{
    lemma_sum_seq_nonneg(s);
    lemma_tdiv_bounds(sum_seq(s), s.len() as int);
}

/// The sum of non-negative values is non-negative.
pub proof fn lemma_sum_seq_nonneg(s: Seq<i64>)
    requires
        forall|i: int| 0 <= i < s.len() ==> s[i] >= 0,
    ensures
        sum_seq(s) >= 0,
    decreases s.len(),
{
    if s.len() == 0 {
    } else {
        lemma_sum_seq_nonneg(s.drop_last());
    }
}

/// Arithmetic mean of a non-empty vector, rounded toward zero.
pub fn mean_i64(values: &Vec<i64>) -> (r: i64)
    requires
        values@.len() >= 1,
    ensures
        r as int == mean_seq(values@),
{
    let n = values.len();
    let mut total: i128 = 0;
    let mut i: usize = 0;
    while i < n
        invariant
            0 <= i <= n,
            n == values@.len(),
            total as int == sum_seq(values@.take(i as int)),
            i * (i64::MIN as int) <= total as int <= i * (i64::MAX as int),
        decreases n - i,
    {
        let v = values[i];
        proof {
            assert(values@.take(i + 1).drop_last() =~= values@.take(i as int));
            assert(values@.take(i + 1).last() == values@[i as int]);
            assert((i + 1) * (i64::MIN as int) == i * (i64::MIN as int) + i64::MIN && (i + 1) * (
            i64::MAX as int) == i * (i64::MAX as int) + i64::MAX) by (nonlinear_arith);
        }
        total = total + v as i128;
        i = i + 1;
    }
    proof {
        assert(values@.take(n as int) =~= values@);
        lemma_mean_seq_in_range(values@);
    }
    let m = div_trunc(total, n as i128);
    clamp_to_i64(m)
}

} // verus!
