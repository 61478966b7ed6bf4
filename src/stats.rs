//! Timing statistics of a measured benchmark: the mean and the population
//! variance of its samples, in whole nanoseconds.

use vstd::arithmetic::div_mod::{
    lemma_basic_div, lemma_div_by_multiple, lemma_div_is_ordered, lemma_div_multiples_vanish_quotient,
    lemma_fundamental_div_mod, lemma_multiply_divide_lt,
};
use vstd::prelude::*;

verus! {

/// libtest-mimic's benchmark result: a plain pair of public integer fields,
/// the average time and the variance in nanoseconds.
#[verifier::external_type_specification]
pub struct ExMeasurement(libtest_mimic::Measurement);

/// Number of timed invocations of a benchmark in measure mode.
pub const BENCH_ITERATIONS: usize = 1000;

/// The sum of the samples.
pub open spec fn sum_of(s: Seq<u64>) -> int
    decreases s.len(),
{
    if s.len() == 0 {
        0
    } else {
        sum_of(s.drop_last()) + s.last()
    }
}

/// The sum of the squares `(a * x - b)^2` over the samples `x`.
pub open spec fn sum_sq_affine(s: Seq<u64>, a: int, b: int) -> int
    decreases s.len(),
{
    if s.len() == 0 {
        0
    } else {
        sum_sq_affine(s.drop_last(), a, b) + (a * s.last() - b) * (a * s.last() - b)
    }
}

/// `n / d` rounded to the nearest integer, halves rounded up
/// (for `n >= 0` and `d > 0`).
pub open spec fn round_div(n: int, d: int) -> int {
    (2 * n + d) / (2 * d)
}

/// The arithmetic mean of the samples, rounded to the nearest integer.
pub open spec fn mean_nanos(s: Seq<u64>) -> int {
    round_div(sum_of(s), s.len() as int)
}

/// The population variance of the samples (squared deviations from the mean,
/// divided by their number), rounded to the nearest integer.
///
/// With `n` samples of sum `S` the mean is `S / n`, so each squared deviation
/// `(x - S / n)^2` is `(n * x - S)^2 / n^2`, and the variance is
/// `sum (n * x - S)^2 / n^3`.
pub open spec fn variance_nanos(s: Seq<u64>) -> int {
    let n = s.len() as int;
    round_div(sum_sq_affine(s, n, sum_of(s)), n * n * n)
}

/// `v` as a `u64`, saturating at `u64::MAX`.
pub open spec fn saturate(v: int) -> u64 {
    if v > u64::MAX {
        u64::MAX
    } else {
        v as u64
    }
}

/// The measurement reported for the samples.
pub open spec fn measurement_spec(s: Seq<u64>) -> libtest_mimic::Measurement {
    libtest_mimic::Measurement { avg: mean_nanos(s) as u64, variance: saturate(variance_nanos(s)) }
}

proof fn lemma_sum_bound(s: Seq<u64>)
    ensures
        0 <= sum_of(s) <= s.len() * u64::MAX,
    decreases s.len(),
{
    if s.len() > 0 {
        lemma_sum_bound(s.drop_last());
    }
}

proof fn lemma_sum_sq_nonneg(s: Seq<u64>, a: int, b: int)
    ensures
        0 <= sum_sq_affine(s, a, b),
    decreases s.len(),
{
    if s.len() > 0 {
        lemma_sum_sq_nonneg(s.drop_last(), a, b);
        let t = a * s.last() - b;
        assert(0 <= t * t) by (nonlinear_arith);
    }
}

/// The sum over a prefix is at most the sum over the whole sequence.
proof fn lemma_sum_sq_prefix_le(s: Seq<u64>, a: int, b: int, k: int)
    requires
        0 <= k <= s.len(),
    ensures
        sum_sq_affine(s.subrange(0, k), a, b) <= sum_sq_affine(s, a, b),
    decreases s.len(),
{
    if k < s.len() {
        assert(s.drop_last().subrange(0, k) =~= s.subrange(0, k));
        lemma_sum_sq_prefix_le(s.drop_last(), a, b, k);
        let t = a * s.last() - b;
        assert(0 <= t * t) by (nonlinear_arith);
    } else {
        assert(s.subrange(0, k) =~= s);
    }
}

/// Rewriting `a * x - b` as `a * (x - c) + (a * c - b)` inside the sum of
/// squares.
proof fn lemma_sum_sq_shift(s: Seq<u64>, a: int, b: int, c: int)
    ensures
        sum_sq_affine(s, a, b) == a * a * sum_sq_affine(s, 1, c) + 2 * a * (a * c - b) * (sum_of(s)
            - s.len() * c) + s.len() * ((a * c - b) * (a * c - b)),
    decreases s.len(),
{
    if s.len() > 0 {
        let p = s.drop_last();
        lemma_sum_sq_shift(p, a, b, c);
        let x = s.last() as int;
        let e = a * c - b;
        let d = x - c;
        assert((a * x - b) * (a * x - b) == a * a * (d * d) + 2 * a * e * d + e * e)
            by (nonlinear_arith)
            requires
                e == a * c - b,
                d == x - c,
        ;
        let qp = sum_sq_affine(p, 1, c);
        let sp = sum_of(p);
        let np = p.len() as int;
        assert((1 * x - c) * (1 * x - c) == d * d);
        assert(a * a * (qp + d * d) == a * a * qp + a * a * (d * d)) by (nonlinear_arith);
        let k = 2 * a * e;
        assert(k * ((sp + x) - (np + 1) * c) == k * (sp - np * c) + k * d) by (nonlinear_arith)
            requires
                d == x - c,
        ;
        assert((np + 1) * (e * e) == np * (e * e) + e * e) by (nonlinear_arith);
        assert(sum_sq_affine(s, a, b) == sum_sq_affine(p, a, b) + (a * x - b) * (a * x - b));
        assert(sum_sq_affine(s, a, b) == a * a * (qp + d * d) + k * ((sp + x) - (np + 1) * c) + (np
            + 1) * (e * e));
    } else {
        let e = a * c - b;
        assert(a * a * 0 + 2 * a * e * (0 - 0 * c) + 0 * (e * e) == 0) by (nonlinear_arith);
    }
}

/// The sum of the samples; for at most `BENCH_ITERATIONS` of them it fits
/// comfortably in a `u128`.
fn sum_samples(samples: &[u64]) -> (r: u128)
    requires
        samples@.len() <= BENCH_ITERATIONS,
    ensures
        r == sum_of(samples@),
{
    let mut total: u128 = 0;
    let mut i: usize = 0;
    while i < samples.len()
        invariant
            i <= samples@.len() <= BENCH_ITERATIONS,
            total == sum_of(samples@.subrange(0, i as int)),
            total <= i * (u64::MAX as int),
        decreases samples@.len() - i,
    {
        assert(samples@.subrange(0, i + 1).drop_last() =~= samples@.subrange(0, i as int));
        total = total + samples[i] as u128;
        i += 1;
    }
    assert(samples@.subrange(0, i as int) =~= samples@);
    total
}

/// The mean and the population variance of the samples, each rounded to the
/// nearest integer nanosecond; the variance saturates at `u64::MAX`.
pub fn measurement_of(samples: &[u64]) -> (r: libtest_mimic::Measurement)
    requires
        0 < samples@.len() <= BENCH_ITERATIONS,
    ensures
        r == measurement_spec(samples@),
{
    let ghost s = samples@;
    let n = samples.len() as u128;
    let total = sum_samples(samples);
    proof {
        lemma_sum_bound(s);
        assert(total <= n * (u64::MAX as int)) by (nonlinear_arith)
            requires
                total <= s.len() * u64::MAX,
                n == s.len(),
        ;
    }
    // mean, rounded
    let avg = (2 * total + n) / (2 * n);
    proof {
        assert(2 * total + n < (2 * n) * (u64::MAX as int + 1)) by (nonlinear_arith)
            requires
                total <= n * (u64::MAX as int),
                n > 0,
        ;
        lemma_multiply_divide_lt(2 * total + n, 2 * n as int, u64::MAX as int + 1);
    }
    let avg = avg as u64;
    let variance = variance_of(samples, total);
    libtest_mimic::Measurement { avg, variance }
}

/// The population variance of the samples, rounded and saturated, given their
/// sum.
fn variance_of(samples: &[u64], total: u128) -> (r: u64)
    requires
        0 < samples@.len() <= BENCH_ITERATIONS,
        total == sum_of(samples@),
    ensures
        r == saturate(variance_nanos(samples@)),
{
    let ghost s = samples@;
    let n = samples.len() as u128;
    // integer part of the mean and the remainder: total == n * m + rem
    let m = total / n;
    let rem = total % n;
    proof {
        lemma_sum_bound(s);
        lemma_fundamental_div_mod(total as int, n as int);
        lemma_div_is_ordered(total as int, n * (u64::MAX as int), n as int);
        assert(n * (u64::MAX as int) == (u64::MAX as int) * n) by (nonlinear_arith);
        lemma_div_by_multiple(u64::MAX as int, n as int);
    }
    let cap: u128 = (u64::MAX as u128 + 2) * n;
    let deviations = squared_deviations(samples, m as u64, cap);
    proof {
        lemma_sum_sq_shift(s, n as int, total as int, m as int);
        lemma_sum_sq_nonneg(s, n as int, total as int);
        lemma_shift_by_mean(s, n as int, total as int, m as int, rem as int);
    }
    let dev = match deviations {
        Some(dev) => dev,
        None => {
        proof {
            let q = sum_sq_affine(s, 1, m as int);
            let big = sum_sq_affine(s, n as int, total as int);
            let nn = n as int;
            assert(nn * q - rem * rem > nn * nn * (u64::MAX as int + 1)) by (nonlinear_arith)
                requires
                    q > (u64::MAX as int + 2) * nn,
                    0 <= rem < nn,
                    nn > 0,
            ;
            lemma_round_scaled(nn * q - rem * rem, nn);
            assert(nn * nn > 0) by (nonlinear_arith)
                requires
                    nn > 0,
            ;
            lemma_round_at_least(nn * q - rem * rem, nn * nn, u64::MAX as int + 1);
        }
        return u64::MAX;
        },
    };
    // n * dev - rem^2 is n^2 times the exact variance
    let ghost q = dev as int;
    let ghost nn = n as int;
    let ghost big = sum_sq_affine(s, nn, total as int);
    proof {
        assert(nn * q - rem * rem >= 0) by (nonlinear_arith)
            requires
                big == nn * (nn * q - rem * rem),
                big >= 0,
                nn > 0,
        ;
        assert(n * dev <= BENCH_ITERATIONS * ((u64::MAX as int + 2) * BENCH_ITERATIONS))
            by (nonlinear_arith)
            requires
                dev <= (u64::MAX as int + 2) * n,
                n <= BENCH_ITERATIONS,
        ;
        assert(rem * rem <= n * dev) by (nonlinear_arith)
            requires
                nn * q - rem * rem >= 0,
                q == dev,
                nn == n,
        ;
        lemma_round_scaled(nn * q - rem * rem, nn);
    }
    let num = n * dev - rem * rem;
    assert(2 * num + n * n < 0x1_0000_0000_0000_0000_0000_0000_0000_0000) by (nonlinear_arith)
        requires
            num <= n * dev,
            n * dev <= BENCH_ITERATIONS * ((u64::MAX as int + 2) * BENCH_ITERATIONS),
            n <= BENCH_ITERATIONS,
    ;
    assert(0 < 2 * (n * n) <= 2 * (BENCH_ITERATIONS * BENCH_ITERATIONS)) by (nonlinear_arith)
        requires
            0 < n <= BENCH_ITERATIONS,
    ;
    let v = (2 * num + n * n) / (2 * (n * n));
    if v > u64::MAX as u128 {
        u64::MAX
    } else {
        v as u64
    }
}

/// The sum of squared deviations `(x - m)^2` of the samples, or `None` when
/// it exceeds `cap`.
fn squared_deviations(samples: &[u64], m: u64, cap: u128) -> (r: Option<u128>)
    requires
        samples@.len() <= BENCH_ITERATIONS,
        cap >= 0,
    ensures
        r matches Some(d) ==> d == sum_sq_affine(samples@, 1, m as int) && d <= cap,
        r is None ==> sum_sq_affine(samples@, 1, m as int) > cap,
{
    let ghost s = samples@;
    let mut dev: u128 = 0;
    let mut i: usize = 0;
    while i < samples.len()
        invariant
            s == samples@,
            i <= s.len(),
            dev == sum_sq_affine(s.subrange(0, i as int), 1, m as int),
            dev <= cap,
        decreases s.len() - i,
    {
        let x = samples[i];
        let d: u128 = if x >= m {
            (x - m) as u128
        } else {
            (m - x) as u128
        };
        assert(d * d == (1 * x - m) * (1 * x - m)) by (nonlinear_arith)
            requires
                d == x - m || d == m - x,
        ;
        assert(d * d < 0x1_0000_0000_0000_0000_0000_0000_0000_0000) by (nonlinear_arith)
            requires
                d <= u64::MAX,
        ;
        let dsq = d * d;
        assert(s.subrange(0, i + 1).drop_last() =~= s.subrange(0, i as int));
        if dsq > cap - dev {
            proof {
                lemma_sum_sq_prefix_le(s, 1, m as int, i + 1);
            }
            return None;
        }
        dev = dev + dsq;
        i += 1;
    }
    assert(s.subrange(0, i as int) =~= s);
    Some(dev)
}

/// With `total == n * m + rem` and `n` samples, the scaled squared deviations
/// from the mean are `n * (n * q - rem^2)`, where `q` sums `(x - m)^2`.
proof fn lemma_shift_by_mean(s: Seq<u64>, n: int, total: int, m: int, rem: int)
    requires
        n == s.len(),
        total == sum_of(s),
        total == n * m + rem,
    ensures
        sum_sq_affine(s, n, total) == n * (n * sum_sq_affine(s, 1, m) - rem * rem),
{
    lemma_sum_sq_shift(s, n, total, m);
    let q = sum_sq_affine(s, 1, m);
    let big = sum_sq_affine(s, n, total);
    assert(big == n * (n * q - rem * rem)) by (nonlinear_arith)
        requires
            big == n * n * q + 2 * n * (n * m - total) * (total - n * m) + n * ((n * m - total) * (
            n * m - total)),
            total == n * m + rem,
    ;
}

/// Scaling numerator and denominator by `n` keeps the rounded quotient.
proof fn lemma_round_scaled(v: int, n: int)
    requires
        v >= 0,
        n > 0,
    ensures
        round_div(n * v, n * n * n) == round_div(v, n * n),
{
    assert(2 * (n * v) + n * n * n == n * (2 * v + n * n)) by (nonlinear_arith);
    assert(2 * (n * n * n) == n * (2 * (n * n))) by (nonlinear_arith);
    assert(n * n > 0) by (nonlinear_arith)
        requires
            n > 0,
    ;
    lemma_div_multiples_vanish_quotient(n, 2 * v + n * n, 2 * (n * n));
}

/// A quotient `v / d` above `k` rounds to at least `k`.
proof fn lemma_round_at_least(v: int, d: int, k: int)
    requires
        d > 0,
        k >= 0,
        v > d * k,
    ensures
        round_div(v, d) >= k,
{
    assert(2 * v + d >= k * (2 * d)) by (nonlinear_arith)
        requires
            v > d * k,
            d > 0,
    ;
    lemma_div_is_ordered(k * (2 * d), 2 * v + d, 2 * d);
    lemma_div_by_multiple(k, 2 * d);
}

/// Samples that are all equal to `c` have mean `c` and variance zero: a
/// constant-time entry point reports no variance.
pub proof fn constant_samples_have_no_variance(s: Seq<u64>, c: u64)
    requires
        0 < s.len(),
        forall|i: int| 0 <= i < s.len() ==> s[i] == c,
    ensures
        measurement_spec(s).avg == c,
        measurement_spec(s).variance == 0,
{
    lemma_constant_sums(s, c);
    let n = s.len() as int;
    assert(sum_sq_affine(s, n, n * c) == 0);
    assert(2 * (n * c) + n == (2 * c + 1) * n) by (nonlinear_arith);
    lemma_div_multiples_vanish_quotient(n, 2 * c + 1, 2);
    assert((2 * c + 1) / 2 == c as int);
    assert(n * (2 * c + 1) == (2 * c + 1) * n) by (nonlinear_arith);
    assert(n * 2 == 2 * n) by (nonlinear_arith);
    assert(n * n * n > 0) by (nonlinear_arith)
        requires
            n > 0,
    ;
    lemma_basic_div(n * n * n, 2 * (n * n * n));
    assert(round_div(0, n * n * n) == 0);
}

proof fn lemma_constant_sums(s: Seq<u64>, c: u64)
    requires
        forall|i: int| 0 <= i < s.len() ==> s[i] == c,
    ensures
        sum_of(s) == s.len() * c,
        forall|a: int| #[trigger] sum_sq_affine(s, a, a * c) == 0,
    decreases s.len(),
{
    if s.len() > 0 {
        lemma_constant_sums(s.drop_last(), c);
        assert(sum_of(s) == (s.len() - 1) * c + c);
        assert((s.len() - 1) * c + c == s.len() * c) by (nonlinear_arith);
        assert forall|a: int| #[trigger] sum_sq_affine(s, a, a * c) == 0 by {
            assert(sum_sq_affine(s.drop_last(), a, a * c) == 0);
        }
    }
}

} // verus!
