//! Mean and population standard deviation of a sample set, in exact arithmetic on whole
//! numbers: the samples are elapsed times in nanoseconds.

use vstd::prelude::*;

verus! {

/// The sum of the samples.
pub open spec fn total(samples: Seq<u64>) -> nat
    decreases samples.len(),
{
    if samples.len() == 0 {
        0
    } else {
        total(samples.drop_last()) + samples.last() as nat
    }
}

/// The sum of the squares of the samples.
pub open spec fn total_of_squares(samples: Seq<u64>) -> nat
    decreases samples.len(),
{
    if samples.len() == 0 {
        0
    } else {
        total_of_squares(samples.drop_last()) + samples.last() as nat * samples.last() as nat
    }
}

/// The sum over the samples `x` of the square of `scale * x - centre`.
pub open spec fn squared_distances(samples: Seq<u64>, scale: int, centre: int) -> int
    decreases samples.len(),
{
    if samples.len() == 0 {
        0
    } else {
        squared_distances(samples.drop_last(), scale, centre) + (scale * samples.last() - centre)
            * (scale * samples.last() - centre)
    }
}

/// The number of samples times the sum of their squares, less the square of their sum.
/// For `n` samples this is `n * n` times the population variance.
pub open spec fn spread(samples: Seq<u64>) -> int {
    samples.len() * total_of_squares(samples) - total(samples) * total(samples)
}

/// `mean` is the arithmetic average of the samples, rounded down to a whole number.
pub open spec fn is_mean(mean: nat, samples: Seq<u64>) -> bool {
    mean * samples.len() <= total(samples) < (mean + 1) * samples.len()
}

/// `deviation` is the population standard deviation of the samples, the square root of
/// their variance, rounded down to a whole number.
pub open spec fn is_deviation(deviation: nat, samples: Seq<u64>) -> bool {
    let n = samples.len();
    deviation * deviation * n * n <= spread(samples) < (deviation + 1) * (deviation + 1) * n * n
}

/// The spread of the samples can be computed in 128 bits.
pub open spec fn in_range(samples: Seq<u64>) -> bool {
    samples.len() * total_of_squares(samples) <= u128::MAX
}

/// The samples are too many or too large for their spread to be computed in 128 bits.
#[derive(Clone, Copy, Debug, PartialEq, Eq, Structural)]
pub struct OutOfRange;

/// The sum of `n` samples is at most `n` times the largest value a sample can have.
proof fn lemma_total_bound(samples: Seq<u64>)
    ensures
        total(samples) <= samples.len() * u64::MAX,
    decreases samples.len(),
{
    if samples.len() > 0 {
        lemma_total_bound(samples.drop_last());
        assert(samples.len() * u64::MAX == (samples.len() - 1) * u64::MAX + u64::MAX)
            by (nonlinear_arith);
    }
}

/// The sum of the squares of the first `n` samples is at most that of all of them.
proof fn lemma_squares_grow(samples: Seq<u64>, n: int)
    requires
        0 <= n <= samples.len(),
    ensures
        total_of_squares(samples.take(n)) <= total_of_squares(samples),
    decreases samples.len(),
{
    if n == samples.len() {
        assert(samples.take(n) =~= samples);
    } else {
        lemma_squares_grow(samples.drop_last(), n);
        assert(samples.drop_last().take(n) =~= samples.take(n));
    }
}

/// The sum of squared distances is never negative, and expands as a square does.
pub proof fn lemma_squared_distances(samples: Seq<u64>, scale: int, centre: int)
    ensures
        squared_distances(samples, scale, centre) >= 0,
        squared_distances(samples, scale, centre) == scale * scale * total_of_squares(samples)
            - 2 * scale * centre * total(samples) + samples.len() * centre * centre,
    decreases samples.len(),
{
    let q = total_of_squares(samples) as int;
    let t = total(samples) as int;
    let n = samples.len() as int;
    if samples.len() == 0 {
        assert(scale * scale * q - 2 * scale * centre * t + n * centre * centre == 0)
            by (nonlinear_arith)
            requires
                q == 0,
                t == 0,
                n == 0,
        ;
    } else {
        let rest = samples.drop_last();
        let x = samples.last() as int;
        let rest_q = total_of_squares(rest) as int;
        let rest_t = total(rest) as int;
        let step = (scale * x - centre) * (scale * x - centre);
        lemma_squared_distances(rest, scale, centre);
        assert(step >= 0) by (nonlinear_arith)
            requires
                step == (scale * x - centre) * (scale * x - centre),
        ;
        assert(scale * scale * rest_q - 2 * scale * centre * rest_t + (n - 1) * centre * centre
            + step == scale * scale * q - 2 * scale * centre * t + n * centre * centre)
            by (nonlinear_arith)
            requires
                q == rest_q + x * x,
                t == rest_t + x,
                step == (scale * x - centre) * (scale * x - centre),
        ;
    }
}

/// The spread is the variance seen through whole numbers: `n` times the spread is the sum
/// of the squares of `n * x - total` over the samples `x`, and `n * x - total` is `n`
/// times the distance of `x` from the mean. So the spread is `n * n` times the mean of
/// the squared distances from the mean, and it is never negative.
pub proof fn lemma_spread_is_variance(samples: Seq<u64>)
    ensures
        samples.len() * spread(samples) == squared_distances(
            samples,
            samples.len() as int,
            total(samples) as int,
        ),
        spread(samples) >= 0,
{
    let n = samples.len() as int;
    let t = total(samples) as int;
    let q = total_of_squares(samples) as int;
    lemma_squared_distances(samples, n, t);
    assert(n * (n * q - t * t) == n * n * q - 2 * n * t * t + n * t * t) by (nonlinear_arith);
    if n > 0 {
        assert(n * q - t * t >= 0) by (nonlinear_arith)
            requires
                n > 0,
                n * (n * q - t * t) >= 0,
        ;
    }
}

/// Taking one sample out lowers the two sums by that sample and by its square.
proof fn lemma_sums_without(samples: Seq<u64>, i: int)
    requires
        0 <= i < samples.len(),
    ensures
        total(samples) == total(samples.remove(i)) + samples[i],
        total_of_squares(samples) == total_of_squares(samples.remove(i)) + samples[i]
            * samples[i],
    decreases samples.len(),
{
    if i == samples.len() - 1 {
        assert(samples.remove(i) =~= samples.drop_last());
    } else {
        lemma_sums_without(samples.drop_last(), i);
        assert(samples.remove(i).drop_last() =~= samples.drop_last().remove(i));
    }
}

/// The order of the samples does not matter: two sample sets that hold the same samples
/// equally often have the same sums, so the same spread, mean and deviation.
pub proof fn lemma_order_does_not_matter(first: Seq<u64>, second: Seq<u64>)
    requires
        first.to_multiset() == second.to_multiset(),
    ensures
        first.len() == second.len(),
        total(first) == total(second),
        total_of_squares(first) == total_of_squares(second),
        spread(first) == spread(second),
    decreases first.len(),
{
    first.to_multiset_ensures();
    second.to_multiset_ensures();
    if first.len() == 0 {
        assert(second =~= first);
    } else {
        let sample = first.last();
        let rest = first.drop_last();
        assert(first =~= rest.push(sample));
        vstd::seq_lib::to_multiset_build(rest, sample);
        assert(second.to_multiset().count(sample) > 0);
        let i = choose|i: int| 0 <= i < second.len() && second[i] == sample;
        vstd::seq_lib::to_multiset_remove(second, i);
        assert(second.remove(i).to_multiset() =~= rest.to_multiset());
        lemma_order_does_not_matter(rest, second.remove(i));
        lemma_sums_without(second, i);
    }
}

/// A sample set has at most one mean and at most one deviation: computing them again
/// gives the same numbers.
pub proof fn lemma_results_are_determined(samples: Seq<u64>, first: nat, second: nat)
    requires
        samples.len() > 0,
    ensures
        is_mean(first, samples) && is_mean(second, samples) ==> first == second,
        is_deviation(first, samples) && is_deviation(second, samples) ==> first == second,
{
    let n = samples.len() as int;
    let t = total(samples) as int;
    let v = spread(samples);
    let a = first as int;
    let b = second as int;
    if is_mean(first, samples) && is_mean(second, samples) {
        assert(a == b) by (nonlinear_arith)
            requires
                n > 0,
                a * n <= t < (a + 1) * n,
                b * n <= t < (b + 1) * n,
        ;
    }
    if is_deviation(first, samples) && is_deviation(second, samples) {
        assert(a == b) by (nonlinear_arith)
            requires
                n > 0,
                a >= 0,
                b >= 0,
                a * a * n * n <= v < (a + 1) * (a + 1) * n * n,
                b * b * n * n <= v < (b + 1) * (b + 1) * n * n,
        ;
    }
}

/// A single sample is its own mean and has no deviation from it, whatever its size.
pub proof fn lemma_single_sample(sample: u64)
    ensures
        is_mean(sample as nat, seq![sample]),
        is_deviation(0, seq![sample]),
        in_range(seq![sample]),
{
    let samples = seq![sample];
    assert(total(samples.drop_last()) == 0);
    assert(total_of_squares(samples.drop_last()) == 0);
    assert(sample * sample <= u128::MAX) by (nonlinear_arith)
        requires
            sample <= u64::MAX,
    ;
}

/// The largest whole number whose square is at most `value`.
fn floor_sqrt(value: u128) -> (root: u64)
    ensures
        root * root <= value < (root + 1) * (root + 1),
{
    let mut low: u128 = 0;
    let mut high: u128 = 0x1_0000_0000_0000_0000;
    assert(high * high > value) by (nonlinear_arith)
        requires
            high == 0x1_0000_0000_0000_0000,
            value <= u128::MAX,
    ;
    while high - low > 1
        invariant
            low < high <= 0x1_0000_0000_0000_0000,
            low * low <= value < high * high,
        decreases high - low,
    {
        let middle = low + (high - low) / 2;
        assert(middle * middle <= u128::MAX) by (nonlinear_arith)
            requires
                middle < 0x1_0000_0000_0000_0000,
        ;
        if middle * middle <= value {
            low = middle;
        } else {
            high = middle;
        }
    }
    low as u64
}

/// The sum of the samples, which always fits in 128 bits.
fn sum(samples: &Vec<u64>) -> (sum: u128)
    ensures
        sum == total(samples@),
{
    let mut sum: u128 = 0;
    let mut i: usize = 0;
    while i < samples.len()
        invariant
            i <= samples.len(),
            sum == total(samples@.take(i as int)),
        decreases samples.len() - i,
    {
        proof {
            assert(samples@.take(i + 1).drop_last() =~= samples@.take(i as int));
            lemma_total_bound(samples@.take(i + 1));
            assert((i + 1) * u64::MAX <= u128::MAX) by (nonlinear_arith)
                requires
                    i + 1 <= u64::MAX,
            ;
        }
        sum = sum + samples[i] as u128;
        i = i + 1;
    }
    assert(samples@.take(i as int) =~= samples@);
    sum
}

/// The sum of the squares of the samples, if it fits in 128 bits.
fn sum_of_squares(samples: &Vec<u64>) -> (sum: Option<u128>)
    ensures
        sum is Some <==> total_of_squares(samples@) <= u128::MAX,
        sum matches Some(squares) ==> squares == total_of_squares(samples@),
{
    let mut sum: u128 = 0;
    let mut i: usize = 0;
    while i < samples.len()
        invariant
            i <= samples.len(),
            sum == total_of_squares(samples@.take(i as int)),
        decreases samples.len() - i,
    {
        let sample = samples[i] as u128;
        proof {
            assert(samples@.take(i + 1).drop_last() =~= samples@.take(i as int));
            lemma_squares_grow(samples@, i + 1);
            assert(sample * sample <= u128::MAX) by (nonlinear_arith)
                requires
                    sample <= u64::MAX,
            ;
        }
        match sum.checked_add(sample * sample) {
            Some(larger) => {
                sum = larger;
            },
            None => {
                return None;
            },
        }
        i = i + 1;
    }
    assert(samples@.take(i as int) =~= samples@);
    Some(sum)
}

/// The arithmetic average of the samples, rounded down to a whole number; none for an
/// empty sample set, and the sample itself for a single one.
pub fn mean(samples: &Vec<u64>) -> (mean: Option<u64>)
    ensures
        mean is None <==> samples@.len() == 0,
        mean matches Some(average) ==> is_mean(average as nat, samples@),
        samples@.len() == 1 ==> mean == Some(samples@[0]),
{
    let count = samples.len();
    if count == 0 {
        return None;
    }
    proof {
        if count == 1 {
            assert(samples@ =~= seq![samples@[0]]);
            lemma_single_sample(samples@[0]);
        }
    }
    let total = sum(samples);
    let average = total / count as u128;
    proof {
        lemma_total_bound(samples@);
        let n = count as int;
        let t = total as int;
        let a = average as int;
        assert(a * n <= t < (a + 1) * n && a <= u64::MAX) by (nonlinear_arith)
            requires
                n > 0,
                a == t / n,
                0 <= t <= n * u64::MAX,
        ;
    }
    proof {
        lemma_results_are_determined(samples@, average as nat, samples@[0] as nat);
    }
    Some(average as u64)
}

/// The population standard deviation of the samples, rounded down to a whole number:
/// none for an empty sample set, zero for a single sample, and out of range exactly when
/// the sample set is not empty and its spread cannot be computed in 128 bits.
pub fn std_deviation(samples: &Vec<u64>) -> (outcome: Result<Option<u64>, OutOfRange>)
    ensures
        outcome matches Ok(None) <==> samples@.len() == 0,
        outcome is Err <==> samples@.len() > 0 && !in_range(samples@),
        outcome matches Ok(Some(deviation)) ==> is_deviation(deviation as nat, samples@),
        samples@.len() == 1 ==> outcome == Ok::<Option<u64>, OutOfRange>(Some(0)),
{
    let count = samples.len() as u128;
    if count == 0 {
        return Ok(None);
    }
    proof {
        if count == 1 {
            assert(samples@ =~= seq![samples@[0]]);
            lemma_single_sample(samples@[0]);
        }
    }
    let ghost n = count as int;
    let ghost q = total_of_squares(samples@) as int;
    let ghost t = total(samples@) as int;
    let squares = match sum_of_squares(samples) {
        Some(squares) => squares,
        None => {
            assert(n * q >= q) by (nonlinear_arith)
                requires
                    n >= 1,
                    q >= 0,
            ;
            return Err(OutOfRange);
        },
    };
    let scaled = match count.checked_mul(squares) {
        Some(scaled) => scaled,
        None => {
            return Err(OutOfRange);
        },
    };
    let total = sum(samples);
    proof {
        lemma_spread_is_variance(samples@);
        assert(1 <= count * count <= u128::MAX) by (nonlinear_arith)
            requires
                1 <= count <= u64::MAX,
        ;
    }
    let spread = scaled - total * total;
    let variance = spread / (count * count);
    let deviation = floor_sqrt(variance);
    proof {
        let v = spread as int;
        let w = variance as int;
        let d = deviation as int;
        let m = n * n;
        assert(d * d * n * n <= v < (d + 1) * (d + 1) * n * n) by (nonlinear_arith)
            requires
                n >= 1,
                v >= 0,
                m == n * n,
                w == v / m,
                d >= 0,
                d * d <= w < (d + 1) * (d + 1),
        ;
    }
    proof {
        lemma_results_are_determined(samples@, deviation as nat, 0);
    }
    Ok(Some(deviation))
}

} // verus!
