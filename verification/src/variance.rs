//! The population variance of the intensities, as an exact fraction.
//!
//! With `n` samples `x`, sum `S` and sum of squares `Q`, the mean of the
//! squared deviations from the mean is `(n * Q - S * S) / (n * n)`. Both parts
//! of that fraction are integers, so nothing is rounded here.

use crate::grid::IntensityGrid;
use crate::histogram::is_flat;
use vstd::prelude::*;

verus! {

/// A non-negative fraction with a positive denominator.
#[derive(Clone, Copy, Debug)]
pub struct Variance {
    pub numerator: u128,
    pub denominator: u128,
}

/// The sum of the intensities.
pub open spec fn intensity_sum(samples: Seq<u8>) -> nat
    decreases samples.len(),
{
    if samples.len() == 0 {
        0
    } else {
        intensity_sum(samples.drop_last()) + samples.last() as nat
    }
}

/// The sum of the squared intensities.
pub open spec fn square_sum(samples: Seq<u8>) -> nat
    decreases samples.len(),
{
    if samples.len() == 0 {
        0
    } else {
        square_sum(samples.drop_last()) + (samples.last() as nat) * (samples.last() as nat)
    }
}

/// The sum over all samples `x` of `(scale * x - center)` squared.
pub open spec fn deviation_squares(samples: Seq<u8>, scale: int, center: int) -> int
    decreases samples.len(),
{
    if samples.len() == 0 {
        0
    } else {
        deviation_squares(samples.drop_last(), scale, center) + (scale * samples.last() - center)
            * (scale * samples.last() - center)
    }
}

/// The numerator of the population variance: `n * Q - S * S`.
pub open spec fn variance_numerator(samples: Seq<u8>) -> int {
    samples.len() * square_sum(samples) - intensity_sum(samples) * intensity_sum(samples)
}

/// The denominator of the population variance: `n * n`.
pub open spec fn variance_denominator(samples: Seq<u8>) -> nat {
    samples.len() * samples.len()
}

/// The sums of `len` intensities are at most `255 * len` and `65025 * len`.
pub proof fn lemma_sum_bounds(samples: Seq<u8>)
    ensures
        intensity_sum(samples) <= 255 * samples.len(),
        square_sum(samples) <= 65025 * samples.len(),
    decreases samples.len(),
{
    if samples.len() > 0 {
        lemma_sum_bounds(samples.drop_last());
        let x = samples.last() as nat;
        assert(x * x <= 65025) by (nonlinear_arith)
            requires
                x <= 255,
        ;
    }
}

proof fn lemma_deviation_squares_expand(samples: Seq<u8>, scale: int, center: int)
    ensures
        deviation_squares(samples, scale, center) == scale * scale * square_sum(samples) - 2
            * scale * center * intensity_sum(samples) + samples.len() * center * center,
    decreases samples.len(),
{
    if samples.len() == 0 {
        assert(scale * scale * 0 - 2 * scale * center * 0 + 0 * center * center == 0)
            by (nonlinear_arith);
    } else {
        let front = samples.drop_last();
        lemma_deviation_squares_expand(front, scale, center);
        let x = samples.last() as int;
        let q = square_sum(front) as int;
        let t = intensity_sum(front) as int;
        let n = front.len() as int;
        let d = deviation_squares(front, scale, center);
        assert(d + (scale * x - center) * (scale * x - center) == scale * scale * (q + x * x) - 2
            * scale * center * (t + x) + (n + 1) * center * center) by (nonlinear_arith)
            requires
                d == scale * scale * q - 2 * scale * center * t + n * center * center,
        ;
    }
}

proof fn lemma_deviation_squares_zero(samples: Seq<u8>, scale: int, center: int)
    ensures
        deviation_squares(samples, scale, center) >= 0,
        deviation_squares(samples, scale, center) == 0 <==> (forall|i: int|
            0 <= i < samples.len() ==> scale * #[trigger] samples[i] == center),
    decreases samples.len(),
{
    if samples.len() > 0 {
        let front = samples.drop_last();
        lemma_deviation_squares_zero(front, scale, center);
        let e = scale * samples.last() - center;
        assert(e * e >= 0 && (e * e == 0 <==> e == 0)) by (nonlinear_arith);
        if deviation_squares(samples, scale, center) == 0 {
            assert forall|i: int| 0 <= i < samples.len() implies scale * #[trigger] samples[i]
                == center by {
                if i < front.len() {
                    assert(scale * front[i] == center);
                }
            }
        }
        if forall|i: int| 0 <= i < samples.len() ==> scale * #[trigger] samples[i] == center {
            assert forall|i: int| 0 <= i < front.len() implies scale * #[trigger] front[i]
                == center by {
                assert(scale * samples[i] == center);
            }
            assert(scale * samples[samples.len() - 1] == center);
        }
    }
}

proof fn lemma_flat_sum(samples: Seq<u8>)
    requires
        samples.len() > 0,
        is_flat(samples),
    ensures
        intensity_sum(samples) == samples.len() * samples[0],
    decreases samples.len(),
{
    let front = samples.drop_last();
    let x = samples[0] as int;
    let n = front.len() as int;
    assert(samples.last() == samples[samples.len() - 1]);
    if front.len() > 0 {
        assert forall|i: int| 0 <= i < front.len() implies #[trigger] front[i] == front[0] by {
            assert(samples[i] == samples[0]);
        }
        lemma_flat_sum(front);
        assert(front[0] == samples[0]);
    } else {
        assert(intensity_sum(front) == 0);
    }
    assert(n * x + x == (n + 1) * x) by (nonlinear_arith);
}

/// The variance is the mean of the squared deviations from the mean: with `n`
/// samples of sum `S`, the numerator times `n` is the sum of the squares of
/// `n * x - S`, which is `n` cubed times that mean.
pub proof fn lemma_variance_is_mean_squared_deviation(samples: Seq<u8>)
    ensures
        variance_numerator(samples) * samples.len() == deviation_squares(
            samples,
            samples.len() as int,
            intensity_sum(samples) as int,
        ),
{
    let n = samples.len() as int;
    let s = intensity_sum(samples) as int;
    let q = square_sum(samples) as int;
    lemma_deviation_squares_expand(samples, n, s);
    assert((n * q - s * s) * n == n * n * q - 2 * n * s * s + n * s * s) by (nonlinear_arith);
}

/// The variance is never negative.
pub proof fn lemma_variance_nonnegative(samples: Seq<u8>)
    ensures
        variance_numerator(samples) >= 0,
{
    let n = samples.len() as int;
    let s = intensity_sum(samples) as int;
    let v = variance_numerator(samples);
    if n == 0 {
        assert(intensity_sum(samples) == 0);
        assert(v == 0) by (nonlinear_arith)
            requires
                v == 0 * square_sum(samples) - 0 * 0,
        ;
    } else {
        lemma_variance_is_mean_squared_deviation(samples);
        lemma_deviation_squares_zero(samples, n, s);
        assert(v >= 0) by (nonlinear_arith)
            requires
                v * n >= 0,
                n > 0,
        ;
    }
}

/// The variance of a non-empty grid is zero exactly when every sample has
/// the same intensity.
pub proof fn lemma_variance_zero_iff_flat(samples: Seq<u8>)
    requires
        samples.len() > 0,
    ensures
        variance_numerator(samples) == 0 <==> is_flat(samples),
{
    let n = samples.len() as int;
    let s = intensity_sum(samples) as int;
    let v = variance_numerator(samples);
    lemma_variance_is_mean_squared_deviation(samples);
    lemma_deviation_squares_zero(samples, n, s);
    assert(v == 0 <==> v * n == 0) by (nonlinear_arith)
        requires
            n > 0,
    ;
    if v == 0 {
        assert forall|i: int| 0 <= i < samples.len() implies #[trigger] samples[i]
            == samples[0] by {
            let a = samples[i] as int;
            let b = samples[0] as int;
            assert(n * a == s);
            assert(n * b == s);
            assert(a == b) by (nonlinear_arith)
                requires
                    n * a == n * b,
                    n > 0,
            ;
        }
    }
    if is_flat(samples) {
        lemma_flat_sum(samples);
        assert forall|i: int| 0 <= i < samples.len() implies n * #[trigger] samples[i] == s by {
            assert(samples[i] == samples[0]);
        }
    }
}

/// Computes the population variance of the grid's intensities as a fraction.
pub fn calculate_variance(grid: &IntensityGrid) -> (v: Variance)
    ensures
        v.numerator == variance_numerator(grid@.samples),
        v.denominator == variance_denominator(grid@.samples),
        v.denominator > 0,
{
    let samples = grid.samples();
    let total = grid.sample_count();
    let mut sum: u64 = 0;
    let mut squares: u64 = 0;
    let mut i: usize = 0;
    while i < samples.len()
        invariant
            i <= samples@.len(),
            samples@.len() <= u32::MAX,
            sum == intensity_sum(samples@.take(i as int)),
            squares == square_sum(samples@.take(i as int)),
        decreases samples@.len() - i,
    {
        let x = samples[i] as u64;
        proof {
            lemma_sum_bounds(samples@.take(i as int));
            assert(samples@.take(i + 1).drop_last() =~= samples@.take(i as int));
            assert(x * x <= 65025) by (nonlinear_arith)
                requires
                    x <= 255,
            ;
        }
        sum = sum + x;
        squares = squares + x * x;
        i += 1;
    }
    let n = total as u128;
    let s = sum as u128;
    let q = squares as u128;
    proof {
        assert(samples@.take(i as int) =~= samples@);
        lemma_sum_bounds(samples@);
        lemma_variance_nonnegative(samples@);
        assert(n * q <= 0xFFFF_FFFF * (65025 * 0xFFFF_FFFF) && s * s <= (255 * 0xFFFF_FFFF) * (255
            * 0xFFFF_FFFF) && 0 < n * n <= 0xFFFF_FFFF * 0xFFFF_FFFF) by (nonlinear_arith)
            requires
                0 < n <= 0xFFFF_FFFF,
                q <= 65025 * 0xFFFF_FFFF,
                s <= 255 * 0xFFFF_FFFF,
        ;
    }
    Variance { numerator: n * q - s * s, denominator: n * n }
}

} // verus!
