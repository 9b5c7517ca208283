//! How far images differ, in terms of their pixels.

use crate::raster::Raster;
use vstd::prelude::*;

verus! {

/// How far two bytes are apart.
pub open spec fn apart(a: u8, b: u8) -> int {
    if a >= b {
        a - b
    } else {
        b - a
    }
}

/// How far two pixels of one column are apart: the distances of red, green and blue, added up. The
/// opacity does not count.
pub open spec fn pixels_apart(a: Raster, b: Raster, x: int, ya: int, yb: int) -> int {
    apart(a.data[ya * (a.width * 4) + x * 4], b.data[yb * (b.width * 4) + x * 4]) + apart(
        a.data[ya * (a.width * 4) + x * 4 + 1],
        b.data[yb * (b.width * 4) + x * 4 + 1],
    ) + apart(
        a.data[ya * (a.width * 4) + x * 4 + 2],
        b.data[yb * (b.width * 4) + x * 4 + 2],
    )
}

/// The distances of the pixels of a line are added up, each sampled pixel once.
pub proof fn each_sampled_pixel_counts_once(
    a: Raster,
    b: Raster,
    ya: int,
    yb: int,
    left: int,
    step: int,
    n: nat,
)
    ensures
        crate::difference::line_delta(a, b, ya, yb, left, step, 0) == 0,
        crate::difference::line_delta(a, b, ya, yb, left, step, n + 1)
            == crate::difference::line_delta(a, b, ya, yb, left, step, n) + pixels_apart(
            a,
            b,
            left + n * step,
            ya,
            yb,
        ),
{
}

/// The lines of a block are added up, each sampled line once.
pub proof fn each_sampled_line_counts_once(
    a: Raster,
    b: Raster,
    ya: int,
    yb: int,
    left: int,
    step: int,
    n: nat,
    m: nat,
)
    ensures
        crate::difference::block_delta(a, b, ya, yb, left, step, n, 0) == 0,
        crate::difference::block_delta(a, b, ya, yb, left, step, n, m + 1)
            == crate::difference::block_delta(a, b, ya, yb, left, step, n, m)
            + crate::difference::line_delta(
            a,
            b,
            ya + m * step,
            yb + m * step,
            left,
            step,
            n,
        ),
{
}

/// Bounds on the distances of the sampled pixels of a line bound their sum.
pub proof fn line_bounds(
    a: Raster,
    b: Raster,
    ya: int,
    yb: int,
    left: int,
    step: int,
    n: nat,
    low: int,
    high: int,
)
    requires
        forall|i: int|
            #![trigger left + i * step]
            0 <= i < n ==> low <= pixels_apart(a, b, left + i * step, ya, yb) <= high,
    ensures
        low * n <= crate::difference::line_delta(a, b, ya, yb, left, step, n) <= high * n,
    decreases n,
{
    if n > 0 {
        line_bounds(a, b, ya, yb, left, step, (n - 1) as nat, low, high);
        each_sampled_pixel_counts_once(a, b, ya, yb, left, step, (n - 1) as nat);
        let last = left + (n - 1) * step;
        assert(low <= pixels_apart(a, b, last, ya, yb) <= high);
        assert(low * n == low * (n - 1) + low && high * n == high * (n - 1) + high)
            by (nonlinear_arith);
    } else {
        assert(low * n == 0 && high * n == 0) by (nonlinear_arith)
            requires
                n == 0,
        ;
    }
}

/// Bounds on the distances of the sampled pixels of a block bound their sum.
pub proof fn block_bounds(
    a: Raster,
    b: Raster,
    ya: int,
    yb: int,
    left: int,
    step: int,
    n: nat,
    m: nat,
    low: int,
    high: int,
)
    requires
        forall|i: int, j: int|
            #![trigger left + i * step, ya + j * step]
            0 <= i < n && 0 <= j < m ==> low <= pixels_apart(
                a,
                b,
                left + i * step,
                ya + j * step,
                yb + j * step,
            ) <= high,
    ensures
        low * (n * m) <= crate::difference::block_delta(a, b, ya, yb, left, step, n, m) <= high * (n
            * m),
    decreases m,
{
    if m > 0 {
        let k = (m - 1) as nat;
        block_bounds(a, b, ya, yb, left, step, n, k, low, high);
        each_sampled_line_counts_once(a, b, ya, yb, left, step, n, k);
        let y = ya + k * step;
        assert forall|i: int| #![trigger left + i * step] 0 <= i < n implies low <= pixels_apart(
            a,
            b,
            left + i * step,
            ya + k * step,
            yb + k * step,
        ) <= high by {
            let x = left + i * step;
            let row = ya + k * step;
        }
        line_bounds(a, b, ya + k * step, yb + k * step, left, step, n, low, high);
        assert(low * (n * m) == low * (n * k) + low * n && high * (n * m) == high * (n * k) + high
            * n) by (nonlinear_arith)
            requires
                m == k + 1,
        ;
    } else {
        assert(n * m == 0 && low * (n * m) == 0 && high * (n * m) == 0) by (nonlinear_arith)
            requires
                m == 0,
        ;
    }
}

/// Every second pixel of every second row of a block is counted, from its corner on: where these
/// are apart by no more than the bound on average over their channels, the mean is not above it,
/// where they are further apart it is, and a block without a pixel is above every bound.
pub proof fn means_are_taken_over_every_second_pixel(
    a: Raster,
    b: Raster,
    ya: int,
    yb: int,
    left: int,
    right: int,
    height: int,
    bound: nat,
)
    requires
        left <= right,
        0 <= height,
    ensures
        left == right || height == 0 ==> crate::difference::mean_is_above(
            a,
            b,
            ya,
            yb,
            left,
            right,
            height,
            bound,
        ),
        left < right && 0 < height && (forall|i: int, j: int|
            #![trigger left + i * 2, ya + j * 2]
            0 <= i * 2 < right - left && 0 <= j * 2 < height ==> pixels_apart(
                a,
                b,
                left + i * 2,
                ya + j * 2,
                yb + j * 2,
            ) <= 3 * bound) ==> !crate::difference::mean_is_above(
            a,
            b,
            ya,
            yb,
            left,
            right,
            height,
            bound,
        ),
        (forall|i: int, j: int|
            #![trigger left + i * 2, ya + j * 2]
            0 <= i * 2 < right - left && 0 <= j * 2 < height ==> pixels_apart(
                a,
                b,
                left + i * 2,
                ya + j * 2,
                yb + j * 2,
            ) > 3 * bound) ==> crate::difference::mean_is_above(
            a,
            b,
            ya,
            yb,
            left,
            right,
            height,
            bound,
        ),
{
    let n = crate::math::sample_count(right - left, 2) as nat;
    let m = crate::math::sample_count(height, 2) as nat;
    crate::math::lemma_samples(right - left, 2);
    crate::math::lemma_samples(height, 2);
    assert(n * m == 0 <==> n == 0 || m == 0) by (nonlinear_arith);
    let delta = crate::difference::block_delta(a, b, ya, yb, left, 2, n, m);
    if forall|i: int, j: int|
        #![trigger left + i * 2, ya + j * 2]
        0 <= i * 2 < right - left && 0 <= j * 2 < height ==> pixels_apart(
            a,
            b,
            left + i * 2,
            ya + j * 2,
            yb + j * 2,
        ) <= 3 * bound {
        block_bounds(a, b, ya, yb, left, 2, n, m, 0, 3 * bound as int);
    }
    if forall|i: int, j: int|
        #![trigger left + i * 2, ya + j * 2]
        0 <= i * 2 < right - left && 0 <= j * 2 < height ==> pixels_apart(
            a,
            b,
            left + i * 2,
            ya + j * 2,
            yb + j * 2,
        ) > 3 * bound {
        block_bounds(a, b, ya, yb, left, 2, n, m, 3 * bound as int + 1, 765);
        if n * m > 0 {
            let count = n * m;
            assert((3 * bound + 1) * count > 3 * bound * count) by (nonlinear_arith)
                requires
                    count > 0,
            ;
        }
    }
}

/// A mean is a sum over a count: it is above a bound where the distances of the sampled pixels
/// together exceed that bound for each of their three channels.
pub proof fn means_are_sums_over_counts(
    a: Raster,
    b: Raster,
    ya: int,
    yb: int,
    left: int,
    right: int,
    height: int,
    bound: nat,
    n: nat,
    m: nat,
)
    requires
        right - left <= 2 * n <= right - left + 1,
        height <= 2 * m <= height + 1,
        0 < n,
        0 < m,
    ensures
        crate::difference::mean_is_above(a, b, ya, yb, left, right, height, bound)
            <==> crate::difference::block_delta(a, b, ya, yb, left, 2, n, m) > (3 * (n * m))
            * bound,
{
    assert(n * m > 0) by (nonlinear_arith)
        requires
            n > 0,
            m > 0,
    ;
    assert((3 * (n * m)) * bound == 3 * bound * (n * m)) by (nonlinear_arith);
}

/// The distances of the gray values of a line, and the larger ones of them, are added up, each
/// sampled pixel once.
pub proof fn each_sampled_feature_counts_once(
    a: Raster,
    b: Raster,
    ya: int,
    yb: int,
    step: int,
    n: nat,
)
    ensures
        crate::difference::gray_line(a, b, ya, yb, step, 0) == (0nat, 0nat),
        ({
            let before = crate::difference::gray_line(a, b, ya, yb, step, n);
            let after = crate::difference::gray_line(a, b, ya, yb, step, n + 1);
            let p = a.data[ya * a.width + n * step];
            let q = b.data[yb * b.width + n * step];
            &&& after.0 == before.0 + apart(p, q)
            &&& after.1 == before.1 + if p > q {
                p
            } else {
                q
            }
        }),
{
}

/// The lines of gray values of a block are added up, each sampled line once.
pub proof fn each_sampled_feature_line_counts_once(
    a: Raster,
    b: Raster,
    ya: int,
    yb: int,
    step: int,
    n: nat,
    m: nat,
)
    ensures
        crate::difference::gray_block(a, b, ya, yb, step, n, 0) == (0nat, 0nat),
        ({
            let before = crate::difference::gray_block(a, b, ya, yb, step, n, m);
            let after = crate::difference::gray_block(a, b, ya, yb, step, n, m + 1);
            let line = crate::difference::gray_line(
                a,
                b,
                ya + m * step,
                yb + m * step,
                step,
                n,
            );
            &&& after.0 == before.0 + line.0
            &&& after.1 == before.1 + line.1
        }),
{
}

/// The features of overlapping rows disagree where their distances together exceed a quarter of the
/// larger ones together, or where there is none.
pub proof fn features_disagree_by_a_quarter(
    previous: Raster,
    current: Raster,
    overlap: u32,
    n: nat,
    m: nat,
)
    requires
        previous.width <= 2 * n <= previous.width + 1,
        overlap <= 2 * m <= overlap + 1,
    ensures
        ({
            let sums = crate::difference::gray_block(
                previous,
                current,
                previous.height - overlap,
                0,
                2,
                n,
                m,
            );
            crate::overlap::features_disagree(previous, current, overlap) <==> sums.1 == 0 || 4
                * sums.0 > sums.1
        }),
{
}

/// Rows at a side agree where the distances of their sampled pixels together are one for each
/// channel at most.
pub proof fn rows_agree_by_their_mean(a: Raster, b: Raster, ya: int, yb: int, n: nat)
    requires
        a.width <= 2 * n <= a.width + 1,
        0 < n,
    ensures
        crate::edges::rows_agree(a, b, ya, yb) <==> a.width == b.width
            && crate::difference::line_delta(a, b, ya, yb, 0, 2, n) <= 3 * n,
{
}

/// A row is stable where the distances of its sampled pixels together are two for each channel at
/// most, and so is a column.
pub proof fn stability_goes_by_the_mean(
    a: Raster,
    b: Raster,
    y: int,
    x: int,
    start: int,
    height: int,
    n: nat,
    m: nat,
)
    requires
        a.width <= 2 * n <= a.width + 1,
        height <= 2 * m <= height + 1,
        0 < n,
        0 < m,
    ensures
        crate::stitch::row_is_stable(a, b, y) <==> crate::difference::line_delta(
            a,
            b,
            y,
            y,
            0,
            2,
            n,
        ) <= 2 * (3 * n),
        crate::stitch::column_is_stable(a, b, x, start, height)
            <==> crate::difference::block_delta(a, b, start, start, x, 2, 1, m) <= 2 * (3 * m),
{
}

/// A shift is better where the mean distance at rest exceeds the shifted one by more than four, the
/// means written as sums over counts.
pub proof fn a_better_shift_goes_by_the_means(
    previous: Raster,
    current: Raster,
    overlap: u32,
    n: nat,
    at_rest: nat,
    shifted: nat,
)
    requires
        previous.width <= 2 * n <= previous.width + 1,
        previous.height <= 2 * at_rest <= previous.height + 1,
        overlap <= 2 * shifted <= overlap + 1,
    ensures
        ({
            let rest_sum = crate::difference::block_delta(
                previous,
                current,
                0,
                0,
                0,
                2,
                n,
                at_rest,
            );
            let shifted_sum = crate::difference::block_delta(
                previous,
                current,
                previous.height - overlap,
                0,
                0,
                2,
                n,
                shifted,
            );
            crate::stitch::shift_is_better(previous, current, overlap) <==> rest_sum * (n * shifted)
                > shifted_sum * (n * at_rest) + (4 * 3) * ((n * at_rest) * (n * shifted))
        }),
{
}

} // verus!
