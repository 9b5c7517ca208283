//! How much two images differ where they are laid over each other. Only every `step`-th pixel of
//! every `step`-th row is looked at.

use crate::band::{normalized_band, HorizontalBand};
use crate::math::{count_samples, Ratio};
use crate::raster::{Frame, GrayMap, Raster};
use vstd::prelude::*;

verus! {

/// Distance of two rows or columns that are looked at.
pub const SAMPLE_STEP: u32 = 2;

/// Distance of two byte values.
pub open spec fn distance(a: u8, b: u8) -> nat {
    if a < b {
        (b - a) as nat
    } else {
        (a - b) as nat
    }
}

/// Sum of the distances of the red, green and blue values at column `x`, in row `ya` of one image
/// and row `yb` of the other.
pub open spec fn pixel_delta(a: Raster, b: Raster, x: int, ya: int, yb: int) -> nat {
    distance(a.rgba(x, ya, 0), b.rgba(x, yb, 0)) + distance(a.rgba(x, ya, 1), b.rgba(x, yb, 1))
        + distance(a.rgba(x, ya, 2), b.rgba(x, yb, 2))
}

/// The pixel deltas at columns `left, left + step, ..`, `n` of them, added up.
pub open spec fn line_delta(
    a: Raster,
    b: Raster,
    ya: int,
    yb: int,
    left: int,
    step: int,
    n: nat,
) -> nat
    decreases n,
{
    if n == 0 {
        0
    } else {
        line_delta(a, b, ya, yb, left, step, (n - 1) as nat) + pixel_delta(
            a,
            b,
            left + (n - 1) * step,
            ya,
            yb,
        )
    }
}

/// The line deltas of rows `0, step, ..` below `ya` and `yb`, `m` of them, added up.
pub open spec fn block_delta(
    a: Raster,
    b: Raster,
    ya: int,
    yb: int,
    left: int,
    step: int,
    n: nat,
    m: nat,
) -> nat
    decreases m,
{
    if m == 0 {
        0
    } else {
        block_delta(a, b, ya, yb, left, step, n, (m - 1) as nat) + line_delta(
            a,
            b,
            ya + (m - 1) * step,
            yb + (m - 1) * step,
            left,
            step,
            n,
        )
    }
}

/// The sampled channels of `height` rows below `ya` and `yb` differ by more than `bound` on
/// average, in the columns from `left` up to `right`. Without a sample they do.
pub open spec fn mean_is_above(
    a: Raster,
    b: Raster,
    ya: int,
    yb: int,
    left: int,
    right: int,
    height: int,
    bound: nat,
) -> bool {
    let n = crate::math::sample_count(right - left, 2) as nat;
    let m = crate::math::sample_count(height, 2) as nat;
    n * m == 0 || block_delta(a, b, ya, yb, left, 2, n, m) > 3 * bound * (n * m)
}

/// Distance of two gray values.
pub open spec fn gray_delta(a: Raster, b: Raster, x: int, ya: int, yb: int) -> nat {
    distance(a.gray(x, ya), b.gray(x, yb))
}

/// The larger of two gray values.
pub open spec fn gray_peak(a: Raster, b: Raster, x: int, ya: int, yb: int) -> nat {
    if a.gray(x, ya) < b.gray(x, yb) {
        b.gray(x, yb) as nat
    } else {
        a.gray(x, ya) as nat
    }
}

/// Gray distances and larger gray values at the first `n` sampled columns, each added up.
pub open spec fn gray_line(a: Raster, b: Raster, ya: int, yb: int, step: int, n: nat) -> (nat, nat)
    decreases n,
{
    if n == 0 {
        (0, 0)
    } else {
        let before = gray_line(a, b, ya, yb, step, (n - 1) as nat);
        let x = (n - 1) * step;
        (before.0 + gray_delta(a, b, x, ya, yb), before.1 + gray_peak(a, b, x, ya, yb))
    }
}

/// The same over `m` sampled rows below `ya` and `yb`.
pub open spec fn gray_block(
    a: Raster,
    b: Raster,
    ya: int,
    yb: int,
    step: int,
    n: nat,
    m: nat,
) -> (nat, nat)
    decreases m,
{
    if m == 0 {
        (0, 0)
    } else {
        let before = gray_block(a, b, ya, yb, step, n, (m - 1) as nat);
        let y = (m - 1) * step;
        let line = gray_line(a, b, ya + y, yb + y, step, n);
        (before.0 + line.0, before.1 + line.1)
    }
}

/// An image laid over itself differs nowhere.
pub proof fn no_difference_from_itself(
    a: Raster,
    y: int,
    left: int,
    step: int,
    n: nat,
    m: nat,
)
    ensures
        line_delta(a, a, y, y, left, step, n) == 0,
        block_delta(a, a, y, y, left, step, n, m) == 0,
    decreases m, n,
{
    if n > 0 {
        no_difference_from_itself(a, y, left, step, (n - 1) as nat, 0);
    }
    if m > 0 {
        no_difference_from_itself(a, y, left, step, n, (m - 1) as nat);
        no_difference_from_itself(a, y + (m - 1) * step, left, step, n, 0);
    }
}

/// Which of the two images comes first makes no difference.
pub proof fn difference_is_symmetric(
    a: Raster,
    b: Raster,
    ya: int,
    yb: int,
    left: int,
    step: int,
    n: nat,
    m: nat,
)
    ensures
        line_delta(a, b, ya, yb, left, step, n) == line_delta(b, a, yb, ya, left, step, n),
        block_delta(a, b, ya, yb, left, step, n, m) == block_delta(
            b,
            a,
            yb,
            ya,
            left,
            step,
            n,
            m,
        ),
    decreases m, n,
{
    if n > 0 {
        difference_is_symmetric(a, b, ya, yb, left, step, (n - 1) as nat, 0);
    }
    if m > 0 {
        difference_is_symmetric(a, b, ya, yb, left, step, n, (m - 1) as nat);
        difference_is_symmetric(
            a,
            b,
            ya + (m - 1) * step,
            yb + (m - 1) * step,
            left,
            step,
            n,
            0,
        );
    }
}

/// Computes the distance of two byte values.
fn byte_distance(a: u8, b: u8) -> (d: u8)
    ensures
        d == distance(a, b),
{
    if a < b {
        b - a
    } else {
        a - b
    }
}

/// Computes a line delta.
fn sum_line(a: &Frame, b: &Frame, ya: u32, yb: u32, left: u32, right: u32, step: u32) -> (sum: u64)
    requires
        a.wf(),
        b.wf(),
        ya < a.height,
        yb < b.height,
        left <= right <= a.width,
        right <= b.width,
        0 < step,
    ensures
        sum == line_delta(
            a@,
            b@,
            ya as int,
            yb as int,
            left as int,
            step as int,
            crate::math::sample_count(right - left, step as int) as nat,
        ),
        sum <= 765 * crate::math::sample_count(right - left, step as int),
{
    let n: u32 = count_samples(right - left, step);
    let mut sum: u64 = 0;
    let mut k: u32 = 0;
    while k < n
        invariant
            a.wf(),
            b.wf(),
            ya < a.height,
            yb < b.height,
            left <= right <= a.width,
            right <= b.width,
            0 < step,
            n == crate::math::sample_count(right - left, step as int),
            k <= n,
            sum <= 765 * k,
            sum == line_delta(
                a@,
                b@,
                ya as int,
                yb as int,
                left as int,
                step as int,
                k as nat,
            ),
        decreases n - k,
    {
        proof {
            crate::math::lemma_samples(right - left, step as int);
            assert(0 <= (k as int) * (step as int) < right - left);
        }
        let x: u32 = left + k * step;
        let red: u8 = byte_distance(a.channel(x, ya, 0), b.channel(x, yb, 0));
        let green: u8 = byte_distance(a.channel(x, ya, 1), b.channel(x, yb, 1));
        let blue: u8 = byte_distance(a.channel(x, ya, 2), b.channel(x, yb, 2));
        sum = sum + red as u64 + green as u64 + blue as u64;
        k += 1;
    }
    sum
}

/// Computes a block delta.
fn sum_block(
    a: &Frame,
    b: &Frame,
    ya: u32,
    yb: u32,
    height: u32,
    left: u32,
    right: u32,
    step: u32,
) -> (sum: u128)
    requires
        a.wf(),
        b.wf(),
        ya + height <= a.height,
        yb + height <= b.height,
        left <= right <= a.width,
        right <= b.width,
        0 < step,
    ensures
        sum == block_delta(
            a@,
            b@,
            ya as int,
            yb as int,
            left as int,
            step as int,
            crate::math::sample_count(right - left, step as int) as nat,
            crate::math::sample_count(height as int, step as int) as nat,
        ),
{
    let m: u32 = count_samples(height, step);
    let ghost n = crate::math::sample_count(right - left, step as int);
    let mut sum: u128 = 0;
    let mut k: u32 = 0;
    while k < m
        invariant
            a.wf(),
            b.wf(),
            ya + height <= a.height,
            yb + height <= b.height,
            left <= right <= a.width,
            right <= b.width,
            0 < step,
            m == crate::math::sample_count(height as int, step as int),
            n == crate::math::sample_count(right - left, step as int),
            k <= m,
            sum <= k * 0x3_ffff_ffff_ffff,
            sum == block_delta(
                a@,
                b@,
                ya as int,
                yb as int,
                left as int,
                step as int,
                n as nat,
                k as nat,
            ),
        decreases m - k,
    {
        proof {
            crate::math::lemma_samples(height as int, step as int);
            crate::math::lemma_samples(right - left, step as int);
            assert(0 <= (k as int) * (step as int) < height);
        }
        let y: u32 = k * step;
        sum = sum + sum_line(a, b, ya + y, yb + y, left, right, step) as u128;
        k += 1;
    }
    sum
}

/// The product of two counts that fit in 32 bits.
pub(crate) fn count_product(n: u32, m: u32) -> (product: u64)
    ensures
        product == n * m,
{
    assert(n * m <= 0xffff_ffff * 0xffff_ffff) by (nonlinear_arith)
        requires
            0 <= n <= 0xffff_ffff,
            0 <= m <= 0xffff_ffff,
    ;
    n as u64 * m as u64
}

/// Mean sum of the three channel distances over a block that starts at one row in each image. The
/// mean is above every bound where nothing is sampled.
pub fn sampled_difference(
    previous: &Frame,
    current: &Frame,
    previous_start_y: u32,
    current_start_y: u32,
    height: u32,
    step: u32,
    band: Option<HorizontalBand>,
) -> (mean: Ratio)
    requires
        previous.wf(),
        current.wf(),
        crate::band::clipped_or_all(band, previous.width).right <= current.width,
        previous_start_y + height <= previous.height,
        current_start_y + height <= current.height,
        0 < step,
    ensures
        ({
            let columns = crate::band::clipped_or_all(band, previous.width);
            let n = crate::math::sample_count(columns.right - columns.left, step as int);
            let m = crate::math::sample_count(height as int, step as int);
            &&& mean.den == n * m
            &&& mean.num == block_delta(
                previous@,
                current@,
                previous_start_y as int,
                current_start_y as int,
                columns.left as int,
                step as int,
                n as nat,
                m as nat,
            )
        }),
{
    let columns: HorizontalBand = match normalized_band(band, previous.width) {
        Some(columns) => columns,
        None => HorizontalBand { left: 0, right: previous.width },
    };
    let num: u128 = sum_block(
        previous,
        current,
        previous_start_y,
        current_start_y,
        height,
        columns.left,
        columns.right,
        step,
    );
    let n: u32 = count_samples(columns.right - columns.left, step);
    let m: u32 = count_samples(height, step);
    Ratio { num, den: count_product(n, m) as u128 }
}

/// Mean sum of the three channel distances along one row of each image. The mean is above every
/// bound where the widths differ or nothing is sampled.
pub fn sampled_row_difference(
    previous: &Frame,
    current: &Frame,
    previous_y: u32,
    current_y: u32,
) -> (mean: Ratio)
    requires
        previous.wf(),
        current.wf(),
        previous_y < previous.height,
        current_y < current.height,
    ensures
        previous.width != current.width ==> mean.den == 0,
        previous.width == current.width ==> {
            let n = crate::math::sample_count(previous.width as int, 2);
            &&& mean.den == n
            &&& mean.num == line_delta(
                previous@,
                current@,
                previous_y as int,
                current_y as int,
                0,
                2,
                n as nat,
            )
        },
{
    if previous.width != current.width {
        return Ratio { num: 0, den: 0 };
    }
    let sum: u64 = sum_line(
        previous,
        current,
        previous_y,
        current_y,
        0,
        previous.width,
        SAMPLE_STEP,
    );
    Ratio { num: sum as u128, den: count_samples(previous.width, SAMPLE_STEP) as u128 }
}

/// Mean sum of the three channel distances along one column, over the same rows of both images.
/// The mean is above every bound where nothing is sampled.
pub fn sampled_column_difference(
    previous: &Frame,
    current: &Frame,
    x: u32,
    start_y: u32,
    height: u32,
) -> (mean: Ratio)
    requires
        previous.wf(),
        current.wf(),
        x < previous.width,
        x < current.width,
        start_y + height <= previous.height,
        start_y + height <= current.height,
    ensures
        mean.den == crate::math::sample_count(height as int, 2),
        mean.num == block_delta(
            previous@,
            current@,
            start_y as int,
            start_y as int,
            x as int,
            2,
            1,
            crate::math::sample_count(height as int, 2) as nat,
        ),
{
    let num: u128 = sum_block(
        previous,
        current,
        start_y,
        start_y,
        height,
        x,
        x + 1,
        SAMPLE_STEP,
    );
    Ratio { num, den: count_samples(height, SAMPLE_STEP) as u128 }
}

/// Computes the two sums along one pair of gray rows.
fn sum_gray_line(a: &GrayMap, b: &GrayMap, ya: u32, yb: u32, step: u32) -> (sums: (u64, u64))
    requires
        a.wf(),
        b.wf(),
        ya < a.height,
        yb < b.height,
        a.width == b.width,
        0 < step,
    ensures
        (sums.0 as nat, sums.1 as nat) == gray_line(
            a@,
            b@,
            ya as int,
            yb as int,
            step as int,
            crate::math::sample_count(a.width as int, step as int) as nat,
        ),
        sums.0 <= 255 * a.width,
        sums.1 <= 255 * a.width,
{
    let n: u32 = count_samples(a.width, step);
    let mut delta: u64 = 0;
    let mut peak: u64 = 0;
    let mut k: u32 = 0;
    proof {
        crate::math::lemma_samples(a.width as int, step as int);
    }
    while k < n
        invariant
            a.wf(),
            b.wf(),
            ya < a.height,
            yb < b.height,
            a.width == b.width,
            0 < step,
            n == crate::math::sample_count(a.width as int, step as int),
            n <= a.width,
            k <= n,
            delta <= 255 * k,
            peak <= 255 * k,
            (delta as nat, peak as nat) == gray_line(
                a@,
                b@,
                ya as int,
                yb as int,
                step as int,
                k as nat,
            ),
        decreases n - k,
    {
        proof {
            crate::math::lemma_samples(a.width as int, step as int);
            assert(0 <= (k as int) * (step as int) < a.width);
        }
        let x: u32 = k * step;
        let left: u8 = a.value(x, ya);
        let right: u8 = b.value(x, yb);
        delta = delta + byte_distance(left, right) as u64;
        peak = peak + (if left < right {
            right
        } else {
            left
        }) as u64;
        k += 1;
    }
    (delta, peak)
}

/// Difference of two feature maps, as a share of their energy: the gray distances over the larger
/// gray values. The share is above every bound where the sizes differ or there is no energy.
pub fn sampled_feature_difference(
    previous: &GrayMap,
    current: &GrayMap,
    previous_start_y: u32,
    current_start_y: u32,
    height: u32,
    step: u32,
) -> (share: Ratio)
    requires
        previous.wf(),
        current.wf(),
        0 < step,
        (previous.width, previous.height) == (current.width, current.height) ==> previous_start_y
            + height <= previous.height && current_start_y + height <= current.height,
    ensures
        (previous.width, previous.height) != (current.width, current.height) ==> share.den == 0,
        (previous.width, previous.height) == (current.width, current.height) ==> {
            let n = crate::math::sample_count(previous.width as int, step as int) as nat;
            let m = crate::math::sample_count(height as int, step as int) as nat;
            (share.num as nat, share.den as nat) == gray_block(
                previous@,
                current@,
                previous_start_y as int,
                current_start_y as int,
                step as int,
                n,
                m,
            )
        },
{
    if previous.width != current.width || previous.height != current.height {
        return Ratio { num: 0, den: 0 };
    }
    let m: u32 = count_samples(height, step);
    let ghost n = crate::math::sample_count(previous.width as int, step as int);
    let mut delta: u128 = 0;
    let mut peak: u128 = 0;
    let mut k: u32 = 0;
    proof {
        crate::math::lemma_samples(height as int, step as int);
    }
    while k < m
        invariant
            previous.wf(),
            current.wf(),
            previous.width == current.width,
            previous_start_y + height <= previous.height,
            current_start_y + height <= current.height,
            0 < step,
            m == crate::math::sample_count(height as int, step as int),
            n == crate::math::sample_count(previous.width as int, step as int),
            k <= m <= height,
            delta <= k * 0xff_ffff_ffff,
            peak <= k * 0xff_ffff_ffff,
            (delta as nat, peak as nat) == gray_block(
                previous@,
                current@,
                previous_start_y as int,
                current_start_y as int,
                step as int,
                n as nat,
                k as nat,
            ),
        decreases m - k,
    {
        proof {
            crate::math::lemma_samples(height as int, step as int);
            assert(0 <= (k as int) * (step as int) < height);
        }
        let y: u32 = k * step;
        let line: (u64, u64) = sum_gray_line(
            previous,
            current,
            previous_start_y + y,
            current_start_y + y,
            step,
        );
        delta = delta + line.0 as u128;
        peak = peak + line.1 as u128;
        k += 1;
    }
    Ratio { num: delta, den: peak }
}

} // verus!
