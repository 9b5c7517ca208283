//! The columns of the main text on a page: a bright page with lines of ink, whose ink stands in one
//! broad band.

use crate::band::HorizontalBand;
use crate::difference::count_product;
use crate::math::product_le;
use crate::raster::{GrayMap, Raster};
use crate::vision::{otsu_level, threshold_inverted};
use vstd::prelude::*;

verus! {

/// A share of a length in hundredths, rounded to the nearest number, up from a half.
pub open spec fn rounded_share(length: int, hundredths: int) -> int {
    (length * hundredths + 50) / 100
}

/// Computes a rounded share.
fn share_of(length: u32, hundredths: u32) -> (share: u32)
    requires
        hundredths <= 100,
    ensures
        share == rounded_share(length as int, hundredths as int),
        share <= length,
{
    assert(length * hundredths <= length * 100) by (nonlinear_arith)
        requires
            hundredths <= 100,
            0 <= length,
    ;
    ((length as u64 * hundredths as u64 + 50) / 100) as u32
}

/// How many of the first `n` pixels of a row are inked.
pub open spec fn row_ink(marks: Raster, y: int, n: nat) -> nat
    decreases n,
{
    if n == 0 {
        0
    } else {
        row_ink(marks, y, (n - 1) as nat) + if marks.gray(n - 1, y) > 0 {
            1nat
        } else {
            0
        }
    }
}

/// How many of the first `n` pixels of a column are inked.
pub open spec fn column_ink(marks: Raster, x: int, n: nat) -> nat
    decreases n,
{
    if n == 0 {
        0
    } else {
        column_ink(marks, x, (n - 1) as nat) + if marks.gray(x, n - 1) > 0 {
            1nat
        } else {
            0
        }
    }
}

/// Ink of the first `n` rows: the sum over the rows, and the sum of the squares.
pub open spec fn ink_sums(marks: Raster, n: nat) -> (nat, nat)
    decreases n,
{
    if n == 0 {
        (0, 0)
    } else {
        let before = ink_sums(marks, (n - 1) as nat);
        let here = row_ink(marks, n - 1, marks.width);
        (before.0 + here, before.1 + here * here)
    }
}

/// A text page: seven tenths of it are bright, no more than twenty-two hundredths are ink, and the
/// share of ink varies between the rows with a sample standard deviation of at least 0.015.
pub open spec fn is_text_page(marks: Raster) -> bool {
    let sums = ink_sums(marks, marks.height);
    let area = marks.height * marks.width;
    let rows = marks.height;
    &&& 10 * (area - sums.0) >= 7 * area
    &&& 100 * sums.0 <= 22 * area
    &&& 1000000 * (rows * sums.1 - sums.0 * sums.0) >= 225 * ((rows * (rows - 1)) * (marks.width
        * marks.width))
}

/// The columns that are searched for text: all but a twentieth on each side.
pub open spec fn search_range(width: nat) -> (int, int) {
    let margin = rounded_share(width as int, 5);
    (
        if margin < width {
            margin
        } else {
            width as int
        },
        if margin < width {
            width - margin
        } else {
            0
        },
    )
}

/// Ink of a column in the searched range, and nothing outside it.
pub open spec fn searched_ink(marks: Raster, x: int) -> nat {
    let range = search_range(marks.width);
    if range.0 <= x < range.1 {
        column_ink(marks, x, marks.height)
    } else {
        0
    }
}

/// Ink of the columns `from..to` of the searched range.
pub open spec fn ink_between(marks: Raster, from: int, to: int) -> nat
    decreases to - from,
{
    if from >= to {
        0
    } else {
        ink_between(marks, from, to - 1) + searched_ink(marks, to - 1)
    }
}

/// The columns over which the ink at `x` is averaged: two on each side, as far as they exist.
pub open spec fn window(width: nat, x: int) -> (int, int) {
    (
        if x < 2 {
            0
        } else {
            x - 2
        },
        if x + 3 < width {
            x + 3
        } else {
            width as int
        },
    )
}

/// Mean ink of a column and its neighbours, in sixtieths of a pixel.
pub open spec fn smoothed_ink(marks: Raster, x: int) -> nat {
    let columns = window(marks.width, x);
    ink_between(marks, columns.0, columns.1) * ((60int / (columns.1 - columns.0)) as nat)
}

/// The largest smoothed ink of the columns `from..to`.
pub open spec fn peak_ink(marks: Raster, from: int, to: int) -> nat
    decreases to - from,
{
    if from >= to {
        0
    } else {
        let before = peak_ink(marks, from, to - 1);
        let here = smoothed_ink(marks, to - 1);
        if before < here {
            here
        } else {
            before
        }
    }
}

/// Smoothed ink of at least twelve thousandths of a column of this height.
pub open spec fn is_dense(smoothed: nat, height: nat) -> bool {
    1000 * smoothed >= 720 * height
}

/// The column belongs to text: it is dense, and reaches thirty-five hundredths of the peak.
pub open spec fn is_active(marks: Raster, peak: nat, x: int) -> bool {
    let range = search_range(marks.width);
    &&& range.0 <= x < range.1
    &&& 100 * smoothed_ink(marks, x) >= 35 * peak
    &&& is_dense(smoothed_ink(marks, x), marks.height)
}

/// The columns `from..to` are active, and none next to them is.
pub open spec fn is_run(marks: Raster, peak: nat, from: int, to: int) -> bool {
    &&& from < to
    &&& forall|x: int| from <= x < to ==> #[trigger] is_active(marks, peak, x)
    &&& !is_active(marks, peak, from - 1)
    &&& !is_active(marks, peak, to)
}

/// A run of at least eighteen hundredths of the width.
pub open spec fn is_wide_run(marks: Raster, peak: nat, from: int, to: int) -> bool {
    is_run(marks, peak, from, to) && to - from >= rounded_share(marks.width as int, 18)
}

/// Smoothed ink of the columns `from..to`, added up.
pub open spec fn mass(marks: Raster, from: int, to: int) -> nat
    decreases to - from,
{
    if from >= to {
        0
    } else {
        mass(marks, from, to - 1) + smoothed_ink(marks, to - 1)
    }
}

/// Distance of two numbers.
pub open spec fn apart(a: int, b: int) -> int {
    if a < b {
        b - a
    } else {
        a - b
    }
}

/// How much a run looks like the body of a page: its mass, less up to a fifth where its centre is
/// off the centre of the page. The unit is a fifth of the width times a sixtieth of the height.
pub open spec fn run_score(marks: Raster, from: int, to: int) -> int {
    mass(marks, from, to) * (5 * marks.width - apart(from + to, marks.width as int))
}

/// The wide run with the best score, the leftmost of those.
pub open spec fn is_best_run(marks: Raster, peak: nat, run: (int, int)) -> bool {
    &&& is_wide_run(marks, peak, run.0, run.1)
    &&& forall|from: int, to: int| #[trigger]
        is_wide_run(marks, peak, from, to) ==> run_score(marks, from, to) < run_score(
            marks,
            run.0,
            run.1,
        ) || (run_score(marks, from, to) == run_score(marks, run.0, run.1) && run.0 <= from)
}

/// The run, with three hundredths of the width on each side, as far as they exist.
pub open spec fn padded_run(width: nat, run: (int, int)) -> HorizontalBand {
    let padding = rounded_share(width as int, 3);
    HorizontalBand {
        left: (if run.0 < padding {
            0
        } else {
            run.0 - padding
        }) as u32,
        right: (if run.1 + padding < width {
            run.1 + padding
        } else {
            width as int
        }) as u32,
    }
}

/// The band of the body of a page, given where its ink is.
pub open spec fn body_band(marks: Raster) -> Option<HorizontalBand> {
    let range = search_range(marks.width);
    let peak = peak_ink(marks, range.0, range.1);
    if marks.height == 0 || range.0 >= range.1 || !is_dense(peak, marks.height) {
        None
    } else if exists|run: (int, int)| is_best_run(marks, peak, run) {
        Some(
            padded_run(
                marks.width,
                choose|run: (int, int)| #[trigger] is_best_run(marks, peak, run),
            ),
        )
    } else {
        None
    }
}

/// The columns of a page in which its text is looked for: all but a tenth on each side.
pub open spec fn text_focus(page: Raster) -> Raster {
    let left = (page.width / 10) as int;
    page.gray_columns(left, page.width - left)
}

/// The band of text on a page, given the brightness that separates ink from paper.
pub open spec fn text_band_given(page: Raster, level: u8) -> Option<HorizontalBand> {
    let focus = text_focus(page);
    let marks = crate::vision::ink_marks(focus, level);
    if focus.width == 0 || focus.height == 0 || !is_text_page(marks) {
        None
    } else {
        body_band(marks.padded((page.width / 10) as int, page.width as int))
    }
}

/// The band of text on a page.
pub open spec fn text_band(page: Raster) -> Option<HorizontalBand> {
    let focus = text_focus(page);
    text_band_given(page, crate::vision::otsu_threshold(focus.width, focus.height, focus.data))
}

/// Only one run is the best.
proof fn lemma_best_run_unique(marks: Raster, peak: nat, a: (int, int), b: (int, int))
    requires
        is_best_run(marks, peak, a),
        is_best_run(marks, peak, b),
    ensures
        a == b,
{
    assert(is_wide_run(marks, peak, a.0, a.1));
    assert(is_wide_run(marks, peak, b.0, b.1));
    assert(a.0 == b.0);
    if a.1 < b.1 {
        assert(is_active(marks, peak, a.1));
    } else if b.1 < a.1 {
        assert(is_active(marks, peak, b.1));
    }
}

/// Bounds of ink counts.
proof fn lemma_ink_bounds(marks: Raster, at: int, n: nat)
    ensures
        row_ink(marks, at, n) <= n,
        column_ink(marks, at, n) <= n,
    decreases n,
{
    if n > 0 {
        lemma_ink_bounds(marks, at, (n - 1) as nat);
    }
}

/// Counts the ink of a row.
fn count_row_ink(marks: &GrayMap, y: u32) -> (ink: u32)
    requires
        marks.wf(),
        y < marks.height,
    ensures
        ink == row_ink(marks@, y as int, marks@.width),
        ink <= marks.width,
{
    let mut ink: u32 = 0;
    let mut x: u32 = 0;
    while x < marks.width
        invariant
            marks.wf(),
            y < marks.height,
            x <= marks.width,
            ink <= x,
            ink == row_ink(marks@, y as int, x as nat),
        decreases marks.width - x,
    {
        if marks.value(x, y) > 0 {
            ink += 1;
        }
        x += 1;
    }
    ink
}

/// Counts the ink of a column.
fn count_column_ink(marks: &GrayMap, x: u32) -> (ink: u32)
    requires
        marks.wf(),
        x < marks.width,
    ensures
        ink == column_ink(marks@, x as int, marks@.height),
        ink <= marks.height,
{
    let mut ink: u32 = 0;
    let mut y: u32 = 0;
    while y < marks.height
        invariant
            marks.wf(),
            x < marks.width,
            y <= marks.height,
            ink <= y,
            ink == column_ink(marks@, x as int, y as nat),
        decreases marks.height - y,
    {
        if marks.value(x, y) > 0 {
            ink += 1;
        }
        y += 1;
    }
    ink
}

/// Decides whether marks come from a text page.
pub fn looks_like_text(marks: &GrayMap) -> (text: bool)
    requires
        marks.wf(),
        0 < marks.height,
    ensures
        text == is_text_page(marks@),
{
    let rows: u32 = marks.height;
    let columns: u32 = marks.width;
    let mut total: u64 = 0;
    let mut squares: u128 = 0;
    let mut y: u32 = 0;
    assert(0 * columns == 0 && 0 * (columns * columns) == 0);
    while y < rows
        invariant
            marks.wf(),
            rows == marks.height,
            columns == marks.width,
            y <= rows,
            total <= y * columns,
            squares <= y * (columns * columns),
            (total as nat, squares as nat) == ink_sums(marks@, y as nat),
        decreases rows - y,
    {
        let ink: u32 = count_row_ink(marks, y);
        proof {
            assert((y + 1) * columns == y * columns + columns) by (nonlinear_arith);
            assert((y + 1) * (columns * columns) == y * (columns * columns) + columns * columns)
                by (nonlinear_arith);
            assert((y + 1) * columns <= 0xffff_ffff * 0xffff_ffff) by (nonlinear_arith)
                requires
                    0 <= y < 0xffff_ffff,
                    0 <= columns <= 0xffff_ffff,
            ;
            assert(ink * ink <= columns * columns && 0 <= ink * ink <= 0xffff_ffff * 0xffff_ffff)
                by (nonlinear_arith)
                requires
                    0 <= ink <= columns,
                    columns <= 0xffff_ffff,
            ;
            assert(columns * columns <= 0xffff_ffff * 0xffff_ffff) by (nonlinear_arith)
                requires
                    0 <= columns <= 0xffff_ffff,
            ;
            assert((y + 1) * (columns * columns) <= 0xffff_ffff * (0xffff_ffff * 0xffff_ffff))
                by (nonlinear_arith)
                requires
                    0 <= y < 0xffff_ffff,
                    0 <= columns * columns <= 0xffff_ffff * 0xffff_ffff,
            ;
        }
        total = total + ink as u64;
        squares = squares + ink as u128 * ink as u128;
        y += 1;
    }
    let area: u64 = count_product(rows, columns);
    let free: u64 = area - total;
    let bright: bool = 10 * free as u128 >= 7 * area as u128;
    let sparse: bool = 100 * total as u128 <= 22 * area as u128;
    if !bright || !sparse {
        return false;
    }
    proof {
        let r = rows as int;
        let c = columns as int;
        let t = total as int;
        let s = squares as int;
        assert(r * s <= 0xffff_ffff * (0xffff_ffff * (0xffff_ffff * 0xffff_ffff)))
            by (nonlinear_arith)
            requires
                0 <= r <= 0xffff_ffff,
                0 <= s <= r * (c * c),
                0 <= c <= 0xffff_ffff,
        {
            assert(c * c <= 0xffff_ffff * 0xffff_ffff);
            assert(r * (c * c) <= 0xffff_ffff * (0xffff_ffff * 0xffff_ffff));
        }
        assert(t * t <= 0xffff_ffff_ffff_ffff * 0xffff_ffff_ffff_ffff) by (nonlinear_arith)
            requires
                0 <= t <= 0xffff_ffff_ffff_ffff,
        ;
        assert(r * (r - 1) <= 0xffff_ffff * 0xffff_ffff && 0 <= r * (r - 1)) by (nonlinear_arith)
            requires
                0 < r <= 0xffff_ffff,
        ;
        assert(0 <= c * c <= 0xffff_ffff * 0xffff_ffff) by (nonlinear_arith)
            requires
                0 <= c <= 0xffff_ffff,
        ;
        let p = r * (r - 1);
        let q = c * c;
        assert(p * q <= (0xffff_ffff * 0xffff_ffff) * (0xffff_ffff * 0xffff_ffff)) by (nonlinear_arith)
            requires
                0 <= p <= 0xffff_ffff * 0xffff_ffff,
                0 <= q <= 0xffff_ffff * 0xffff_ffff,
        ;
    }
    let mixed: u128 = rows as u128 * squares;
    let squared: u128 = total as u128 * total as u128;
    let scale: u128 = (rows as u128 * (rows as u128 - 1)) * (columns as u128 * columns as u128);
    if mixed < squared {
        return false;
    }
    product_le(scale, 225, mixed - squared, 1000000)
}

/// Computes the searched columns.
fn searched_columns(width: u32) -> (range: (u32, u32))
    ensures
        (range.0 as int, range.1 as int) == search_range(width as nat),
        range.0 <= width,
        range.1 <= width,
{
    let margin: u32 = share_of(width, 5);
    if margin < width {
        (margin, width - margin)
    } else {
        (width, 0)
    }
}

/// Counts the ink of every searched column.
fn count_searched_ink(marks: &GrayMap) -> (ink: Vec<u32>)
    requires
        marks.wf(),
    ensures
        ink@.len() == marks.width,
        forall|x: int| 0 <= x < ink@.len() ==> #[trigger] ink@[x] == searched_ink(marks@, x),
        forall|x: int| 0 <= x < ink@.len() ==> #[trigger] ink@[x] <= marks.height,
{
    let range: (u32, u32) = searched_columns(marks.width);
    let mut ink: Vec<u32> = Vec::new();
    let mut x: u32 = 0;
    while x < marks.width
        invariant
            marks.wf(),
            (range.0 as int, range.1 as int) == search_range(marks@.width),
            x <= marks.width,
            ink@.len() == x,
            forall|i: int| 0 <= i < ink@.len() ==> #[trigger] ink@[i] == searched_ink(marks@, i),
            forall|i: int| 0 <= i < ink@.len() ==> #[trigger] ink@[i] <= marks.height,
        decreases marks.width - x,
    {
        if range.0 <= x && x < range.1 {
            ink.push(count_column_ink(marks, x));
        } else {
            ink.push(0);
        }
        x += 1;
    }
    ink
}

/// Averages the ink of every column with that of its neighbours.
fn smooth_density(marks: &GrayMap, ink: &Vec<u32>) -> (smoothed: Vec<u64>)
    requires
        ink@.len() == marks.width,
        forall|x: int| 0 <= x < ink@.len() ==> #[trigger] ink@[x] == searched_ink(marks@, x),
    ensures
        smoothed@.len() == marks.width,
        forall|x: int|
            0 <= x < smoothed@.len() ==> #[trigger] smoothed@[x] == smoothed_ink(marks@, x),
        forall|x: int|
            0 <= x < smoothed@.len() ==> #[trigger] smoothed@[x] <= 0x12c_ffff_ffff,
{
    let n: usize = ink.len();
    let mut smoothed: Vec<u64> = Vec::new();
    let mut x: usize = 0;
    while x < n
        invariant
            n == ink@.len(),
            n == marks.width,
            forall|i: int| 0 <= i < ink@.len() ==> #[trigger] ink@[i] == searched_ink(marks@, i),
            x <= n,
            smoothed@.len() == x,
            forall|i: int|
                0 <= i < smoothed@.len() ==> #[trigger] smoothed@[i] == smoothed_ink(marks@, i),
            forall|i: int|
                0 <= i < smoothed@.len() ==> #[trigger] smoothed@[i] <= 0x12c_ffff_ffff,
        decreases n - x,
    {
        let left: usize = if x < 2 {
            0
        } else {
            x - 2
        };
        let right: usize = if n - x > 3 {
            x + 3
        } else {
            n
        };
        let mut sum: u64 = 0;
        let mut i: usize = left;
        while i < right
            invariant
                n == ink@.len(),
                left <= i <= right <= n,
                right - left <= 5,
                forall|j: int|
                    0 <= j < ink@.len() ==> #[trigger] ink@[j] == searched_ink(marks@, j),
                sum <= (i - left) * 0xffff_ffff,
                sum == ink_between(marks@, left as int, i as int),
            decreases right - i,
        {
            sum = sum + ink[i] as u64;
            i += 1;
        }
        let columns: u64 = (right - left) as u64;
        let weight: u64 = 60 / columns;
        proof {
            assert((left as int, right as int) == window(marks@.width, x as int));
            assert(1 <= columns <= 5);
            assert(weight * columns <= 60) by {
                vstd::arithmetic::div_mod::lemma_fundamental_div_mod(60, columns as int);
                assert(columns * weight == weight * columns) by (nonlinear_arith);
            }
            assert(sum * weight <= 60 * 0xffff_ffff) by (nonlinear_arith)
                requires
                    0 <= sum <= columns * 0xffff_ffff,
                    0 <= weight,
                    weight * columns <= 60,
            ;
            assert(0 <= sum * weight) by (nonlinear_arith)
                requires
                    0 <= sum,
                    0 <= weight,
            ;
        }
        smoothed.push(sum * weight);
        x += 1;
    }
    smoothed
}

/// Finds the largest smoothed ink.
fn find_peak(marks: &GrayMap, smoothed: &Vec<u64>, left: u32, right: u32) -> (peak: u64)
    requires
        left <= right <= smoothed@.len(),
        forall|x: int|
            0 <= x < smoothed@.len() ==> #[trigger] smoothed@[x] == smoothed_ink(marks@, x),
        forall|x: int|
            0 <= x < smoothed@.len() ==> #[trigger] smoothed@[x] <= 0x12c_ffff_ffff,
    ensures
        peak == peak_ink(marks@, left as int, right as int),
        peak <= 0x12c_ffff_ffff,
{
    let mut peak: u64 = 0;
    let mut x: u32 = left;
    while x < right
        invariant
            left <= x <= right <= smoothed@.len(),
            forall|i: int|
                0 <= i < smoothed@.len() ==> #[trigger] smoothed@[i] == smoothed_ink(marks@, i),
            forall|i: int|
                0 <= i < smoothed@.len() ==> #[trigger] smoothed@[i] <= 0x12c_ffff_ffff,
            peak == peak_ink(marks@, left as int, x as int),
            peak <= 0x12c_ffff_ffff,
        decreases right - x,
    {
        let here: u64 = smoothed[x as usize];
        if peak < here {
            peak = here;
        }
        x += 1;
    }
    peak
}

/// Scores a run of columns.
fn score_body_band(marks: &GrayMap, smoothed: &Vec<u64>, start: u32, end: u32) -> (score: u128)
    requires
        start <= end <= marks.width,
        smoothed@.len() == marks.width,
        forall|x: int|
            0 <= x < smoothed@.len() ==> #[trigger] smoothed@[x] == smoothed_ink(marks@, x),
        forall|x: int|
            0 <= x < smoothed@.len() ==> #[trigger] smoothed@[x] <= 0x12c_ffff_ffff,
    ensures
        score == run_score(marks@, start as int, end as int),
{
    let mut sum: u128 = 0;
    let mut x: u32 = start;
    while x < end
        invariant
            start <= x <= end <= smoothed@.len(),
            forall|i: int|
                0 <= i < smoothed@.len() ==> #[trigger] smoothed@[i] == smoothed_ink(marks@, i),
            forall|i: int|
                0 <= i < smoothed@.len() ==> #[trigger] smoothed@[i] <= 0x12c_ffff_ffff,
            sum <= (x - start) * 0x12c_ffff_ffff,
            sum == mass(marks@, start as int, x as int),
        decreases end - x,
    {
        sum = sum + smoothed[x as usize] as u128;
        x += 1;
    }
    let centre: u64 = start as u64 + end as u64;
    let width: u64 = marks.width as u64;
    let offset: u64 = if centre < width {
        width - centre
    } else {
        centre - width
    };
    let weight: u128 = (5 * width - offset) as u128;
    assert(sum * weight <= (0xffff_ffff * 0x12c_ffff_ffff) * (5 * 0xffff_ffff)) by (nonlinear_arith)
        requires
            0 <= sum <= 0xffff_ffff * 0x12c_ffff_ffff,
            0 <= weight <= 5 * 0xffff_ffff,
    ;
    sum * weight
}

/// Decides whether a column belongs to text.
fn column_is_active(
    marks: &GrayMap,
    smoothed: &Vec<u64>,
    peak: u64,
    range: (u32, u32),
    x: u32,
) -> (active: bool)
    requires
        smoothed@.len() == marks.width,
        range.1 <= marks.width,
        (range.0 as int, range.1 as int) == search_range(marks@.width),
        forall|i: int|
            0 <= i < smoothed@.len() ==> #[trigger] smoothed@[i] == smoothed_ink(marks@, i),
        forall|i: int|
            0 <= i < smoothed@.len() ==> #[trigger] smoothed@[i] <= 0x12c_ffff_ffff,
        peak <= 0x12c_ffff_ffff,
    ensures
        active == is_active(marks@, peak as nat, x as int),
{
    if x < range.0 || range.1 <= x {
        return false;
    }
    let here: u64 = smoothed[x as usize];
    100 * here >= 35 * peak && 1000 * here >= 720 * marks.height as u64
}

/// Finds the best wide run of active columns.
fn find_best_run(
    marks: &GrayMap,
    smoothed: &Vec<u64>,
    peak: u64,
    range: (u32, u32),
) -> (best: Option<(u32, u32)>)
    requires
        smoothed@.len() == marks.width,
        range.0 < range.1 <= marks.width,
        (range.0 as int, range.1 as int) == search_range(marks@.width),
        forall|i: int|
            0 <= i < smoothed@.len() ==> #[trigger] smoothed@[i] == smoothed_ink(marks@, i),
        forall|i: int|
            0 <= i < smoothed@.len() ==> #[trigger] smoothed@[i] <= 0x12c_ffff_ffff,
        peak <= 0x12c_ffff_ffff,
    ensures
        best matches Some(run) ==> is_best_run(marks@, peak as nat, (run.0 as int, run.1 as int))
            && run.1 <= range.1,
        best is None ==> forall|run: (int, int)| !is_best_run(marks@, peak as nat, run),
{
    let min_width: u32 = share_of(marks.width, 18);
    let mut best: Option<(u32, u32)> = None;
    let mut best_score: u128 = 0;
    let mut run_start: Option<u32> = None;
    let mut x: u32 = range.0;
    let ghost top = peak as nat;
    proof {
        assert forall|from: int, to: int| to < x implies !(#[trigger] is_wide_run(
            marks@,
            top,
            from,
            to,
        )) by {
            if is_wide_run(marks@, top, from, to) {
                assert(is_active(marks@, top, to - 1));
            }
        }
    }
    while x <= range.1
        invariant
            smoothed@.len() == marks.width,
            range.0 < range.1 <= marks.width,
            (range.0 as int, range.1 as int) == search_range(marks@.width),
            forall|i: int|
                0 <= i < smoothed@.len() ==> #[trigger] smoothed@[i] == smoothed_ink(marks@, i),
            forall|i: int|
                0 <= i < smoothed@.len() ==> #[trigger] smoothed@[i] <= 0x12c_ffff_ffff,
            peak <= 0x12c_ffff_ffff,
            top == peak,
            min_width == rounded_share(marks.width as int, 18),
            range.0 <= x <= range.1 + 1,
            x == range.1 + 1 ==> run_start is None,
            run_start is None ==> !is_active(marks@, top, x - 1),
            run_start matches Some(start) ==> {
                &&& range.0 <= start < x
                &&& !is_active(marks@, top, start - 1)
                &&& forall|i: int| start <= i < x ==> #[trigger] is_active(marks@, top, i)
            },
            best matches Some(run) ==> {
                &&& run.1 < x
                &&& is_wide_run(marks@, top, run.0 as int, run.1 as int)
                &&& best_score == run_score(marks@, run.0 as int, run.1 as int)
                &&& forall|from: int, to: int| #[trigger]
                    is_wide_run(marks@, top, from, to) && to < x ==> run_score(marks@, from, to)
                        < best_score || (run_score(marks@, from, to) == best_score && run.0
                        <= from)
            },
            best is None ==> forall|from: int, to: int|
                to < x ==> !(#[trigger] is_wide_run(marks@, top, from, to)),
        decreases range.1 + 1 - x,
    {
        let active: bool = column_is_active(marks, smoothed, peak, range, x);
        match run_start {
            None => {
                proof {
                    assert forall|from: int, to: int| #[trigger]
                        is_wide_run(marks@, top, from, to) implies to != x by {
                        if to == x {
                            assert(is_active(marks@, top, to - 1));
                        }
                    }
                }
                if active {
                    run_start = Some(x);
                }
            },
            Some(start) => {
                proof {
                    assert forall|from: int, to: int| #[trigger]
                        is_wide_run(marks@, top, from, to) && to == x implies from == start by {
                        assert(is_active(marks@, top, to - 1));
                        if from < start {
                            assert(is_active(marks@, top, start - 1));
                        } else if start < from {
                            assert(is_active(marks@, top, from - 1));
                        }
                    }
                }
                if !active {
                    assert(is_run(marks@, top, start as int, x as int));
                    if x - start >= min_width {
                        assert(is_wide_run(marks@, top, start as int, x as int));
                        let score: u128 = score_body_band(marks, smoothed, start, x);
                        let better: bool = match best {
                            None => true,
                            Some(_) => score > best_score,
                        };
                        if better {
                            best_score = score;
                            best = Some((start, x));
                        }
                    }
                    run_start = None;
                }
            },
        }
        x += 1;
    }
    proof {
        assert forall|from: int, to: int| #[trigger]
            is_wide_run(marks@, top, from, to) implies to < x by {
            assert(is_active(marks@, top, to - 1));
        }
        match best {
            Some(run) => {
                assert(is_best_run(marks@, top, (run.0 as int, run.1 as int)));
            },
            None => {
                assert forall|run: (int, int)| !is_best_run(marks@, top, run) by {
                    if is_best_run(marks@, top, run) {
                        assert(is_wide_run(marks@, top, run.0, run.1));
                    }
                }
            },
        }
    }
    best
}

/// Finds the band of the body of a page, given where its ink is.
pub fn detect_body_band(binary: &GrayMap) -> (band: Option<HorizontalBand>)
    requires
        binary.wf(),
    ensures
        band == body_band(binary@),
        band matches Some(b) ==> b.left < b.right <= binary.width,
{
    let width: u32 = binary.width;
    let range: (u32, u32) = searched_columns(width);
    if binary.height == 0 || range.0 >= range.1 {
        return None;
    }
    let ink: Vec<u32> = count_searched_ink(binary);
    let smoothed: Vec<u64> = smooth_density(binary, &ink);
    let peak: u64 = find_peak(binary, &smoothed, range.0, range.1);
    if 1000 * peak < 720 * binary.height as u64 {
        return None;
    }
    let (start, end): (u32, u32) = match find_best_run(binary, &smoothed, peak, range) {
        Some(run) => run,
        None => {
            return None;
        },
    };
    proof {
        let run = (start as int, end as int);
        let chosen = choose|r: (int, int)| #[trigger] is_best_run(binary@, peak as nat, r);
        lemma_best_run_unique(binary@, peak as nat, run, chosen);
    }
    let padding: u32 = share_of(width, 3);
    let left: u32 = start.saturating_sub(padding);
    let right: u32 = if end as u64 + padding as u64 >= width as u64 {
        width
    } else {
        end + padding
    };
    Some(HorizontalBand { left, right })
}

/// Cuts out the columns in which text is looked for.
fn crop_text_focus(image: &GrayMap) -> (focus: GrayMap)
    requires
        image.wf(),
    ensures
        focus.wf(),
        focus@ == text_focus(image@),
{
    let left: u32 = image.width / 10;
    image.crop_columns(left, image.width - left)
}

/// Finds the band of text on a page, given the brightness that separates ink from paper.
pub fn text_band_at_level(image: &GrayMap, level: u8) -> (band: Option<HorizontalBand>)
    requires
        image.wf(),
    ensures
        band == text_band_given(image@, level),
        band matches Some(b) ==> b.left < b.right <= image.width,
{
    let focus: GrayMap = crop_text_focus(image);
    if focus.width == 0 || focus.height == 0 {
        return None;
    }
    let marks: GrayMap = threshold_inverted(&focus, level);
    if !looks_like_text(&marks) {
        return None;
    }
    let binary: GrayMap = marks.pad_columns(image.width / 10, image.width);
    detect_body_band(&binary)
}

/// Finds the band of text on a page.
pub fn detect_text_body_band(image: &GrayMap) -> (band: Option<HorizontalBand>)
    requires
        image.wf(),
        crate::vision::level_is_computable(text_focus(image@).data),
    ensures
        band == text_band(image@),
        band matches Some(b) ==> b.left < b.right <= image.width,
{
    let focus: GrayMap = crop_text_focus(image);
    text_band_at_level(image, otsu_level(&focus))
}

/// Decides whether the separating brightness of an image can be computed.
fn level_fits(image: &GrayMap) -> (fits: bool)
    ensures
        fits == crate::vision::level_is_computable(image@.data),
{
    if image.data.len() > 0xffff_ffff {
        return false;
    }
    let mut counts: Vec<u64> = Vec::new();
    let mut value: usize = 0;
    while value < 256
        invariant
            value <= 256,
            counts@.len() == value,
            forall|v: int| 0 <= v < value ==> #[trigger] counts@[v] == 0,
        decreases 256 - value,
    {
        counts.push(0);
        value += 1;
    }
    let mut i: usize = 0;
    let ghost data = image.data@;
    proof {
        broadcast use vstd::seq_lib::group_to_multiset_ensures;

        assert(data.take(0) =~= Seq::<u8>::empty());
    }
    while i < image.data.len()
        invariant
            data == image.data@,
            data.len() <= 0xffff_ffff,
            i <= data.len(),
            counts@.len() == 256,
            forall|v: u8| #[trigger] counts@[v as int] == data.take(i as int).to_multiset().count(v),
            forall|v: u8| #[trigger] counts@[v as int] <= i,
        decreases image.data.len() - i,
    {
        proof {
            broadcast use vstd::seq_lib::group_to_multiset_ensures;

            assert(data.take(i as int).push(data[i as int]) =~= data.take(i + 1));
        }
        let at: usize = image.data[i] as usize;
        let count: u64 = counts[at];
        counts.set(at, count + 1);
        i += 1;
    }
    assert(data.take(i as int) =~= data);
    let mut v: usize = 0;
    while v < 256
        invariant
            data == image.data@,
            data.len() <= 0xffff_ffff,
            v <= 256,
            counts@.len() == 256,
            forall|w: u8| #[trigger] counts@[w as int] == data.to_multiset().count(w),
            forall|w: u8| #[trigger] counts@[w as int] <= 0xffff_ffff,
            forall|w: u8|
                w < v ==> #[trigger] data.to_multiset().count(w) * w <= 0xffff_ffff,
        decreases 256 - v,
    {
        let count: u64 = counts[v];
        proof {
            let w = v as u8;
            assert(counts@[w as int] == data.to_multiset().count(w));
            assert(count * v <= 0xffff_ffff * 255) by (nonlinear_arith)
                requires
                    0 <= count <= 0xffff_ffff,
                    0 <= v <= 255,
            ;
        }
        if count * v as u64 > 0xffff_ffff {
            return false;
        }
        v += 1;
    }
    true
}

/// Finds the band of text on a page, where the separating brightness can be computed. Elsewhere no
/// band is found.
pub fn find_text_body_band(image: &GrayMap) -> (band: Option<HorizontalBand>)
    requires
        image.wf(),
    ensures
        crate::vision::level_is_computable(text_focus(image@).data) ==> band == text_band(image@),
        !crate::vision::level_is_computable(text_focus(image@).data) ==> band is None,
        band matches Some(b) ==> b.left < b.right <= image.width,
{
    let focus: GrayMap = crop_text_focus(image);
    if level_fits(&focus) {
        detect_text_body_band(image)
    } else {
        None
    }
}

} // verus!
