//! When a page stands still, and when it has moved.

use crate::raster::Raster;
use vstd::prelude::*;

verus! {

/// All pixels of two frames are apart by more than two on average over their channels.
pub open spec fn differ_everywhere(a: Raster, b: Raster) -> bool {
    forall|x: int, y: int|
        0 <= x < a.width && 0 <= y < a.height ==> #[trigger] crate::laws::pixels::pixels_apart(
            a,
            b,
            x,
            y,
            y,
        ) > 6
}

/// Where two frames differ at their top and at their bottom, nothing is cut off them.
proof fn lemma_no_bars(a: Raster, b: Raster, from_bottom: bool)
    requires
        a.width == b.width,
        a.height == b.height,
        0 < a.width,
        0 < a.height,
        forall|x: int|
            0 <= x < a.width ==> #[trigger] crate::laws::pixels::pixels_apart(
                a,
                b,
                x,
                crate::laws::edges::row_at(a, 0, from_bottom),
                crate::laws::edges::row_at(a, 0, from_bottom),
            ) > 3,
    ensures
        crate::laws::edges::edge_at(seq![a, b], from_bottom) == 0,
{
    let pair = seq![a, b];
    assert(pair[0] == a && pair[1] == b);
    crate::laws::edges::differing_rows_end_a_bar(pair, from_bottom, 1, 0);
}

/// No row is stable where all pixels differ, and no column.
proof fn lemma_none_stable(a: Raster, b: Raster, m: nat, n: nat, height: int)
    requires
        a.width == b.width,
        differ_everywhere(a, b),
        height == a.height,
        0 < a.width,
        m <= crate::math::sample_count(a.height as int, 2),
        n <= crate::math::sample_count(a.width as int, 2),
    ensures
        crate::stitch::stable_rows(a, b, 0, m) == 0,
        crate::stitch::stable_columns(a, b, 0, height, n) == 0,
    decreases m + n,
{
    let all = crate::math::sample_count(a.width as int, 2) as nat;
    let rows = crate::math::sample_count(height, 2) as nat;
    crate::math::lemma_samples(a.width as int, 2);
    crate::math::lemma_samples(height, 2);
    if m > 0 {
        lemma_none_stable(a, b, (m - 1) as nat, n, height);
        let y = 0 + (m - 1) * 2;
        assert(0 <= (m - 1) * 2 < a.height);
        crate::laws::pixels::line_bounds(a, b, y, y, 0, 2, all, 7, 765);
    } else if n > 0 {
        lemma_none_stable(a, b, 0, (n - 1) as nat, height);
        let x = (n - 1) * 2;
        assert(0 <= x < a.width);
        assert forall|i: int, j: int|
            #![trigger x + i * 2, 0 + j * 2]
            0 <= i < 1 && 0 <= j < rows implies 7 <= crate::laws::pixels::pixels_apart(
            a,
            b,
            x + i * 2,
            0 + j * 2,
            0 + j * 2,
        ) <= 765 by {
            assert(crate::laws::pixels::pixels_apart(a, b, x, j * 2, j * 2) > 6);
        }
        crate::laws::pixels::block_bounds(a, b, 0, 0, x, 2, 1, rows, 7, 765);
    }
}

/// Frames that differ everywhere do not stand still.
pub proof fn frames_that_differ_everywhere_have_moved(previous: Raster, current: Raster)
    requires
        (previous.width, previous.height) == (current.width, current.height),
        differ_everywhere(previous, current),
    ensures
        !crate::stitch::near_stagnant(previous, current),
{
    if 0 < previous.width && 0 < previous.height {
        lemma_no_bars(previous, current, false);
        lemma_no_bars(previous, current, true);
        let m = crate::math::sample_count(previous.height as int, 2) as nat;
        let n = crate::math::sample_count(previous.width as int, 2) as nat;
        lemma_none_stable(previous, current, m, n, previous.height as int);
        crate::laws::pixels::means_are_taken_over_every_second_pixel(
            previous,
            current,
            0,
            0,
            0,
            previous.width as int,
            previous.height as int,
            2,
        );
    }
}

/// Frames of different sizes, and frames without a pixel, do not stand still.
pub proof fn frames_of_different_sizes_do_not_stand_still(previous: Raster, current: Raster)
    requires
        previous.width != current.width || previous.height != current.height || previous.width == 0
            || previous.height == 0,
    ensures
        !crate::stitch::near_stagnant(previous, current),
        forall|overlap: u32| !#[trigger] crate::stitch::shows_progress(previous, current, overlap),
{
    assert forall|overlap: u32| !#[trigger] crate::stitch::shows_progress(
        previous,
        current,
        overlap,
    ) by {
        if previous.width == 0 {
            let m = crate::math::sample_count(overlap as int, 2) as nat;
            assert(0 * m == 0);
        }
    }
}

/// Outside a strip of columns that are looked at, from the `first` of them up to `end`, the pixels
/// of the frames are no further apart than two on average over their channels.
pub open spec fn alike_but_for_columns(a: Raster, b: Raster, first: int, end: int) -> bool {
    forall|k: int, y: int|
        #![trigger crate::laws::pixels::pixels_apart(a, b, k * 2, y, y)]
        0 <= k * 2 < a.width && !(first <= k < end) && 0 <= y < a.height
            ==> crate::laws::pixels::pixels_apart(a, b, k * 2, y, y) <= 6
}

/// All columns are stable but those of the strip.
proof fn lemma_stable_beside(
    a: Raster,
    b: Raster,
    start: int,
    height: int,
    first: int,
    end: int,
    n: nat,
)
    requires
        alike_but_for_columns(a, b, first, end),
        0 <= first <= end,
        0 <= start,
        0 < height,
        start + height <= a.height,
        n <= crate::math::sample_count(a.width as int, 2),
    ensures
        n <= first ==> crate::stitch::stable_columns(a, b, start, height, n) == n,
        first <= n <= end ==> crate::stitch::stable_columns(a, b, start, height, n) >= first,
        end <= n ==> crate::stitch::stable_columns(a, b, start, height, n) >= n - (end - first),
    decreases n,
{
    if n > 0 {
        let k = n - 1;
        lemma_stable_beside(a, b, start, height, first, end, (n - 1) as nat);
        crate::math::lemma_samples(a.width as int, 2);
        crate::math::lemma_samples(height, 2);
        let m = crate::math::sample_count(height, 2) as nat;
        assert(0 <= k * 2 < a.width);
        if !(first <= k < end) {
            let x = k * 2;
            assert forall|i: int, j: int|
                #![trigger x + i * 2, start + j * 2]
                0 <= i < 1 && 0 <= j < m implies 0 <= crate::laws::pixels::pixels_apart(
                a,
                b,
                x + i * 2,
                start + j * 2,
                start + j * 2,
            ) <= 6 by {
                assert(0 <= j * 2 < height);
                assert(crate::laws::pixels::pixels_apart(
                    a,
                    b,
                    k * 2,
                    start + j * 2,
                    start + j * 2,
                ) <= 6);
            }
            crate::laws::pixels::block_bounds(a, b, start, start, x, 2, 1, m, 0, 6);
            assert(crate::stitch::column_is_stable(a, b, x, start, height));
        }
    }
}

/// An animation in no more than fifteen hundredths of the columns, over the whole height, does not
/// hide that the page stands still.
pub proof fn a_narrow_animation_is_no_movement(
    previous: Raster,
    current: Raster,
    first: int,
    end: int,
)
    requires
        (previous.width, previous.height) == (current.width, current.height),
        0 < previous.width,
        0 < previous.height,
        0 <= first <= end,
        end * 2 < previous.width + 2,
        100 * (end - first) <= 15 * ((previous.width + 1) / 2),
        alike_but_for_columns(previous, current, first, end),
    ensures
        crate::stitch::near_stagnant(previous, current),
{
    let edges = crate::edges::static_edges(seq![previous, current]);
    crate::edges::edges_fit_every_frame(seq![previous, current]);
    assert(seq![previous, current][0] == previous);
    let height = previous.height - edges.0 - edges.1;
    let n = crate::math::sample_count(previous.width as int, 2) as nat;
    if height > 0 {
        lemma_stable_beside(previous, current, edges.0 as int, height, first, end, n);
    }
}

/// Outside a strip of rows, the pixels of the frames are no further apart than two on average over
/// their channels.
pub open spec fn alike_but_for_rows(a: Raster, b: Raster, first: int, end: int) -> bool {
    forall|x: int, y: int|
        #![trigger crate::laws::pixels::pixels_apart(a, b, x, y, y)]
        0 <= x < a.width && 0 <= y < a.height && !(first <= y < end)
            ==> crate::laws::pixels::pixels_apart(a, b, x, y, y) <= 6
}

/// All rows are stable but those of the strip: at most every second of its rows, and one more, is
/// looked at.
proof fn lemma_stable_above_and_below(
    a: Raster,
    b: Raster,
    start: int,
    height: int,
    first: int,
    end: int,
    m: nat,
)
    requires
        alike_but_for_rows(a, b, first, end),
        first <= end,
        0 < a.width,
        0 <= start,
        0 <= height,
        start + height <= a.height,
        m <= crate::math::sample_count(height, 2),
    ensures
        start + m * 2 <= first + 1 ==> crate::stitch::stable_rows(a, b, start, m) == m,
        first + 1 <= start + m * 2 <= end + 1 ==> 2 * crate::stitch::stable_rows(a, b, start, m) >= 2
            * m - (start + m * 2 - first),
        end + 1 <= start + m * 2 ==> 2 * crate::stitch::stable_rows(a, b, start, m) >= 2 * m - (end
            - first + 1),
    decreases m,
{
    if m > 0 {
        let j = m - 1;
        lemma_stable_above_and_below(a, b, start, height, first, end, (m - 1) as nat);
        crate::math::lemma_samples(a.width as int, 2);
        crate::math::lemma_samples(height, 2);
        let n = crate::math::sample_count(a.width as int, 2) as nat;
        assert(0 <= j * 2 < height);
        let y = start + j * 2;
        if !(first <= y < end) {
            assert forall|i: int| #![trigger 0 + i * 2] 0 <= i < n implies 0
                <= crate::laws::pixels::pixels_apart(a, b, 0 + i * 2, y, y) <= 6 by {
                assert(0 <= i * 2 < a.width);
                assert(crate::laws::pixels::pixels_apart(a, b, i * 2, y, y) <= 6);
            }
            crate::laws::pixels::line_bounds(a, b, y, y, 0, 2, n, 0, 6);
            assert(crate::stitch::row_is_stable(a, b, y));
        }
    }
}

/// An animation in no more than a tenth of the rows, over the whole width, does not hide that the
/// page stands still, in frames of two hundred rows or more.
pub proof fn a_low_animation_is_no_movement(
    previous: Raster,
    current: Raster,
    first: int,
    end: int,
)
    requires
        (previous.width, previous.height) == (current.width, current.height),
        0 < previous.width,
        200 <= previous.height,
        0 <= first <= end <= previous.height,
        10 * (end - first) <= previous.height,
        alike_but_for_rows(previous, current, first, end),
    ensures
        crate::stitch::near_stagnant(previous, current),
{
    let pair = seq![previous, current];
    let edges = crate::edges::static_edges(pair);
    crate::edges::edges_fit_every_frame(pair);
    assert(pair[0] == previous && pair[1] == current);
    crate::laws::edges::lowest_is_the_least_height(pair);
    crate::laws::edges::bars_have_a_size(pair, false);
    crate::laws::edges::bars_have_a_size(pair, true);
    assert(crate::edges::lowest(pair) == previous.height);
    let height = previous.height - edges.0 - edges.1;
    assert(100 * height >= 76 * previous.height);
    let m = crate::math::sample_count(height, 2) as nat;
    crate::math::lemma_samples(height, 2);
    lemma_stable_above_and_below(previous, current, edges.0 as int, height, first, end, m);
    let stable = crate::stitch::stable_rows(previous, current, edges.0 as int, m);
    assert(2 * stable >= 2 * m - (end - first + 1));
    assert(crate::stitch::is_most(stable, m));
}

/// In the rows above `end`, all pixels are apart by twenty or more on average over their channels.
pub open spec fn changed_above(a: Raster, b: Raster, end: int) -> bool {
    forall|x: int, y: int|
        0 <= x < a.width && 0 <= y < end ==> #[trigger] crate::laws::pixels::pixels_apart(
            a,
            b,
            x,
            y,
            y,
        ) >= 60
}

/// A row above `end` is not stable.
proof fn lemma_changed_rows(a: Raster, b: Raster, end: int, m: nat)
    requires
        changed_above(a, b, end),
        0 < a.width,
        0 <= end,
    ensures
        m * 2 <= end + 1 ==> crate::stitch::stable_rows(a, b, 0, m) == 0,
        m * 2 > end + 1 ==> 2 * crate::stitch::stable_rows(a, b, 0, m) <= 2 * m - end,
    decreases m,
{
    if m > 0 {
        lemma_changed_rows(a, b, end, (m - 1) as nat);
        crate::math::lemma_samples(a.width as int, 2);
        let n = crate::math::sample_count(a.width as int, 2) as nat;
        let y = 0 + (m - 1) * 2;
        if y < end {
            assert forall|i: int| #![trigger 0 + i * 2] 0 <= i < n implies 60
                <= crate::laws::pixels::pixels_apart(a, b, 0 + i * 2, y, y) <= 765 by {
                assert(0 <= i * 2 < a.width);
                assert(crate::laws::pixels::pixels_apart(a, b, i * 2, y, y) >= 60);
            }
            crate::laws::pixels::line_bounds(a, b, y, y, 0, 2, n, 60, 765);
            assert(!crate::stitch::row_is_stable(a, b, y));
        }
    }
}

/// The changed rows of a block weigh on its sum.
proof fn lemma_changed_block(a: Raster, b: Raster, left: int, n: nat, end: int, m: nat)
    requires
        changed_above(a, b, end),
        0 <= left,
        forall|i: int| #![trigger left + i * 2] 0 <= i < n ==> left + i * 2 < a.width,
        0 <= end,
    ensures
        m * 2 <= end + 1 ==> crate::difference::block_delta(a, b, 0, 0, left, 2, n, m) >= 60 * (n
            * m),
        m * 2 > end + 1 ==> crate::difference::block_delta(a, b, 0, 0, left, 2, n, m) >= 30 * (n
            * end),
    decreases m,
{
    if m > 0 {
        let k = (m - 1) as nat;
        lemma_changed_block(a, b, left, n, end, k);
        crate::laws::pixels::each_sampled_line_counts_once(a, b, 0, 0, left, 2, n, k);
        let y: int = 0 + k as int * 2;
        assert(n * m == n * k + n) by (nonlinear_arith)
            requires
                m == k + 1,
        ;
        if y < end {
            assert forall|i: int| #![trigger left + i * 2] 0 <= i < n implies 60
                <= crate::laws::pixels::pixels_apart(a, b, left + i * 2, y, y) <= 765 by {
                assert(0 <= left + i * 2 < a.width);
            }
            crate::laws::pixels::line_bounds(a, b, y, y, left, 2, n, 60, 765);
        } else if m * 2 > end + 1 && k * 2 <= end + 1 {
            assert(60 * (n * k) >= 30 * (n * end)) by (nonlinear_arith)
                requires
                    k * 2 >= end,
                    0 <= n,
            ;
        }
    } else {
        assert(n * m == 0 && 60 * (n * m) == 0) by (nonlinear_arith)
            requires
                m == 0,
        ;
    }
}

/// No column is stable where the upper sixth of the rows has changed.
proof fn lemma_changed_columns(a: Raster, b: Raster, end: int, height: int, n: nat)
    requires
        changed_above(a, b, end),
        0 <= end,
        0 < height,
        100 * end >= 16 * height,
        height >= 32,
        n <= crate::math::sample_count(a.width as int, 2),
    ensures
        crate::stitch::stable_columns(a, b, 0, height, n) == 0,
    decreases n,
{
    if n > 0 {
        lemma_changed_columns(a, b, end, height, (n - 1) as nat);
        crate::math::lemma_samples(a.width as int, 2);
        crate::math::lemma_samples(height, 2);
        let x = (n - 1) * 2;
        let m = crate::math::sample_count(height, 2) as nat;
        assert(0 <= x < a.width);
        lemma_changed_block(a, b, x, 1, end, m);
        assert(1 * m == m && 1 * end == end);
    }
}

/// A change of twenty or more over sixteen hundredths of the rows, from the top on, is movement,
/// though all other rows stay the same.
pub proof fn a_high_change_is_movement(previous: Raster, current: Raster, end: int)
    requires
        (previous.width, previous.height) == (current.width, current.height),
        0 < previous.width,
        64 <= previous.height,
        0 <= end <= previous.height,
        100 * end >= 16 * previous.height,
        changed_above(previous, current, end),
    ensures
        !crate::stitch::near_stagnant(previous, current),
{
    let pair = seq![previous, current];
    let edges = crate::edges::static_edges(pair);
    crate::edges::edges_fit_every_frame(pair);
    assert(pair[0] == previous && pair[1] == current);
    lemma_no_bars(previous, current, false);
    crate::laws::edges::lowest_is_the_least_height(pair);
    crate::laws::edges::bars_have_a_size(pair, true);
    assert(crate::edges::lowest(pair) == previous.height);
    assert(edges.0 == 0);
    let height = previous.height - edges.1;
    assert(height * 2 >= previous.height);
    let m = crate::math::sample_count(height, 2) as nat;
    let n = crate::math::sample_count(previous.width as int, 2) as nat;
    crate::math::lemma_samples(height, 2);
    crate::math::lemma_samples(previous.width as int, 2);
    lemma_changed_rows(previous, current, end, m);
    lemma_changed_columns(previous, current, end, height, n);
    let all = crate::math::sample_count(previous.height as int, 2) as nat;
    lemma_changed_block(previous, current, 0, n, end, all);
    let delta = crate::difference::block_delta(previous, current, 0, 0, 0, 2, n, all);
    assert(delta > 6 * (n * all)) by (nonlinear_arith)
        requires
            n > 0,
            all > 0,
            all * 2 <= previous.height + 1,
            100 * end >= 16 * previous.height,
            previous.height >= 64,
            delta >= 60 * (n * all) || delta >= 30 * (n * end),
    ;
}

/// The sampled pixels of two frames, the second shifted up so that `rows` rows lie over each other,
/// are apart by a number between these.
pub open spec fn shifted_apart(a: Raster, b: Raster, rows: int, low: int, high: int) -> bool {
    forall|i: int, j: int|
        #![trigger 0 + i * 2, a.height - rows + j * 2]
        0 <= i * 2 < a.width && 0 <= j * 2 < rows ==> low <= crate::laws::pixels::pixels_apart(
            a,
            b,
            0 + i * 2,
            a.height - rows + j * 2,
            0 + j * 2,
        ) <= high
}

/// Bounds on shifted pixels bound their sum.
proof fn lemma_shifted(a: Raster, b: Raster, rows: int, low: int, high: int)
    requires
        0 <= rows,
        shifted_apart(a, b, rows, low, high),
    ensures
        ({
            let n = crate::math::sample_count(a.width as int, 2) as nat;
            let m = crate::math::sample_count(rows, 2) as nat;
            low * (n * m) <= crate::difference::block_delta(a, b, a.height - rows, 0, 0, 2, n, m)
                <= high * (n * m)
        }),
{
    let n = crate::math::sample_count(a.width as int, 2) as nat;
    let m = crate::math::sample_count(rows, 2) as nat;
    crate::math::lemma_samples(a.width as int, 2);
    crate::math::lemma_samples(rows, 2);
    let top = a.height - rows;
    assert forall|i: int, j: int|
        #![trigger 0 + i * 2, top + j * 2]
        0 <= i < n && 0 <= j < m implies low <= crate::laws::pixels::pixels_apart(
        a,
        b,
        0 + i * 2,
        top + j * 2,
        0 + j * 2,
    ) <= high by {
        let x = 0 + i * 2;
        let y = a.height - rows + j * 2;
    }
    crate::laws::pixels::block_bounds(a, b, top, 0, 0, 2, n, m, low, high);
}

/// Frames that agree within fifteen when shifted, and are further apart at rest by more than four,
/// show progress: the page has moved.
pub proof fn a_better_shift_is_progress(
    previous: Raster,
    current: Raster,
    overlap: u32,
    shifted: int,
    at_rest: int,
)
    requires
        (previous.width, previous.height) == (current.width, current.height),
        0 < previous.width,
        0 < overlap < previous.height,
        0 <= shifted <= 45,
        at_rest > shifted + 12,
        shifted_apart(previous, current, overlap as int, 0, shifted),
        shifted_apart(previous, current, previous.height as int, at_rest, 765),
    ensures
        crate::stitch::shows_progress(previous, current, overlap),
{
    lemma_shifted(previous, current, overlap as int, 0, shifted);
    lemma_shifted(previous, current, previous.height as int, at_rest, 765);
    let n = crate::math::sample_count(previous.width as int, 2) as nat;
    let ms = crate::math::sample_count(overlap as int, 2) as nat;
    let mr = crate::math::sample_count(previous.height as int, 2) as nat;
    let ns = n * ms;
    let nr = n * mr;
    let s = crate::difference::block_delta(
        previous,
        current,
        previous.height - overlap,
        0,
        0,
        2,
        n,
        ms,
    );
    let r = crate::difference::block_delta(previous, current, 0, 0, 0, 2, n, mr);
    assert(previous.height - previous.height as int == 0);
    assert(ns > 0 && nr > 0) by (nonlinear_arith)
        requires
            ns == n * ms,
            nr == n * mr,
            n > 0,
            ms > 0,
            mr > 0,
    ;
    assert(s <= 45 * ns && r > 12 * nr && r * ns > s * nr + 12 * (nr * ns)) by (nonlinear_arith)
        requires
            0 <= s <= shifted * ns,
            r >= at_rest * nr,
            at_rest >= shifted + 13,
            0 <= shifted <= 45,
            ns > 0,
            nr > 0,
    ;
}

/// Frames that are no further apart at rest than when shifted, and four more, show no progress,
/// and neither do frames that are further apart than fifteen when shifted.
pub proof fn no_better_shift_is_no_progress(
    previous: Raster,
    current: Raster,
    overlap: u32,
    shifted: int,
    at_rest: int,
)
    requires
        0 <= shifted,
        overlap <= previous.height,
        at_rest <= shifted + 12 || shifted > 45,
        shifted_apart(previous, current, overlap as int, shifted, 765),
        shifted_apart(previous, current, previous.height as int, 0, at_rest),
    ensures
        !crate::stitch::shows_progress(previous, current, overlap),
{
    lemma_shifted(previous, current, overlap as int, shifted, 765);
    lemma_shifted(previous, current, previous.height as int, 0, at_rest);
    let n = crate::math::sample_count(previous.width as int, 2) as nat;
    let ms = crate::math::sample_count(overlap as int, 2) as nat;
    let mr = crate::math::sample_count(previous.height as int, 2) as nat;
    let ns = n * ms;
    let nr = n * mr;
    let s = crate::difference::block_delta(
        previous,
        current,
        previous.height - overlap,
        0,
        0,
        2,
        n,
        ms,
    );
    let r = crate::difference::block_delta(previous, current, 0, 0, 0, 2, n, mr);
    assert(previous.height - previous.height as int == 0);
    if crate::stitch::shows_progress(previous, current, overlap) {
        assert(ns > 0);
        if shifted > 45 {
            assert(s > 45 * ns) by (nonlinear_arith)
                requires
                    s >= shifted * ns,
                    shifted >= 46,
                    ns > 0,
            ;
        } else {
            assert(r * ns <= s * nr + 12 * (nr * ns)) by (nonlinear_arith)
                requires
                    s >= shifted * ns,
                    r <= at_rest * nr,
                    at_rest <= shifted + 12,
                    0 <= nr,
                    0 <= ns,
            ;
        }
    }
}

} // verus!
