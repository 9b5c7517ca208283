//! Rows that never move: which count as a fixed bar, and which do not.

use crate::raster::Raster;
use vstd::prelude::*;

verus! {

/// The number of pixels that are looked at in a row: every second one, the first among them.
pub open spec fn half_up(length: nat) -> nat {
    (length + 1) / 2
}

/// The row that lies `offset` rows from the top or from the bottom of a frame.
pub open spec fn row_at(frame: Raster, offset: int, from_bottom: bool) -> int {
    if from_bottom {
        frame.height - 1 - offset
    } else {
        offset
    }
}

/// How many rows stay the same at one side.
pub open spec fn edge_at(frames: Seq<Raster>, from_bottom: bool) -> nat {
    if from_bottom {
        crate::edges::static_edges(frames).1
    } else {
        crate::edges::static_edges(frames).0
    }
}

/// A fixed bar takes sixteen rows or more, and no more than half of the lowest frame, nor than
/// twelve hundredths of it where these are more than sixteen rows.
pub proof fn bars_have_a_size(frames: Seq<Raster>, from_bottom: bool)
    ensures
        ({
            let rows = edge_at(frames, from_bottom);
            let height = crate::edges::lowest(frames);
            rows > 0 ==> {
                &&& 16 <= rows
                &&& rows * 2 <= height
                &&& rows == 16 || rows * 100 <= height * 12
            }
        }),
        frames.len() < 2 ==> edge_at(frames, from_bottom) == 0,
{
    let limit = crate::edges::edge_limit(crate::edges::lowest(frames)) as int;
    crate::edges::lemma_run_limit(frames, 0, limit, from_bottom);
}

/// The lowest frame is one of the frames, and no higher than any.
pub proof fn lowest_is_the_least_height(frames: Seq<Raster>)
    requires
        frames.len() > 0,
    ensures
        forall|i: int|
            0 <= i < frames.len() ==> crate::edges::lowest(frames) <= (#[trigger] frames[i]).height,
        exists|i: int|
            0 <= i < frames.len() && (#[trigger] frames[i]).height == crate::edges::lowest(frames),
    decreases frames.len(),
{
    crate::edges::lemma_lowest(frames);
    if frames.len() > 1 {
        let before = frames.drop_last();
        lowest_is_the_least_height(before);
        let i = choose|i: int|
            0 <= i < before.len() && (#[trigger] before[i]).height == crate::edges::lowest(before);
        assert(frames[i] == before[i]);
        assert(frames[frames.len() - 1] == frames.last());
    } else {
        assert(frames[0].height == crate::edges::lowest(frames));
    }
}

/// Rows inside a run of static rows are static.
proof fn lemma_run_rows(
    frames: Seq<Raster>,
    offset: int,
    limit: int,
    from_bottom: bool,
    at: int,
)
    requires
        offset <= at < offset + crate::edges::static_run(frames, offset, limit, from_bottom),
    ensures
        crate::edges::row_is_static(frames, at, from_bottom),
        at < limit,
    decreases at - offset,
{
    if offset < at {
        lemma_run_rows(frames, offset + 1, limit, from_bottom, at);
    }
}

/// A run of static rows ends at the first that is not static, or at the limit.
proof fn lemma_run_length(
    frames: Seq<Raster>,
    offset: int,
    limit: int,
    from_bottom: bool,
    end: int,
)
    requires
        offset <= end <= limit,
        forall|k: int|
            offset <= k < end ==> #[trigger] crate::edges::row_is_static(frames, k, from_bottom),
        end == limit || !crate::edges::row_is_static(frames, end, from_bottom),
    ensures
        crate::edges::static_run(frames, offset, limit, from_bottom) == end - offset,
    decreases end - offset,
{
    if offset < end {
        assert(crate::edges::row_is_static(frames, offset, from_bottom));
        lemma_run_length(frames, offset + 1, limit, from_bottom, end);
    }
}

/// In a fixed bar, each row differs from that of the first frame by no more than one on average
/// over the channels of the pixels that are looked at, in every frame.
pub proof fn bar_rows_agree(frames: Seq<Raster>, from_bottom: bool, i: int, offset: int)
    requires
        1 <= i < frames.len(),
        0 <= offset < edge_at(frames, from_bottom),
    ensures
        frames[i].width == frames[0].width,
        0 < frames[0].width,
        crate::difference::line_delta(
            frames[0],
            frames[i],
            row_at(frames[0], offset, from_bottom),
            row_at(frames[i], offset, from_bottom),
            0,
            2,
            half_up(frames[0].width),
        ) <= 3 * half_up(frames[0].width),
{
    let limit = crate::edges::edge_limit(crate::edges::lowest(frames)) as int;
    lemma_run_rows(frames, 0, limit, from_bottom, offset);
    assert(crate::edges::row_is_static(frames, offset, from_bottom));
    let other = frames[i];
}

/// A row that differs at each pixel that is looked at by more than one on average over its channels
/// lies in no fixed bar, and ends it.
pub proof fn differing_rows_end_a_bar(frames: Seq<Raster>, from_bottom: bool, i: int, offset: int)
    requires
        1 <= i < frames.len(),
        0 <= offset,
        forall|k: int|
            #![trigger 0 + k * 2]
            0 <= k * 2 < frames[0].width ==> crate::laws::pixels::pixels_apart(
                frames[0],
                frames[i],
                0 + k * 2,
                row_at(frames[0], offset, from_bottom),
                row_at(frames[i], offset, from_bottom),
            ) > 3,
    ensures
        edge_at(frames, from_bottom) <= offset,
{
    if edge_at(frames, from_bottom) > offset {
        bar_rows_agree(frames, from_bottom, i, offset);
        let n = half_up(frames[0].width);
        crate::laws::pixels::line_bounds(
            frames[0],
            frames[i],
            row_at(frames[0], offset, from_bottom),
            row_at(frames[i], offset, from_bottom),
            0,
            2,
            n,
            4,
            765,
        );
    }
}

/// Red, green and blue of a pixel of the first rows from one side, added up.
pub open spec fn light_at(frame: Raster, x: int, offset: int, from_bottom: bool) -> int {
    let at = row_at(frame, offset, from_bottom) * (frame.width * 4) + x * 4;
    frame.data[at] + frame.data[at + 1] + frame.data[at + 2]
}

/// Sums over pixels of one light.
proof fn lemma_even_line(image: Raster, y: int, n: nat, value: nat)
    requires
        forall|k: int|
            #![trigger k * 2]
            0 <= k < n ==> crate::edges::light(image, k * 2, y) == value,
    ensures
        ({
            let sums = crate::edges::light_line(image, y, n);
            &&& sums.light == value * n
            &&& sums.squares == (value * value) * n
            &&& sums.dark == if value < 735 {
                n
            } else {
                0
            }
        }),
    decreases n,
{
    if n > 0 {
        let k = (n - 1) as nat;
        lemma_even_line(image, y, k, value);
        assert(crate::edges::light(image, (k * 2) as int, y) == value);
        assert(value * n == value * k + value && (value * value) * n == (value * value) * k + value
            * value) by (nonlinear_arith)
            requires
                n == k + 1,
        ;
    } else {
        assert(value * n == 0 && (value * value) * n == 0) by (nonlinear_arith)
            requires
                n == 0,
        ;
    }
}

/// Sums over the pixels of a block of one light.
proof fn lemma_even_block(image: Raster, from_bottom: bool, n: nat, m: nat, value: nat)
    requires
        forall|k: int, j: int|
            #![trigger k * 2, j * 2]
            0 <= k < n && 0 <= j < m ==> crate::edges::light(
                image,
                k * 2,
                crate::edges::edge_row(image.height, j * 2, from_bottom),
            ) == value,
    ensures
        ({
            let sums = crate::edges::light_block(image, from_bottom, n, m);
            &&& sums.light == value * (n * m)
            &&& sums.squares == (value * value) * (n * m)
            &&& sums.dark == if value < 735 {
                n * m
            } else {
                0
            }
        }),
    decreases m,
{
    if m > 0 {
        let j = (m - 1) as nat;
        lemma_even_block(image, from_bottom, n, j, value);
        let y = crate::edges::edge_row(image.height, (j * 2) as int, from_bottom);
        assert forall|k: int| #![trigger k * 2] 0 <= k < n implies crate::edges::light(
            image,
            k * 2,
            y,
        ) == value by {
            let x = k * 2;
            let row = j * 2;
        }
        lemma_even_line(image, y, n, value);
        assert(n * m == n * j + n) by (nonlinear_arith)
            requires
                m == j + 1,
        ;
        assert(value * (n * m) == value * (n * j) + value * n && (value * value) * (n * m) == (value
            * value) * (n * j) + (value * value) * n) by (nonlinear_arith)
            requires
                n * m == n * j + n,
        ;
    } else {
        assert(n * m == 0 && value * (n * m) == 0 && (value * value) * (n * m) == 0)
            by (nonlinear_arith)
            requires
                m == 0,
        ;
    }
}

/// The light of every second pixel of a row.
pub open spec fn line_of_light(frame: Raster, offset: int, from_bottom: bool) -> Seq<int> {
    Seq::new(
        half_up(frame.width),
        |i: int| light_at(frame, i * 2, offset, from_bottom),
    )
}

/// The light of every second pixel of every second row, from one side on, `m` rows of them.
pub open spec fn lights(frame: Raster, from_bottom: bool, m: nat) -> Seq<int>
    decreases m,
{
    if m == 0 {
        Seq::empty()
    } else {
        lights(frame, from_bottom, (m - 1) as nat) + line_of_light(frame, (m - 1) * 2, from_bottom)
    }
}

/// The sums along the first pixels of a line are those of their light.
proof fn lemma_line_sums(frame: Raster, offset: int, from_bottom: bool, n: nat)
    requires
        n <= half_up(frame.width),
    ensures
        ({
            let sums = crate::edges::light_line(frame, row_at(frame, offset, from_bottom), n);
            let line = line_of_light(frame, offset, from_bottom).take(n as int);
            &&& sums.light == crate::laws::spread::total(line)
            &&& sums.squares == crate::laws::spread::squares(line)
            &&& sums.dark == crate::laws::spread::count_below(line, 735)
        }),
    decreases n,
{
    let line = line_of_light(frame, offset, from_bottom).take(n as int);
    reveal(Seq::filter);
    if n > 0 {
        lemma_line_sums(frame, offset, from_bottom, (n - 1) as nat);
        let less = line_of_light(frame, offset, from_bottom).take(n - 1);
        assert(line.drop_last() =~= less);
        let here = crate::edges::light(frame, (n - 1) * 2, row_at(frame, offset, from_bottom));
        assert(line.last() == here);
        assert(line.last() * line.last() == here * here);
    }
}

/// The sums over a block are those of its light.
proof fn lemma_block_sums(frame: Raster, from_bottom: bool, m: nat)
    ensures
        ({
            let sums = crate::edges::light_block(frame, from_bottom, half_up(frame.width), m);
            let all = lights(frame, from_bottom, m);
            &&& all.len() == half_up(frame.width) * m
            &&& sums.light == crate::laws::spread::total(all)
            &&& sums.squares == crate::laws::spread::squares(all)
            &&& sums.dark == crate::laws::spread::count_below(all, 735)
        }),
    decreases m,
{
    let n = half_up(frame.width);
    if m > 0 {
        let k = (m - 1) as nat;
        lemma_block_sums(frame, from_bottom, k);
        lemma_line_sums(frame, (m - 1) * 2, from_bottom, n);
        let line = line_of_light(frame, (m - 1) * 2, from_bottom);
        assert(line.take(n as int) =~= line);
        crate::laws::spread::sums_add_up(lights(frame, from_bottom, k), line);
        crate::laws::spread::counting_adds_up(lights(frame, from_bottom, k), line, 735);
        assert(n * m == n * k + n) by (nonlinear_arith)
            requires
                m == k + 1,
        ;
    } else {
        reveal(Seq::filter);
        assert(n * m == 0) by (nonlinear_arith)
            requires
                m == 0,
        ;
    }
}

/// Rows at one side hold something: every second pixel of every second one of them, taken together,
/// has a standard deviation of six for each channel, or one in a hundred of these pixels is darker
/// than two hundred and forty-five on average over its channels.
pub open spec fn holds_something(frame: Raster, rows: nat, from_bottom: bool) -> bool {
    let light = lights(frame, from_bottom, half_up(rows));
    let n = light.len() as int;
    ||| crate::laws::spread::spread(light, n, crate::laws::spread::total(light)) >= (18 * 18) * (n
        * n * n)
    ||| 100 * crate::laws::spread::count_below(light, 735) >= n
}

/// Whether rows hold something is decided by the variance of their light, and by its dark pixels.
pub proof fn rows_with_contrast_or_dark_hold_something(
    frame: Raster,
    rows: nat,
    from_bottom: bool,
)
    requires
        0 < frame.width,
        0 < rows,
    ensures
        crate::edges::edge_has_content(frame, rows, from_bottom) <==> holds_something(
            frame,
            rows,
            from_bottom,
        ),
{
    let m = half_up(rows);
    let light = lights(frame, from_bottom, m);
    let n = light.len() as int;
    lemma_block_sums(frame, from_bottom, m);
    crate::laws::spread::spread_is_said_by_the_sums(light);
    assert(half_up(frame.width) * m > 0) by (nonlinear_arith)
        requires
            half_up(frame.width) > 0,
            m > 0,
    ;
    let a = n * crate::laws::spread::squares(light) - crate::laws::spread::total(light)
        * crate::laws::spread::total(light);
    assert((n * a >= 324 * (n * n * n)) == (a >= 324 * (n * n))) by (nonlinear_arith)
        requires
            n > 0,
    ;
}

/// The rows of one side are alike in all frames, with pixels no further apart than one on average
/// over their channels, hold something in the first frame, are no more than may count, and are
/// followed by a row that differs in some frame, if another row may count.
pub open spec fn is_fixed_bar(frames: Seq<Raster>, from_bottom: bool, rows: nat) -> bool {
    let height = crate::edges::lowest(frames);
    &&& 16 <= rows
    &&& rows * 2 <= height
    &&& rows == 16 || rows * 100 <= height * 12
    &&& forall|i: int, offset: int, k: int|
        #![trigger frames[i], 0 + k * 2, row_at(frames[0], offset, from_bottom)]
        1 <= i < frames.len() && 0 <= offset < rows && 0 <= k * 2 < frames[0].width
            ==> crate::laws::pixels::pixels_apart(
            frames[0],
            frames[i],
            0 + k * 2,
            row_at(frames[0], offset, from_bottom),
            row_at(frames[i], offset, from_bottom),
        ) <= 3
    &&& holds_something(frames[0], rows, from_bottom)
    &&& {
        ||| (rows + 1) * 2 > height
        ||| (rows + 1) * 100 > height * 12
        ||| exists|i: int|
            1 <= i < frames.len() && #[trigger] row_differs(
                frames[0],
                frames[i],
                rows as int,
                from_bottom,
            )
    }
}

/// The rows at this offset differ at each pixel that is looked at by more than one on average over
/// its channels.
pub open spec fn row_differs(a: Raster, b: Raster, offset: int, from_bottom: bool) -> bool {
    forall|k: int|
        #![trigger 0 + k * 2]
        0 <= k * 2 < a.width ==> crate::laws::pixels::pixels_apart(
            a,
            b,
            0 + k * 2,
            row_at(a, offset, from_bottom),
            row_at(b, offset, from_bottom),
        ) > 3
}

/// A fixed bar is found, with all of its rows and no other.
pub proof fn fixed_bars_are_found(frames: Seq<Raster>, from_bottom: bool, rows: nat)
    requires
        frames.len() >= 2,
        0 < frames[0].width,
        forall|i: int| 0 <= i < frames.len() ==> (#[trigger] frames[i]).width == frames[0].width,
        is_fixed_bar(frames, from_bottom, rows),
    ensures
        edge_at(frames, from_bottom) == rows,
{
    let limit = crate::edges::edge_limit(crate::edges::lowest(frames)) as int;
    let n = half_up(frames[0].width);
    assert forall|offset: int| 0 <= offset < rows implies #[trigger] crate::edges::row_is_static(
        frames,
        offset,
        from_bottom,
    ) by {
        assert forall|i: int| 1 <= i < frames.len() implies crate::edges::rows_agree(
            frames[0],
            #[trigger] frames[i],
            crate::edges::edge_row(frames[0].height, offset, from_bottom),
            crate::edges::edge_row(frames[i].height, offset, from_bottom),
        ) by {
            let ya = row_at(frames[0], offset, from_bottom);
            let yb = row_at(frames[i], offset, from_bottom);
            assert forall|k: int| #![trigger 0 + k * 2] 0 <= k < n implies 0 <= crate::laws::pixels::pixels_apart(
                frames[0],
                frames[i],
                0 + k * 2,
                ya,
                yb,
            ) <= 3 by {
                let x = 0 + k * 2;
            }
            crate::laws::pixels::line_bounds(frames[0], frames[i], ya, yb, 0, 2, n, 0, 3);
        }
    }
    if rows < limit && crate::edges::row_is_static(frames, rows as int, from_bottom) {
        let i = choose|i: int|
            1 <= i < frames.len() && #[trigger] row_differs(
                frames[0],
                frames[i],
                rows as int,
                from_bottom,
            );
        let ya = row_at(frames[0], rows as int, from_bottom);
        let yb = row_at(frames[i], rows as int, from_bottom);
        let other = frames[i];
        crate::laws::pixels::line_bounds(frames[0], frames[i], ya, yb, 0, 2, n, 4, 765);
    }
    lemma_run_length(frames, 0, limit, from_bottom, rows as int);
    rows_with_contrast_or_dark_hold_something(frames[0], rows, from_bottom);
}

/// Only rows that hold something are a fixed bar.
pub proof fn fixed_bars_hold_something(frames: Seq<Raster>, from_bottom: bool)
    requires
        frames.len() > 0,
        0 < frames[0].width,
    ensures
        edge_at(frames, from_bottom) > 0 ==> holds_something(
            frames[0],
            edge_at(frames, from_bottom),
            from_bottom,
        ),
{
    let rows = edge_at(frames, from_bottom);
    if rows > 0 {
        rows_with_contrast_or_dark_hold_something(frames[0], rows, from_bottom);
    }
}

/// How many rows of one side are a fixed bar: those of a fixed bar, or none where a row near
/// the side differs in some frame.
pub open spec fn has_bar(frames: Seq<Raster>, from_bottom: bool, rows: nat) -> bool {
    ||| is_fixed_bar(frames, from_bottom, rows)
    ||| rows == 0 && exists|i: int, offset: int|
        1 <= i < frames.len() && 0 <= offset < 16 && #[trigger] row_differs(
            frames[0],
            frames[i],
            offset,
            from_bottom,
        )
}

/// A fixed bar is found where there is one, and none is found where the rows of the side differ.
pub proof fn bars_are_told_from_content(frames: Seq<Raster>, from_bottom: bool, rows: nat)
    requires
        frames.len() >= 2,
        0 < frames[0].width,
        forall|i: int| 0 <= i < frames.len() ==> (#[trigger] frames[i]).width == frames[0].width,
        has_bar(frames, from_bottom, rows),
    ensures
        edge_at(frames, from_bottom) == rows,
{
    if is_fixed_bar(frames, from_bottom, rows) {
        fixed_bars_are_found(frames, from_bottom, rows);
    } else {
        let (i, offset) = choose|i: int, offset: int|
            1 <= i < frames.len() && 0 <= offset < 16 && #[trigger] row_differs(
                frames[0],
                frames[i],
                offset,
                from_bottom,
            );
        differing_rows_end_a_bar(frames, from_bottom, i, offset);
        bars_have_a_size(frames, from_bottom);
    }
}

/// Rows of one bright colour are no fixed bar: a page margin is not cut off.
pub proof fn blank_margins_are_no_bars(frames: Seq<Raster>, from_bottom: bool, value: nat)
    requires
        735 <= value,
        frames.len() > 0,
        forall|offset: int, x: int|
            #![trigger light_at(frames[0], x, offset, from_bottom)]
            0 <= offset < frames[0].height && 0 <= x < frames[0].width ==> light_at(
                frames[0],
                x,
                offset,
                from_bottom,
            ) == value,
    ensures
        edge_at(frames, from_bottom) == 0,
{
    let limit = crate::edges::edge_limit(crate::edges::lowest(frames)) as int;
    let run = crate::edges::static_run(frames, 0, limit, from_bottom);
    crate::edges::lemma_run_limit(frames, 0, limit, from_bottom);
    crate::edges::lemma_lowest(frames);
    assert(crate::edges::lowest(frames) <= frames[0].height);
    let n = crate::math::sample_count(frames[0].width as int, 2) as nat;
    let m = crate::math::sample_count(run as int, 2) as nat;
    crate::math::lemma_samples(run as int, 2);
    crate::math::lemma_samples(frames[0].width as int, 2);
    assert forall|k: int, j: int|
        #![trigger k * 2, j * 2]
        0 <= k < n && 0 <= j < m implies crate::edges::light(
        frames[0],
        k * 2,
        crate::edges::edge_row(frames[0].height, j * 2, from_bottom),
    ) == value by {
        assert(light_at(frames[0], k * 2, j * 2, from_bottom) == value);
    }
    lemma_even_block(frames[0], from_bottom, n, m, value);
    let count = n * m;
    if count > 0 {
        assert(count * ((value * value) * count) == (value * count) * (value * count))
            by (nonlinear_arith);
        assert(324 * (count * count) > 0) by (nonlinear_arith)
            requires
                count > 0,
        ;
    }
}

} // verus!
