//! Where the text of a page is found, in terms of its ink.

use crate::raster::Raster;
use vstd::prelude::*;

verus! {

/// A pixel is inked.
pub open spec fn is_inked(marks: Raster, x: int, y: int) -> bool {
    marks.data[y * marks.width + x] != 0
}

/// The inked pixels of a row, among its first `n`.
pub open spec fn inked_in_row(marks: Raster, y: int, n: int) -> Set<int> {
    Set::new(|x: int| 0 <= x < n && is_inked(marks, x, y))
}

/// The inked pixels of a column, among its first `n`.
pub open spec fn inked_in_column(marks: Raster, x: int, n: int) -> Set<int> {
    Set::new(|y: int| 0 <= y < n && is_inked(marks, x, y))
}

/// The ink of a row is the number of its inked pixels.
pub proof fn ink_of_a_row_is_counted(marks: Raster, y: int, n: nat)
    ensures
        inked_in_row(marks, y, n as int).finite(),
        crate::text_band::row_ink(marks, y, n) == inked_in_row(marks, y, n as int).len(),
    decreases n,
{
    let all = inked_in_row(marks, y, n as int);
    if n == 0 {
        assert(all =~= Set::empty());
    } else {
        ink_of_a_row_is_counted(marks, y, (n - 1) as nat);
        let less = inked_in_row(marks, y, n - 1);
        if is_inked(marks, n - 1, y) {
            assert(all =~= less.insert(n - 1));
        } else {
            assert(all =~= less);
        }
    }
}

/// The ink of a column is the number of its inked pixels.
pub proof fn ink_of_a_column_is_counted(marks: Raster, x: int, n: nat)
    ensures
        inked_in_column(marks, x, n as int).finite(),
        crate::text_band::column_ink(marks, x, n) == inked_in_column(marks, x, n as int).len(),
    decreases n,
{
    let all = inked_in_column(marks, x, n as int);
    if n == 0 {
        assert(all =~= Set::empty());
    } else {
        ink_of_a_column_is_counted(marks, x, (n - 1) as nat);
        let less = inked_in_column(marks, x, n - 1);
        if is_inked(marks, x, n - 1) {
            assert(all =~= less.insert(n - 1));
        } else {
            assert(all =~= less);
        }
    }
}

/// The ink of each row, the first `n` of them.
pub open spec fn row_inks(marks: Raster, n: nat) -> Seq<int> {
    Seq::new(n, |y: int| inked_in_row(marks, y, marks.width as int).len() as int)
}

/// The sums over the rows are those of their ink.
proof fn lemma_ink_sums(marks: Raster, n: nat)
    ensures
        ({
            let sums = crate::text_band::ink_sums(marks, n);
            &&& sums.0 == crate::laws::spread::total(row_inks(marks, n))
            &&& sums.1 == crate::laws::spread::squares(row_inks(marks, n))
        }),
    decreases n,
{
    if n > 0 {
        lemma_ink_sums(marks, (n - 1) as nat);
        ink_of_a_row_is_counted(marks, n - 1, marks.width);
        let rows = row_inks(marks, n);
        assert(rows.drop_last() =~= row_inks(marks, (n - 1) as nat));
        let here = crate::text_band::row_ink(marks, n - 1, marks.width);
        assert(rows.last() == here);
        assert(rows.last() * rows.last() == here * here);
    }
}

/// A page is one of text where no more than twenty-two hundredths of it are ink, and where the
/// variance of the share of ink in its rows, taken as that of a sample, is fifteen thousandths
/// squared at least.
pub proof fn text_comes_in_lines(marks: Raster)
    requires
        0 < marks.height,
    ensures
        ({
            let rows = row_inks(marks, marks.height);
            let ink = crate::laws::spread::total(rows);
            let n = marks.height as int;
            crate::text_band::is_text_page(marks) <==> {
                &&& 100 * ink <= 22 * (marks.height * marks.width)
                &&& (1000 * 1000) * crate::laws::spread::spread(rows, n, ink) >= (15 * 15) * (n * n
                    * (n - 1) * (marks.width * marks.width))
            }
        }),
{
    let rows = row_inks(marks, marks.height);
    let n = marks.height as int;
    lemma_ink_sums(marks, marks.height);
    crate::laws::spread::spread_is_said_by_the_sums(rows);
    let a = n * crate::laws::spread::squares(rows) - crate::laws::spread::total(rows)
        * crate::laws::spread::total(rows);
    let w = (marks.width * marks.width) as int;
    assert((1000000 * (n * a) >= 225 * (n * n * (n - 1) * w)) == (1000000 * a >= 225 * ((n * (n
        - 1)) * w))) by (nonlinear_arith)
        requires
            n > 0,
    {
        let b = (n * (n - 1)) * w;
        assert(n * n * (n - 1) * w == n * b) by (nonlinear_arith)
            requires
                b == (n * (n - 1)) * w,
        ;
        assert((1000000 * (n * a) >= 225 * (n * b)) == (1000000 * a >= 225 * b))
            by (nonlinear_arith)
            requires
                n > 0,
        ;
    }
}

/// A whole number nearest to so many hundredths of a length, the upper one of two.
pub open spec fn is_nearest(share: int, length: nat, hundredths: int) -> bool {
    -50 < 100 * share - length * hundredths <= 50
}

/// Only ink between the margins counts, a twentieth of the width on each side.
pub proof fn margins_are_not_searched(marks: Raster, margin: int, x: int)
    requires
        is_nearest(margin, marks.width, 5),
    ensures
        crate::text_band::searched_ink(marks, x) == if margin <= x < marks.width - margin {
            inked_in_column(marks, x, marks.height as int).len()
        } else {
            0
        },
{
    ink_of_a_column_is_counted(marks, x, marks.height);
}

/// What counts of the ink of a column: nothing outside the page.
pub open spec fn ink_at(marks: Raster, x: int) -> int {
    if 0 <= x < marks.width {
        crate::text_band::searched_ink(marks, x) as int
    } else {
        0
    }
}

/// One for a column of the page.
pub open spec fn is_there(marks: Raster, x: int) -> int {
    if 0 <= x < marks.width {
        1
    } else {
        0
    }
}

/// The ink of a column is averaged over those that are two columns away at most.
pub proof fn ink_is_averaged_over_five_columns(marks: Raster, x: int)
    requires
        0 <= x < marks.width,
    ensures
        crate::text_band::smoothed_ink(marks, x) * (is_there(marks, x - 2) + is_there(marks, x - 1)
            + is_there(marks, x) + is_there(marks, x + 1) + is_there(marks, x + 2)) == 60 * (ink_at(
            marks,
            x - 2,
        ) + ink_at(marks, x - 1) + ink_at(marks, x) + ink_at(marks, x + 1) + ink_at(marks, x + 2)),
{
    let columns = crate::text_band::window(marks.width, x);
    let from = columns.0;
    let to = columns.1;
    let count = to - from;
    let sum = crate::text_band::ink_between(marks, from, to);
    reveal_with_fuel(crate::text_band::ink_between, 6);
    assert(count == is_there(marks, x - 2) + is_there(marks, x - 1) + is_there(marks, x) + is_there(
        marks,
        x + 1,
    ) + is_there(marks, x + 2));
    assert(sum == ink_at(marks, x - 2) + ink_at(marks, x - 1) + ink_at(marks, x) + ink_at(
        marks,
        x + 1,
    ) + ink_at(marks, x + 2));
    assert(1 <= count <= 5);
    let unit = 60int / count;
    assert(unit * count == 60) by (nonlinear_arith)
        requires
            unit == 60int / count,
            count == 1 || count == 2 || count == 3 || count == 4 || count == 5,
    ;
    assert((sum * unit) * count == 60 * sum) by (nonlinear_arith)
        requires
            unit * count == 60,
    ;
}

/// The peak is the largest average of a range of columns.
pub proof fn the_peak_is_the_largest_average(marks: Raster, from: int, to: int)
    requires
        from < to,
    ensures
        forall|x: int|
            from <= x < to ==> #[trigger] crate::text_band::smoothed_ink(marks, x)
                <= crate::text_band::peak_ink(marks, from, to),
        exists|x: int|
            from <= x < to && #[trigger] crate::text_band::smoothed_ink(marks, x)
                == crate::text_band::peak_ink(marks, from, to),
    decreases to - from,
{
    let last = crate::text_band::smoothed_ink(marks, to - 1);
    if from < to - 1 {
        the_peak_is_the_largest_average(marks, from, to - 1);
        let x = choose|x: int|
            from <= x < to - 1 && #[trigger] crate::text_band::smoothed_ink(marks, x)
                == crate::text_band::peak_ink(marks, from, to - 1);
        assert(crate::text_band::smoothed_ink(marks, x) <= crate::text_band::peak_ink(
            marks,
            from,
            to,
        ));
    } else {
        assert(crate::text_band::peak_ink(marks, from, to - 1) == 0);
    }
}

/// A column shows text: it lies between the margins, its average ink takes twelve thousandths of
/// the height, and thirty-five hundredths of the largest average.
pub open spec fn shows_text(marks: Raster, margin: int, peak: int, x: int) -> bool {
    let average = crate::text_band::smoothed_ink(marks, x);
    &&& margin <= x < marks.width - margin
    &&& 1000 * average >= 12 * (60 * marks.height)
    &&& 100 * average >= 35 * peak
}

/// The columns from `from` up to `to` show text, those beside them do not, and they take eighteen
/// hundredths of the width.
pub open spec fn is_text_block(
    marks: Raster,
    margin: int,
    peak: int,
    wide: int,
    from: int,
    to: int,
) -> bool {
    &&& from < to
    &&& wide <= to - from
    &&& forall|x: int| from <= x < to ==> #[trigger] shows_text(marks, margin, peak, x)
    &&& !shows_text(marks, margin, peak, from - 1)
    &&& !shows_text(marks, margin, peak, to)
}

/// The average ink of columns, added up.
pub open spec fn weight(marks: Raster, from: int, to: int) -> int {
    crate::laws::spread::total(
        Seq::new(
            (to - from) as nat,
            |i: int| crate::text_band::smoothed_ink(marks, from + i) as int,
        ),
    )
}

/// How far the middle of some columns is from the middle of the page, in half columns.
pub open spec fn off_centre(marks: Raster, from: int, to: int) -> int {
    if from + to >= marks.width {
        from + to - marks.width
    } else {
        marks.width - from - to
    }
}

/// The mass of a run is its weight.
proof fn lemma_weight(marks: Raster, from: int, to: int)
    requires
        from <= to,
    ensures
        crate::text_band::mass(marks, from, to) == weight(marks, from, to),
    decreases to - from,
{
    let all = Seq::new(
        (to - from) as nat,
        |i: int| crate::text_band::smoothed_ink(marks, from + i) as int,
    );
    if from < to {
        lemma_weight(marks, from, to - 1);
        let less = Seq::new(
            (to - 1 - from) as nat,
            |i: int| crate::text_band::smoothed_ink(marks, from + i) as int,
        );
        assert(all.drop_last() =~= less);
    }
}

/// Runs and blocks are the same.
proof fn lemma_blocks(marks: Raster, margin: int, peak: nat, wide: int, from: int, to: int)
    requires
        is_nearest(margin, marks.width, 5),
        is_nearest(wide, marks.width, 18),
    ensures
        crate::text_band::is_wide_run(marks, peak, from, to) <==> is_text_block(
            marks,
            margin,
            peak as int,
            wide,
            from,
            to,
        ),
{
    assert forall|x: int| #[trigger]
        crate::text_band::is_active(marks, peak, x) <==> shows_text(
            marks,
            margin,
            peak as int,
            x,
        ) by {}
    if crate::text_band::is_wide_run(marks, peak, from, to) {
        assert forall|x: int| from <= x < to implies #[trigger] shows_text(
            marks,
            margin,
            peak as int,
            x,
        ) by {
            assert(crate::text_band::is_active(marks, peak, x));
        }
        assert(!crate::text_band::is_active(marks, peak, from - 1));
        assert(!crate::text_band::is_active(marks, peak, to));
    }
    if is_text_block(marks, margin, peak as int, wide, from, to) {
        assert forall|x: int| from <= x < to implies #[trigger] crate::text_band::is_active(
            marks,
            peak,
            x,
        ) by {
            assert(shows_text(marks, margin, peak as int, x));
        }
        assert(!shows_text(marks, margin, peak as int, from - 1));
        assert(!shows_text(marks, margin, peak as int, to));
    }
}

/// The best of the wide runs that start left of a column, if there is one.
spec fn is_best_before(marks: Raster, peak: nat, run: (int, int), end: int) -> bool {
    &&& crate::text_band::is_wide_run(marks, peak, run.0, run.1)
    &&& run.0 < end
    &&& forall|from: int, to: int| #[trigger]
        crate::text_band::is_wide_run(marks, peak, from, to) && from < end
            ==> crate::text_band::run_score(marks, from, to) < crate::text_band::run_score(
            marks,
            run.0,
            run.1,
        ) || (crate::text_band::run_score(marks, from, to) == crate::text_band::run_score(
            marks,
            run.0,
            run.1,
        ) && run.0 <= from)
}

/// No wide run starts left of a column.
spec fn has_none_before(marks: Raster, peak: nat, end: int) -> bool {
    forall|from: int, to: int| #[trigger]
        crate::text_band::is_wide_run(marks, peak, from, to) ==> from >= end
}

/// Two runs that start at one column end at one column.
proof fn lemma_same_run(marks: Raster, peak: nat, from: int, a: int, b: int)
    requires
        crate::text_band::is_wide_run(marks, peak, from, a),
        crate::text_band::is_wide_run(marks, peak, from, b),
    ensures
        a == b,
{
    if a < b {
        assert(crate::text_band::is_active(marks, peak, a));
    } else if b < a {
        assert(crate::text_band::is_active(marks, peak, b));
    }
}

/// Among finitely many wide runs there is a best one.
proof fn lemma_best_before(marks: Raster, peak: nat, end: int)
    requires
        0 <= end,
    ensures
        has_none_before(marks, peak, end) || exists|run: (int, int)| #[trigger]
            is_best_before(marks, peak, run, end),
    decreases end,
{
    if end == 0 {
        assert forall|from: int, to: int| #[trigger]
            crate::text_band::is_wide_run(marks, peak, from, to) implies from >= end by {
            assert(crate::text_band::is_active(marks, peak, from));
        }
    } else {
        lemma_best_before(marks, peak, end - 1);
        if exists|to: int| #[trigger] crate::text_band::is_wide_run(marks, peak, end - 1, to) {
            let to = choose|to: int| #[trigger]
                crate::text_band::is_wide_run(marks, peak, end - 1, to);
            assert forall|b: int| #[trigger]
                crate::text_band::is_wide_run(marks, peak, end - 1, b) implies b == to by {
                lemma_same_run(marks, peak, end - 1, to, b);
            }
            if has_none_before(marks, peak, end - 1) {
                assert(is_best_before(marks, peak, (end - 1, to), end));
            } else {
                let before = choose|run: (int, int)| #[trigger]
                    is_best_before(marks, peak, run, end - 1);
                if crate::text_band::run_score(marks, end - 1, to) > crate::text_band::run_score(
                    marks,
                    before.0,
                    before.1,
                ) {
                    assert(is_best_before(marks, peak, (end - 1, to), end));
                } else {
                    assert(is_best_before(marks, peak, before, end));
                }
            }
        } else {
            if has_none_before(marks, peak, end - 1) {
                assert(has_none_before(marks, peak, end));
            } else {
                let before = choose|run: (int, int)| #[trigger]
                    is_best_before(marks, peak, run, end - 1);
                assert(is_best_before(marks, peak, before, end));
            }
        }
    }
}

/// A body of text is found wherever a block of columns shows text over eighteen hundredths of the
/// width, and nowhere else.
pub proof fn text_is_found_where_it_stands(marks: Raster, margin: int, peak: int, wide: int)
    requires
        0 < marks.height,
        is_nearest(margin, marks.width, 5),
        is_nearest(wide, marks.width, 18),
        0 < marks.width,
        peak == crate::text_band::peak_ink(marks, margin, marks.width - margin),
    ensures
        crate::text_band::body_band(marks) is Some <==> exists|from: int, to: int| #[trigger]
            is_text_block(marks, margin, peak, wide, from, to),
{
    let range = crate::text_band::search_range(marks.width);
    assert(range.0 == margin && range.1 == marks.width - margin);
    lemma_best_before(marks, peak as nat, marks.width as int);
    if exists|from: int, to: int| #[trigger]
        is_text_block(marks, margin, peak, wide, from, to) {
        let (from, to) = choose|from: int, to: int| #[trigger]
            is_text_block(marks, margin, peak, wide, from, to);
        lemma_blocks(marks, margin, peak as nat, wide, from, to);
        assert(crate::text_band::is_wide_run(marks, peak as nat, from, to));
        assert(shows_text(marks, margin, peak, from));
        the_peak_is_the_largest_average(marks, margin, marks.width - margin);
        let run = choose|run: (int, int)| #[trigger]
            is_best_before(marks, peak as nat, run, marks.width as int);
        assert(crate::text_band::is_best_run(marks, peak as nat, run)) by {
            assert forall|a: int, b: int| #[trigger]
                crate::text_band::is_wide_run(marks, peak as nat, a, b) implies a < marks.width by {
                assert(crate::text_band::is_active(marks, peak as nat, a));
            }
        }
    }
    if crate::text_band::body_band(marks) is Some {
        let run = choose|run: (int, int)| #[trigger]
            crate::text_band::is_best_run(marks, peak as nat, run);
        lemma_blocks(marks, margin, peak as nat, wide, run.0, run.1);
        assert(is_text_block(marks, margin, peak, wide, run.0, run.1));
    }
}

/// One block is more like the body of the page than another: it weighs more, where one that is off
/// the middle loses up to a fifth of its weight, in proportion, or it weighs the same and stands
/// further left.
pub open spec fn is_preferred(marks: Raster, a: (int, int), b: (int, int)) -> bool {
    let worth_a = weight(marks, a.0, a.1) * (5 * marks.width - off_centre(marks, a.0, a.1));
    let worth_b = weight(marks, b.0, b.1) * (5 * marks.width - off_centre(marks, b.0, b.1));
    worth_a > worth_b || (worth_a == worth_b && a.0 <= b.0)
}

/// The band found is that of a block of text that is preferred to all others, with three hundredths
/// of the width added on each side, as far as the page goes.
pub proof fn the_body_is_the_preferred_block(
    marks: Raster,
    margin: int,
    peak: int,
    wide: int,
    padding: int,
) -> (block: (int, int))
    requires
        0 < marks.width <= u32::MAX,
        is_nearest(margin, marks.width, 5),
        is_nearest(wide, marks.width, 18),
        is_nearest(padding, marks.width, 3),
        peak == crate::text_band::peak_ink(marks, margin, marks.width - margin),
        crate::text_band::body_band(marks) is Some,
    ensures
        is_text_block(marks, margin, peak, wide, block.0, block.1),
        forall|from: int, to: int| #[trigger]
            is_text_block(marks, margin, peak, wide, from, to) ==> is_preferred(
                marks,
                block,
                (from, to),
            ),
        forall|x: int|
            0 <= x ==> (#[trigger] crate::laws::overlap::has_column(
                crate::text_band::body_band(marks)->0,
                x,
            ) <==> block.0 - padding <= x < block.1 + padding && x < marks.width),
{
    let range = crate::text_band::search_range(marks.width);
    assert(range.0 == margin && range.1 == marks.width - margin);
    let run = choose|run: (int, int)| #[trigger]
        crate::text_band::is_best_run(marks, peak as nat, run);
    lemma_blocks(marks, margin, peak as nat, wide, run.0, run.1);
    assert(shows_text(marks, margin, peak, run.0));
    assert(shows_text(marks, margin, peak, run.1 - 1));
    assert forall|from: int, to: int| #[trigger]
        is_text_block(marks, margin, peak, wide, from, to) implies is_preferred(
        marks,
        run,
        (from, to),
    ) by {
        lemma_blocks(marks, margin, peak as nat, wide, from, to);
        lemma_weight(marks, from, to);
        lemma_weight(marks, run.0, run.1);
        assert(crate::text_band::is_wide_run(marks, peak as nat, from, to));
    }
    run
}

/// The text of a page is looked for in its middle, without a tenth of the width on each side: there
/// the dark pixels are marked, and a page of text has the band that the marks have, in a page that
/// is blank at the sides.
pub proof fn text_is_looked_for_in_the_middle(
    page: Raster,
    level: u8,
    middle: Raster,
    whole: Raster,
)
    requires
        page.is_gray(),
        middle.is_gray(),
        whole.is_gray(),
        middle.width == page.width - page.width / 10 - page.width / 10,
        middle.height == page.height,
        whole.width == page.width,
        whole.height == page.height,
        forall|x: int, y: int|
            #![trigger middle.data[y * middle.width + x]]
            0 <= x < middle.width && 0 <= y < page.height ==> middle.data[y * middle.width + x]
                == if page.data[y * page.width + x + page.width / 10] > level {
                0u8
            } else {
                255u8
            },
        forall|x: int, y: int|
            #![trigger whole.data[y * whole.width + x]]
            0 <= x < page.width && 0 <= y < page.height ==> whole.data[y * whole.width + x] == if (
            page.width / 10 <= x < page.width - page.width / 10) && page.data[y * page.width + x]
                <= level {
                255u8
            } else {
                0u8
            },
    ensures
        crate::text_band::text_band_given(page, level) == if page.width == 0 || page.height == 0
            || !crate::text_band::is_text_page(middle) {
            None
        } else {
            crate::text_band::body_band(whole)
        },
{
    let left = (page.width / 10) as int;
    let focus = crate::text_band::text_focus(page);
    let marks = crate::vision::ink_marks(focus, level);
    crate::raster::lemma_gray_columns(page, left, page.width - left);
    assert forall|x: int, y: int| 0 <= x < marks.width && 0 <= y < marks.height implies #[trigger]
        marks.gray(x, y) == middle.gray(x, y) by {
        crate::raster::lemma_place(y, marks.height as int, x, marks.width as int);
        assert(focus.gray(x, y) == page.gray(left + x, y));
        let inked = middle.data[y * middle.width + x];
    }
    lemma_same_picture(marks, middle);
    let padded = marks.padded(left, page.width as int);
    crate::raster::lemma_padded(marks, left, page.width as int);
    assert forall|x: int, y: int| 0 <= x < padded.width && 0 <= y
        < padded.height implies #[trigger] padded.gray(x, y) == whole.gray(x, y) by {
        let inked = whole.data[y * whole.width + x];
        if left <= x < page.width - left {
            assert(marks.gray(x - left, y) == middle.gray(x - left, y));
            let other = middle.data[y * middle.width + (x - left)];
        }
    }
    lemma_same_picture(padded, whole);
}

/// The text of a frame is told from its paper by the brightness that separates dark from bright
/// pixels best in the middle of its gray image, wherever that can be computed.
pub proof fn the_middle_sets_the_level(frame: Raster, middle: Raster)
    requires
        middle.is_gray(),
        middle.width == frame.width - frame.width / 10 - frame.width / 10,
        middle.height == frame.height,
        forall|x: int, y: int|
            0 <= x < middle.width && 0 <= y < frame.height ==> #[trigger] middle.gray(x, y)
                == crate::vision::grayscale_of(frame).gray(frame.width / 10 + x, y),
    ensures
        crate::vision::level_is_computable(middle.data) ==> crate::overlap::text_columns(frame)
            == crate::text_band::text_band_given(
            crate::vision::grayscale_of(frame),
            crate::vision::otsu_threshold(middle.width, middle.height, middle.data),
        ),
        !crate::vision::level_is_computable(middle.data) ==> crate::overlap::text_columns(frame)
            is None,
{
    let page = crate::vision::grayscale_of(frame);
    let left = (page.width / 10) as int;
    let focus = crate::text_band::text_focus(page);
    crate::raster::lemma_gray_columns(page, left, page.width - left);
    assert forall|x: int, y: int| 0 <= x < focus.width && 0 <= y < focus.height implies #[trigger]
        focus.gray(x, y) == middle.gray(x, y) by {
        assert(middle.gray(x, y) == page.gray(frame.width / 10 + x, y));
    }
    lemma_same_picture(focus, middle);
}

/// Gray images of one size with the same pixels are the same.
proof fn lemma_same_picture(a: Raster, b: Raster)
    requires
        a.is_gray(),
        b.is_gray(),
        a.width == b.width,
        a.height == b.height,
        forall|x: int, y: int|
            0 <= x < a.width && 0 <= y < a.height ==> #[trigger] a.gray(x, y) == b.gray(x, y),
    ensures
        a == b,
{
    assert forall|i: int| 0 <= i < a.data.len() implies a.data[i] == b.data[i] by {
        let w = a.width as int;
        let h = a.height as int;
        assert(w > 0) by (nonlinear_arith)
            requires
                0 <= i < h * w,
                w >= 0,
        ;
        vstd::arithmetic::div_mod::lemma_fundamental_div_mod(i, w);
        let x = i % w;
        let y = i / w;
        assert(0 <= y < h && y * w + x == i) by (nonlinear_arith)
            requires
                i == w * y + x,
                0 <= x < w,
                0 <= i < h * w,
        ;
        assert(a.gray(x, y) == b.gray(x, y));
    }
    assert(a.data =~= b.data);
}

} // verus!
