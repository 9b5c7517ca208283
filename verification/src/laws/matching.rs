//! Which places are candidates for a seam, and which of them is trusted.

use crate::matching::MatchCandidate;
use crate::raster::Raster;
use vstd::prelude::*;

verus! {

/// The template heights are one, two, three, five and eight times the smallest overlap, and twelve
/// rows where the smallest overlap is less, as far as they are not over the largest overlap.
pub proof fn templates_are_multiples_of_the_smallest_overlap(min: u32, max: u32, height: u32)
    requires
        min * 8 <= u32::MAX,
    ensures
        crate::matching::template_heights(min, max).contains(height) <==> height <= max && {
            ||| height == min
            ||| height == min * 2
            ||| height == min * 3
            ||| height == min * 5
            ||| height == min * 8
            ||| height == 12 && min < 12
        },
{
    let heights = crate::matching::multiples(min, max);
    let least = crate::matching::larger(crate::matching::MIN_TEMPLATE_HEIGHT, min);
    let all = if least <= max && !heights.contains(least) {
        heights.push(least)
    } else {
        heights
    };
    let sorted = crate::math::sorted(all);
    all.lemma_sort_by_ensures(crate::math::ascending());
    all.to_multiset_ensures();
    sorted.to_multiset_ensures();
    assert(all.to_multiset().count(height) == sorted.to_multiset().count(height));
    assert(all.contains(height) <==> sorted.contains(height));
    lemma_and_height(Seq::empty(), crate::matching::multiple(min, 1), max, height);
    let one = crate::matching::and_height(Seq::empty(), crate::matching::multiple(min, 1), max);
    lemma_and_height(one, crate::matching::multiple(min, 2), max, height);
    let two = crate::matching::and_height(one, crate::matching::multiple(min, 2), max);
    lemma_and_height(two, crate::matching::multiple(min, 3), max, height);
    let three = crate::matching::and_height(two, crate::matching::multiple(min, 3), max);
    lemma_and_height(three, crate::matching::multiple(min, 5), max, height);
    let five = crate::matching::and_height(three, crate::matching::multiple(min, 5), max);
    lemma_and_height(five, crate::matching::multiple(min, 8), max, height);
    lemma_push(heights, least, height);
    lemma_and_height(Seq::empty(), crate::matching::multiple(min, 1), max, least);
    lemma_and_height(one, crate::matching::multiple(min, 2), max, least);
    lemma_and_height(two, crate::matching::multiple(min, 3), max, least);
    lemma_and_height(three, crate::matching::multiple(min, 5), max, least);
    lemma_and_height(five, crate::matching::multiple(min, 8), max, least);
    assert(!Seq::<u32>::empty().contains(height));
}

/// What a list holds after one more value.
proof fn lemma_push(list: Seq<u32>, value: u32, other: u32)
    ensures
        list.push(value).contains(other) <==> list.contains(other) || other == value,
{
    let longer = list.push(value);
    if list.contains(other) {
        let i = choose|i: int| 0 <= i < list.len() && list[i] == other;
        assert(longer[i] == other);
    }
    if other == value {
        assert(longer[list.len() as int] == other);
    }
    if longer.contains(other) {
        let i = choose|i: int| 0 <= i < longer.len() && longer[i] == other;
        if i < list.len() {
            assert(list[i] == other);
        }
    }
}

/// What a list of heights holds after one more height.
proof fn lemma_and_height(heights: Seq<u32>, height: u32, max: u32, other: u32)
    ensures
        crate::matching::and_height(heights, height, max).contains(other) <==> heights.contains(
            other,
        ) || (height <= max && other == height),
{
    lemma_push(heights, height, other);
}

/// Without a prediction a template is tried at each row at which it makes an overlap within the
/// bounds, and at no other.
pub proof fn the_full_search_tries_every_overlap(
    template_height: u32,
    min_overlap: u32,
    max_overlap: u32,
    row: int,
)
    requires
        0 <= row,
    ensures
        ({
            let rows = crate::matching::search_rows(template_height, min_overlap, max_overlap, None);
            (rows matches Some((from, to)) && from <= row <= to) <==> min_overlap <= row
                + template_height <= max_overlap
        }),
{
}

/// A search around a prediction still tries every overlap within the bounds that is off by
/// twenty-four rows at most, or by fifteen hundredths of the prediction.
pub proof fn a_prediction_leaves_room(
    template_height: u32,
    min_overlap: u32,
    max_overlap: u32,
    expected: u32,
    row: int,
)
    requires
        0 <= row,
        min_overlap <= row + template_height <= max_overlap,
        -24 <= row + template_height - expected <= 24 || -15 * expected <= 100 * (row
            + template_height - expected) <= 15 * expected,
    ensures
        ({
            let rows = crate::matching::search_rows(
                template_height,
                min_overlap,
                max_overlap,
                Some(expected),
            );
            rows matches Some((from, to)) && from <= row <= to
        }),
{
}

/// How far a row is from another one.
pub open spec fn rows_apart(a: int, b: int) -> int {
    if a >= b {
        a - b
    } else {
        b - a
    }
}

/// A search around a prediction goes no further than twenty-four rows, or fifteen hundredths of the
/// prediction and a half, from the row within the bounds that comes nearest to it.
pub proof fn a_prediction_narrows_the_search(
    template_height: u32,
    min_overlap: u32,
    max_overlap: u32,
    expected: u32,
    nearest: int,
    row: int,
)
    requires
        0 <= nearest,
        min_overlap <= nearest + template_height <= max_overlap,
        forall|other: int|
            0 <= other && min_overlap <= other + template_height <= max_overlap ==> rows_apart(
                nearest + template_height,
                expected as int,
            ) <= #[trigger] rows_apart(other + template_height, expected as int),
        ({
            let rows = crate::matching::search_rows(
                template_height,
                min_overlap,
                max_overlap,
                Some(expected),
            );
            rows matches Some((from, to)) && from <= row <= to
        }),
    ensures
        rows_apart(row, nearest) <= 24 || 100 * rows_apart(row, nearest) <= 15 * expected + 50,
{
    let first = crate::matching::minus(min_overlap as int, template_height as int);
    let last = max_overlap - template_height;
    let wanted = crate::matching::minus(expected as int, template_height as int);
    let predicted = if wanted < first {
        first
    } else if wanted > last {
        last
    } else {
        wanted
    };
    assert(rows_apart(nearest + template_height, expected as int) <= rows_apart(
        predicted + template_height,
        expected as int,
    ));
    assert(nearest == predicted);
}

/// The alternative of a match is the best score that lies four rows or more away from it.
pub proof fn alternatives_are_the_best_away(scores: Seq<u32>, row: int, n: nat)
    requires
        n <= scores.len(),
    ensures
        forall|i: int|
            0 <= i < n && (i <= row - 4 || i >= row + 4) ==> crate::matching::best_away(
                scores,
                row,
                n,
            ) is Some && #[trigger] scores[i] <= crate::matching::best_away(scores, row, n)->0,
        crate::matching::best_away(scores, row, n) matches Some(best) ==> exists|i: int|
            0 <= i < n && (i <= row - 4 || i >= row + 4) && #[trigger] scores[i] == best,
    decreases n,
{
    if n > 0 {
        alternatives_are_the_best_away(scores, row, (n - 1) as nat);
        let last = scores[n - 1];
        let before = crate::matching::best_away(scores, row, (n - 1) as nat);
        if before is Some {
            let i = choose|i: int|
                0 <= i < n - 1 && (i <= row - 4 || i >= row + 4) && #[trigger] scores[i]
                    == before->0;
            assert(scores[i] == before->0);
        }
    }
}

/// The candidate of a template stands at the first row of the best score: its overlap reaches from
/// the top of the map to the end of the template there.
pub proof fn candidates_stand_at_the_best_row(
    scores: Seq<u32>,
    start: u32,
    template_height: u32,
    min_overlap: u32,
    max_overlap: u32,
    row: int,
)
    requires
        0 <= row < scores.len(),
        forall|i: int| 0 <= i < row ==> #[trigger] scores[i] < scores[row],
        forall|i: int| row <= i < scores.len() ==> #[trigger] scores[i] <= scores[row],
    ensures
        ({
            let found = crate::matching::candidate_given(
                scores,
                start,
                template_height,
                min_overlap,
                max_overlap,
            );
            let overlap = start + row + template_height;
            &&& found is Some <==> min_overlap <= overlap <= max_overlap
            &&& found matches Some(c) ==> {
                &&& c.overlap == overlap
                &&& c.score == scores[row]
                &&& c.template_height == template_height
                &&& c.alternative_score == crate::matching::best_away(scores, row, scores.len())
            }
        }),
{
    crate::matching::peak_row_is_first_maximum(scores, scores.len());
    let peak = crate::matching::peak_row(scores, scores.len());
    if peak < row {
        assert(scores[peak] < scores[row]);
        assert(scores[row] <= scores[peak]);
    } else if row < peak {
        assert(scores[row] < scores[peak]);
        assert(scores[peak] <= scores[row]);
    }
    crate::matching::refinement_keeps_the_peak(scores);
}

/// What is kept of a list is what is there, and nothing else.
pub proof fn what_is_found_is_kept<T>(found: Seq<Option<T>>, value: T)
    ensures
        crate::vision::kept(found).contains(value) <==> found.contains(Some(value)),
    decreases found.len(),
{
    if found.len() > 0 {
        let before = found.drop_last();
        what_is_found_is_kept(before, value);
        let kept = crate::vision::kept(found);
        let less = crate::vision::kept(before);
        if before.contains(Some(value)) {
            let i = choose|i: int| 0 <= i < before.len() && before[i] == Some(value);
            assert(found[i] == Some(value));
        }
        if found.contains(Some(value)) {
            let i = choose|i: int| 0 <= i < found.len() && found[i] == Some(value);
            if i < before.len() {
                assert(before[i] == Some(value));
                let k = choose|k: int| 0 <= k < less.len() && less[k] == value;
                assert(kept[k] == value);
            } else {
                assert(kept[less.len() as int] == value);
            }
        }
        if kept.contains(value) {
            let k = choose|k: int| 0 <= k < kept.len() && kept[k] == value;
            if k < less.len() {
                assert(less[k] == value);
            } else {
                assert(found[found.len() - 1] == Some(value));
            }
        }
    }
}

/// Each template height that finds a place makes a candidate, and there is no other candidate.
pub proof fn every_template_height_has_its_candidate(
    previous: Raster,
    current: Raster,
    heights: Seq<u32>,
    min_overlap: u32,
    max_overlap: u32,
    expected: Option<u32>,
    c: MatchCandidate,
)
    ensures
        crate::matching::candidates(
            previous,
            current,
            heights,
            min_overlap,
            max_overlap,
            expected,
        ).contains(c) <==> exists|i: int|
            0 <= i < heights.len() && crate::matching::candidate(
                previous,
                current,
                #[trigger] heights[i],
                min_overlap,
                max_overlap,
                expected,
            ) == Some(c),
{
    let all = Seq::new(
        heights.len(),
        |i: int|
            crate::matching::candidate(
                previous,
                current,
                heights[i],
                min_overlap,
                max_overlap,
                expected,
            ),
    );
    what_is_found_is_kept(all, c);
    if all.contains(Some(c)) {
        let i = choose|i: int| 0 <= i < all.len() && all[i] == Some(c);
        let height = heights[i];
    }
    if exists|i: int|
        0 <= i < heights.len() && crate::matching::candidate(
            previous,
            current,
            #[trigger] heights[i],
            min_overlap,
            max_overlap,
            expected,
        ) == Some(c) {
        let i = choose|i: int|
            0 <= i < heights.len() && crate::matching::candidate(
                previous,
                current,
                #[trigger] heights[i],
                min_overlap,
                max_overlap,
                expected,
            ) == Some(c);
        assert(all[i] == Some(c));
    }
}

/// A candidate looks at the bottom of the first map and at the top of the second: what stands above
/// the template in the first, and below the largest overlap in the second, has no say.
pub proof fn candidates_compare_bottom_with_top(
    previous: Raster,
    other_previous: Raster,
    current: Raster,
    other_current: Raster,
    template_height: u32,
    min_overlap: u32,
    max_overlap: u32,
    expected: Option<u32>,
)
    requires
        previous.is_gray(),
        other_previous.is_gray(),
        current.is_gray(),
        other_current.is_gray(),
        template_height <= previous.height,
        template_height <= other_previous.height,
        max_overlap <= current.height,
        max_overlap <= other_current.height,
        previous.width == other_previous.width,
        current.width == other_current.width,
        previous.data.skip((previous.height - template_height) * previous.width)
            == other_previous.data.skip(
            (other_previous.height - template_height) * other_previous.width,
        ),
        current.data.take(max_overlap * current.width) == other_current.data.take(
            max_overlap * other_current.width,
        ),
    ensures
        crate::matching::candidate(
            previous,
            current,
            template_height,
            min_overlap,
            max_overlap,
            expected,
        ) == crate::matching::candidate(
            other_previous,
            other_current,
            template_height,
            min_overlap,
            max_overlap,
            expected,
        ),
{
    if let Some(rows) = crate::matching::search_rows(
        template_height,
        min_overlap,
        max_overlap,
        expected,
    ) {
        let th = template_height as int;
        let w = previous.width as int;
        let v = current.width as int;
        let high = rows.1 - rows.0 + th;
        crate::matching::prediction_only_narrows_the_search(
            template_height,
            min_overlap,
            max_overlap,
            expected,
        );
        crate::raster::lemma_row_span(previous.height - th, th, previous.height as int, w);
        crate::raster::lemma_row_span(
            other_previous.height - th,
            th,
            other_previous.height as int,
            w,
        );
        crate::raster::lemma_row_span(rows.0 as int, high, current.height as int, v);
        crate::raster::lemma_row_span(rows.0 as int, high, other_current.height as int, v);
        crate::raster::lemma_row_span(rows.0 as int, high, max_overlap as int, v);
        crate::raster::lemma_row_span(0, max_overlap as int, current.height as int, v);
        crate::raster::lemma_row_span(0, max_overlap as int, other_current.height as int, v);
        let a = previous.gray_rows(previous.height - th, th).data;
        let b = other_previous.gray_rows(other_previous.height - th, th).data;
        assert(a =~= previous.data.skip((previous.height - th) * w));
        assert(b =~= other_previous.data.skip((other_previous.height - th) * w));
        let c = current.gray_rows(rows.0 as int, high).data;
        let d = other_current.gray_rows(rows.0 as int, high).data;
        let top = current.data.take(max_overlap * current.width);
        assert(c =~= top.subrange(rows.0 * v, (rows.0 + high) * v));
        assert(d =~= top.subrange(rows.0 * v, (rows.0 + high) * v));
    }
}

/// The template is the bottom of the first map. It is compared at each row that is searched of the
/// second one, from `from` to `to`, and the scores make the candidate. A template that is higher
/// than the map, or that fits nowhere, makes none.
pub proof fn the_bottom_is_searched_in_the_next_map(
    previous: Raster,
    current: Raster,
    template_height: u32,
    min_overlap: u32,
    max_overlap: u32,
    expected: Option<u32>,
)
    requires
        previous.width == current.width,
    ensures
        ({
            let w = current.width;
            let found = crate::matching::candidate(
                previous,
                current,
                template_height,
                min_overlap,
                max_overlap,
                expected,
            );
            let rows = crate::matching::search_rows(
                template_height,
                min_overlap,
                max_overlap,
                expected,
            );
            &&& template_height > previous.height || rows is None ==> found is None
            &&& template_height <= previous.height ==> (rows matches Some((from, to)) ==> found
                == crate::matching::candidate_given(
                crate::vision::correlation_scores(
                    w,
                    (to - from + template_height) as nat,
                    current.data.subrange((from * w) as int, (to + template_height) * w),
                    template_height as nat,
                    previous.data.subrange(
                        (previous.height - template_height) * w,
                        (previous.height * w) as int,
                    ),
                ),
                from,
                template_height,
                min_overlap,
                max_overlap,
            ))
        }),
{
    if let Some((from, to)) = crate::matching::search_rows(
        template_height,
        min_overlap,
        max_overlap,
        expected,
    ) {
        assert(from + (to - from + template_height) == to + template_height);
        assert(previous.height - template_height + template_height == previous.height);
    }
}

/// The number of a score.
pub open spec fn score_of(c: MatchCandidate) -> int {
    crate::score::number(c.score) as int
}

/// A place that can be trusted among others: it scores three quarters, is ahead of the rest of its
/// own search by five thousandths, and of every candidate more than four rows away by two.
pub open spec fn stands_out(candidates: Seq<MatchCandidate>, c: MatchCandidate) -> bool {
    let one = crate::score::one() as int;
    &&& 4 * score_of(c) >= 3 * one
    &&& c.alternative_score matches Some(other) ==> 200 * (score_of(c) - crate::score::number(other))
        >= one
    &&& forall|i: int|
        0 <= i < candidates.len() && ((#[trigger] candidates[i]).overlap > c.overlap + 4
            || candidates[i].overlap + 4 < c.overlap) ==> 500 * (score_of(c) - score_of(
            candidates[i],
        )) >= one
}

/// What is trusted is one of the candidates, no other is better, and it stands out.
pub proof fn trust_is_earned(candidates: Seq<MatchCandidate>)
    ensures
        crate::matching::trusted(candidates) matches Some(best) ==> {
            &&& candidates.contains(best)
            &&& stands_out(candidates, best)
            &&& forall|i: int|
                0 <= i < candidates.len() ==> score_of(#[trigger] candidates[i]) <= score_of(best)
            &&& forall|i: int|
                0 <= i < candidates.len() && candidates[i].score == best.score ==> (
                #[trigger] candidates[i]).template_height <= best.template_height
        },
{
    if let Some(best) = crate::matching::trusted(candidates) {
        crate::matching::best_index_is_best(candidates, candidates.len());
        let at = crate::matching::best_index(candidates, candidates.len());
        assert(candidates[at] == best);
        assert forall|i: int| 0 <= i < candidates.len() implies score_of(#[trigger] candidates[i])
            <= score_of(best) by {
            if candidates[i].score < best.score {
                crate::score::encodings_order_numbers(candidates[i].score, best.score);
            }
        }
        assert forall|i: int|
            0 <= i < candidates.len() && ((#[trigger] candidates[i]).overlap > best.overlap + 4
                || candidates[i].overlap + 4 < best.overlap) implies 500 * (score_of(best)
            - score_of(candidates[i])) >= crate::score::one() by {
            assert(crate::score::leads(best.score, candidates[i].score, 2));
        }
    }
}

/// A candidate that is better than all others is trusted where it stands out, and only there.
pub proof fn the_best_candidate_is_trusted_if_it_stands_out(
    candidates: Seq<MatchCandidate>,
    at: int,
)
    requires
        0 <= at < candidates.len(),
        forall|i: int|
            0 <= i < candidates.len() && i != at ==> (#[trigger] candidates[i]).score
                < candidates[at].score || (candidates[i].score == candidates[at].score
                && candidates[i].template_height < candidates[at].template_height),
    ensures
        crate::matching::trusted(candidates) == if stands_out(candidates, candidates[at]) {
            Some(candidates[at])
        } else {
            None
        },
{
    crate::matching::best_index_is_best(candidates, candidates.len());
    let best = crate::matching::best_index(candidates, candidates.len());
    assert(best == at) by {
        if best != at {
            let c = candidates[best];
            assert(!crate::matching::is_better(candidates[at], candidates[best]));
        }
    }
    let c = candidates[at];
    if crate::matching::is_rivalled(candidates, c) {
        let i = choose|i: int|
            {
                &&& 0 <= i < candidates.len()
                &&& (#[trigger] candidates[i]).overlap - c.overlap
                    > crate::matching::ALTERNATIVE_GAP || c.overlap - candidates[i].overlap
                    > crate::matching::ALTERNATIVE_GAP
                &&& !crate::score::leads(c.score, candidates[i].score, 2)
            };
        assert(candidates[i].overlap > c.overlap + 4 || candidates[i].overlap + 4 < c.overlap);
    } else {
        assert forall|i: int|
            0 <= i < candidates.len() && ((#[trigger] candidates[i]).overlap > c.overlap + 4
                || candidates[i].overlap + 4 < c.overlap) implies 500 * (score_of(c) - score_of(
            candidates[i],
        )) >= crate::score::one() by {
            assert(crate::score::leads(c.score, candidates[i].score, 2));
        }
    }
}

} // verus!
