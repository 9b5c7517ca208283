//! Where the bottom of one feature map shows again in the next: templates of several heights are
//! cut from the bottom of the first and searched in the second.

use crate::math::sort_ascending;
use crate::raster::{GrayMap, Raster};
use crate::score::{leads_by, reaches_three_quarters};
use crate::vision::{filter_map_parallel, match_template};
use vstd::prelude::*;

verus! {

/// Templates are not lower than this where the overlap allows.
pub const MIN_TEMPLATE_HEIGHT: u32 = 12;

/// The search around a prediction goes at least this far.
pub const PREDICTED_SEARCH_MIN_RADIUS: u32 = 24;

/// Rows closer than this to a match belong to it.
pub const ALTERNATIVE_GAP: u32 = 4;

/// The best place that one template height finds.
#[derive(Clone, Copy, Debug, PartialEq, Eq)]
pub struct MatchCandidate {
    /// How many rows of the two frames coincide.
    pub overlap: u32,
    /// The score of the place, encoded.
    pub score: u32,
    /// The best score away from the place, encoded, where there is a place away from it.
    pub alternative_score: Option<u32>,
    /// How high the template is.
    pub template_height: u32,
}

impl MatchCandidate {
    /// The scores are finite and not negative.
    pub open spec fn wf(self) -> bool {
        &&& self.score < 0x7f80_0000
        &&& self.alternative_score matches Some(other) ==> other < 0x7f80_0000
    }
}

/// A multiple of a height, cut off at the largest number.
pub open spec fn multiple(height: u32, factor: nat) -> u32 {
    if height * factor < u32::MAX {
        (height * factor) as u32
    } else {
        u32::MAX
    }
}

/// The heights so far, and one more where it is not over the maximum.
pub open spec fn and_height(heights: Seq<u32>, height: u32, max: u32) -> Seq<u32> {
    if height <= max {
        heights.push(height)
    } else {
        heights
    }
}

/// The multiples of the smallest overlap that are not over the largest.
pub open spec fn multiples(min: u32, max: u32) -> Seq<u32> {
    let one = and_height(Seq::empty(), multiple(min, 1), max);
    let two = and_height(one, multiple(min, 2), max);
    let three = and_height(two, multiple(min, 3), max);
    let five = and_height(three, multiple(min, 5), max);
    and_height(five, multiple(min, 8), max)
}

/// The template heights, smallest first: the multiples, and the least useful height.
pub open spec fn template_heights(min: u32, max: u32) -> Seq<u32> {
    let heights = multiples(min, max);
    let least = larger(MIN_TEMPLATE_HEIGHT, min);
    crate::math::sorted(
        if least <= max && !heights.contains(least) {
            heights.push(least)
        } else {
            heights
        },
    )
}

/// The difference, or zero.
pub open spec fn minus(a: int, b: int) -> int {
    if a < b {
        0
    } else {
        a - b
    }
}

/// The rows of the next map at which the template may start: all that make an overlap within
/// bounds, or those around a predicted overlap.
pub open spec fn search_rows(
    template_height: u32,
    min_overlap: u32,
    max_overlap: u32,
    expected: Option<u32>,
) -> Option<(u32, u32)> {
    let first = minus(min_overlap as int, template_height as int);
    let last = max_overlap - template_height;
    if first > last {
        None
    } else {
        match expected {
            None => Some((first as u32, last as u32)),
            Some(expected) => {
                let wanted = minus(expected as int, template_height as int);
                let predicted = if wanted < first {
                    first
                } else if wanted > last {
                    last
                } else {
                    wanted
                };
                let share = (expected * 15 + 50) / 100;
                let radius = if share < PREDICTED_SEARCH_MIN_RADIUS {
                    PREDICTED_SEARCH_MIN_RADIUS as int
                } else {
                    share
                };
                let from = if predicted - radius < first {
                    first
                } else {
                    predicted - radius
                };
                let to = if predicted + radius > last {
                    last
                } else {
                    predicted + radius
                };
                Some((from as u32, to as u32))
            },
        }
    }
}

/// The first of the largest among the first `n` scores.
pub open spec fn peak_row(scores: Seq<u32>, n: nat) -> int
    decreases n,
{
    if n <= 1 {
        0
    } else {
        let before = peak_row(scores, (n - 1) as nat);
        if scores[n - 1] > scores[before] {
            n - 1
        } else {
            before
        }
    }
}

/// The larger of two numbers.
pub open spec fn larger(a: u32, b: u32) -> u32 {
    if a < b {
        b
    } else {
        a
    }
}

/// The score at a row, or that of a better neighbour where it has one on both sides.
pub open spec fn refined_score(scores: Seq<u32>, row: int) -> u32 {
    if row == 0 || row + 1 >= scores.len() {
        scores[row]
    } else {
        larger(larger(scores[row - 1], scores[row]), scores[row + 1])
    }
}

/// The rows are at least the gap apart.
pub open spec fn is_away(a: int, b: int) -> bool {
    a - b >= ALTERNATIVE_GAP || b - a >= ALTERNATIVE_GAP
}

/// The largest of the first `n` scores that lie away from a row.
pub open spec fn best_away(scores: Seq<u32>, row: int, n: nat) -> Option<u32>
    decreases n,
{
    if n == 0 {
        None
    } else {
        let before = best_away(scores, row, (n - 1) as nat);
        if !is_away(n - 1, row) {
            before
        } else {
            match before {
                None => Some(scores[n - 1]),
                Some(other) => Some(larger(other, scores[n - 1])),
            }
        }
    }
}

/// The candidate that the scores of one template make. They start at row `start`.
pub open spec fn candidate_given(
    scores: Seq<u32>,
    start: u32,
    template_height: u32,
    min_overlap: u32,
    max_overlap: u32,
) -> Option<MatchCandidate> {
    let row = peak_row(scores, scores.len());
    let overlap = start + row + template_height;
    if min_overlap <= overlap <= max_overlap {
        Some(
            MatchCandidate {
                overlap: overlap as u32,
                score: refined_score(scores, row),
                alternative_score: best_away(scores, row, scores.len()),
                template_height,
            },
        )
    } else {
        None
    }
}

/// The scores of the template from the bottom of one map in the given rows of the next.
pub open spec fn template_scores(
    previous: Raster,
    current: Raster,
    template_height: u32,
    rows: (u32, u32),
) -> Seq<u32> {
    let region_height = rows.1 - rows.0 + template_height;
    let template = previous.gray_rows(previous.height - template_height, template_height as int);
    let region = current.gray_rows(rows.0 as int, region_height);
    crate::vision::correlation_scores(
        current.width,
        region_height as nat,
        region.data,
        template_height as nat,
        template.data,
    )
}

/// The candidate of one template height.
pub open spec fn candidate(
    previous: Raster,
    current: Raster,
    template_height: u32,
    min_overlap: u32,
    max_overlap: u32,
    expected: Option<u32>,
) -> Option<MatchCandidate> {
    if template_height > previous.height {
        None
    } else {
        match search_rows(template_height, min_overlap, max_overlap, expected) {
            None => None,
            Some(rows) => candidate_given(
                template_scores(previous, current, template_height, rows),
                rows.0,
                template_height,
                min_overlap,
                max_overlap,
            ),
        }
    }
}

/// The candidates of all template heights.
pub open spec fn candidates(
    previous: Raster,
    current: Raster,
    heights: Seq<u32>,
    min_overlap: u32,
    max_overlap: u32,
    expected: Option<u32>,
) -> Seq<MatchCandidate> {
    crate::vision::kept(
        Seq::new(
            heights.len(),
            |i: int|
                candidate(previous, current, heights[i], min_overlap, max_overlap, expected),
        ),
    )
}

/// A better score, or the same with a higher template.
pub open spec fn is_better(a: MatchCandidate, b: MatchCandidate) -> bool {
    a.score > b.score || (a.score == b.score && a.template_height > b.template_height)
}

/// The first of the best among the first `n` candidates.
pub open spec fn best_index(candidates: Seq<MatchCandidate>, n: nat) -> int
    decreases n,
{
    if n <= 1 {
        0
    } else {
        let before = best_index(candidates, (n - 1) as nat);
        if is_better(candidates[n - 1], candidates[before]) {
            n - 1
        } else {
            before
        }
    }
}

/// Another candidate, more than the gap away, comes within two thousandths of the best.
pub open spec fn is_rivalled(candidates: Seq<MatchCandidate>, best: MatchCandidate) -> bool {
    exists|i: int|
        {
            &&& 0 <= i < candidates.len()
            &&& (#[trigger] candidates[i]).overlap - best.overlap > ALTERNATIVE_GAP || best.overlap
                - candidates[i].overlap > ALTERNATIVE_GAP
            &&& !crate::score::leads(best.score, candidates[i].score, 2)
        }
}

/// The candidate to trust: the best one, where it scores three quarters, leads the alternatives of
/// its template by five thousandths, and has no rival.
pub open spec fn trusted(candidates: Seq<MatchCandidate>) -> Option<MatchCandidate> {
    if candidates.len() == 0 {
        None
    } else {
        let best = candidates[best_index(candidates, candidates.len())];
        if !crate::score::reaches(best.score, 750) {
            None
        } else if best.alternative_score matches Some(other) && !crate::score::leads(
            best.score,
            other,
            5,
        ) {
            None
        } else if is_rivalled(candidates, best) {
            None
        } else {
            Some(best)
        }
    }
}

/// No score is larger than the one at the peak row, and none before it is as large.
pub proof fn peak_row_is_first_maximum(scores: Seq<u32>, n: nat)
    requires
        0 < n <= scores.len(),
    ensures
        0 <= peak_row(scores, n) < n,
        forall|i: int| 0 <= i < n ==> #[trigger] scores[i] <= scores[peak_row(scores, n)],
        forall|i: int|
            0 <= i < peak_row(scores, n) ==> #[trigger] scores[i] < scores[peak_row(scores, n)],
    decreases n,
{
    if n > 1 {
        peak_row_is_first_maximum(scores, (n - 1) as nat);
    }
}

/// No candidate is better than the best one.
pub proof fn best_index_is_best(candidates: Seq<MatchCandidate>, n: nat)
    requires
        0 < n <= candidates.len(),
    ensures
        0 <= best_index(candidates, n) < n,
        forall|i: int|
            0 <= i < n ==> !is_better(
                #[trigger] candidates[i],
                candidates[best_index(candidates, n)],
            ),
    decreases n,
{
    if n > 1 {
        best_index_is_best(candidates, (n - 1) as nat);
    }
}

/// Searching around a prediction looks at no row that the full search leaves out, and always at
/// one.
pub proof fn prediction_only_narrows_the_search(
    template_height: u32,
    min_overlap: u32,
    max_overlap: u32,
    expected: Option<u32>,
)
    ensures
        search_rows(template_height, min_overlap, max_overlap, expected) is Some <==> search_rows(
            template_height,
            min_overlap,
            max_overlap,
            None,
        ) is Some,
        search_rows(template_height, min_overlap, max_overlap, expected) matches Some(rows) ==> {
            let all = search_rows(template_height, min_overlap, max_overlap, None)->0;
            &&& all.0 <= rows.0 <= rows.1 <= all.1
            &&& rows.1 + template_height <= max_overlap
            &&& min_overlap <= rows.0 + template_height
        },
{
}

/// The score at the peak is the refined one: no neighbour is better.
pub proof fn refinement_keeps_the_peak(scores: Seq<u32>)
    requires
        0 < scores.len(),
    ensures
        refined_score(scores, peak_row(scores, scores.len())) == scores[peak_row(
            scores,
            scores.len(),
        )],
{
    peak_row_is_first_maximum(scores, scores.len());
}

/// Templates are tried from the smallest up, none lower than the smallest overlap or higher than
/// the largest, and there is one wherever the smallest overlap is not over the largest.
pub proof fn template_heights_fit(min: u32, max: u32)
    ensures
        forall|i: int|
            0 <= i < template_heights(min, max).len() ==> min <= #[trigger] template_heights(
                min,
                max,
            )[i] <= max,
        forall|i: int, j: int|
            0 <= i <= j < template_heights(min, max).len() ==> #[trigger] template_heights(
                min,
                max,
            )[i] <= #[trigger] template_heights(min, max)[j],
        min <= max ==> template_heights(min, max).len() > 0,
{
    let heights = multiples(min, max);
    let least = larger(MIN_TEMPLATE_HEIGHT, min);
    let all = if least <= max && !heights.contains(least) {
        heights.push(least)
    } else {
        heights
    };
    let sorted = crate::math::sorted(all);
    all.lemma_sort_by_ensures(crate::math::ascending());
    all.to_multiset_ensures();
    sorted.to_multiset_ensures();
    assert forall|i: int| 0 <= i < sorted.len() implies min <= #[trigger] sorted[i] <= max by {
        assert(sorted.to_multiset().count(sorted[i]) > 0) by {
            assert(sorted.contains(sorted[i]));
        }
        assert(all.contains(sorted[i]));
        let j = choose|j: int| 0 <= j < all.len() && all[j] == sorted[i];
        assert(min <= all[j] <= max);
    }
    assert(sorted.len() == all.len());
    assert forall|i: int, j: int| 0 <= i <= j < sorted.len() implies #[trigger] sorted[i]
        <= #[trigger] sorted[j] by {
        if i < j {
            assert(crate::math::ascending()(sorted[i], sorted[j]));
        }
    }
}

/// Keeps a height that is not over the maximum.
fn add_height(heights: &mut Vec<u32>, min: u32, factor: u32, max: u32)
    ensures
        final(heights)@ == and_height(old(heights)@, multiple(min, factor as nat), max),
{
    assert(min * factor <= 0xffff_ffff * 0xffff_ffff) by (nonlinear_arith)
        requires
            0 <= min <= 0xffff_ffff,
            0 <= factor <= 0xffff_ffff,
    ;
    let product: u64 = min as u64 * factor as u64;
    let height: u32 = if product < u32::MAX as u64 {
        product as u32
    } else {
        u32::MAX
    };
    if height <= max {
        heights.push(height);
    }
}

/// The template heights to try between the smallest and the largest overlap, smallest first.
pub fn candidate_template_heights(min_overlap: u32, max_overlap: u32) -> (heights: Vec<u32>)
    ensures
        heights@ == template_heights(min_overlap, max_overlap),
{
    let mut heights: Vec<u32> = Vec::new();
    add_height(&mut heights, min_overlap, 1, max_overlap);
    add_height(&mut heights, min_overlap, 2, max_overlap);
    add_height(&mut heights, min_overlap, 3, max_overlap);
    add_height(&mut heights, min_overlap, 5, max_overlap);
    add_height(&mut heights, min_overlap, 8, max_overlap);
    let least: u32 = if MIN_TEMPLATE_HEIGHT < min_overlap {
        min_overlap
    } else {
        MIN_TEMPLATE_HEIGHT
    };
    if least <= max_overlap && !contains_height(&heights, least) {
        heights.push(least);
    }
    sort_ascending(&heights)
}

/// Whether a height is among the heights.
fn contains_height(heights: &Vec<u32>, height: u32) -> (found: bool)
    ensures
        found == heights@.contains(height),
{
    let mut i: usize = 0;
    while i < heights.len()
        invariant
            i <= heights@.len(),
            forall|j: int| 0 <= j < i ==> heights@[j] != height,
        decreases heights.len() - i,
    {
        if heights[i] == height {
            return true;
        }
        i += 1;
    }
    false
}

/// The rows at which a template may start, first and last.
pub fn match_search_range(
    template_height: u32,
    min_overlap: u32,
    max_overlap: u32,
    expected_overlap: Option<u32>,
) -> (rows: Option<(u32, u32)>)
    ensures
        rows == search_rows(template_height, min_overlap, max_overlap, expected_overlap),
{
    let min_y: u32 = min_overlap.saturating_sub(template_height);
    let max_y: u32 = max_overlap.checked_sub(template_height)?;
    if min_y > max_y {
        return None;
    }
    match expected_overlap {
        None => Some((min_y, max_y)),
        Some(expected) => {
            let wanted: u32 = expected.saturating_sub(template_height);
            let predicted: u32 = if wanted < min_y {
                min_y
            } else if wanted > max_y {
                max_y
            } else {
                wanted
            };
            let share: u64 = (expected as u64 * 15 + 50) / 100;
            let radius: u32 = if share < PREDICTED_SEARCH_MIN_RADIUS as u64 {
                PREDICTED_SEARCH_MIN_RADIUS
            } else {
                share as u32
            };
            let low: u32 = predicted.saturating_sub(radius);
            let high: u64 = predicted as u64 + radius as u64;
            let from: u32 = if low < min_y {
                min_y
            } else {
                low
            };
            let to: u32 = if high > max_y as u64 {
                max_y
            } else {
                high as u32
            };
            Some((from, to))
        },
    }
}

/// The row of the best score.
pub fn find_peak(scores: &Vec<u32>) -> (row: usize)
    requires
        0 < scores@.len(),
    ensures
        row == peak_row(scores@, scores@.len()),
        row < scores@.len(),
{
    let mut best: usize = 0;
    let mut i: usize = 1;
    while i < scores.len()
        invariant
            1 <= i <= scores@.len(),
            best < i,
            best == peak_row(scores@, i as nat),
        decreases scores.len() - i,
    {
        if scores[i] > scores[best] {
            best = i;
        }
        i += 1;
    }
    best
}

/// The score of a match, looking at its neighbours as well.
pub fn refine_template_match(scores: &Vec<u32>, best_y: usize) -> (score: u32)
    requires
        best_y < scores@.len(),
    ensures
        score == refined_score(scores@, best_y as int),
{
    let score: u32 = scores[best_y];
    if best_y == 0 || best_y >= scores.len() - 1 {
        return score;
    }
    let above: u32 = scores[best_y - 1];
    let below: u32 = scores[best_y + 1];
    let upper: u32 = if above < score {
        score
    } else {
        above
    };
    if upper < below {
        below
    } else {
        upper
    }
}

/// The best score away from a match.
pub fn best_alternative_score(scores: &Vec<u32>, best_y: usize) -> (best: Option<u32>)
    requires
        best_y < scores@.len(),
    ensures
        best == best_away(scores@, best_y as int, scores@.len()),
        crate::vision::are_scores(scores@) ==> (best matches Some(score) ==> score < 0x7f80_0000),
{
    let mut best: Option<u32> = None;
    let mut i: usize = 0;
    while i < scores.len()
        invariant
            i <= scores@.len(),
            best_y < scores@.len(),
            best == best_away(scores@, best_y as int, i as nat),
            crate::vision::are_scores(scores@) ==> (best matches Some(score) ==> score
                < 0x7f80_0000),
        decreases scores.len() - i,
    {
        let gap: usize = if i < best_y {
            best_y - i
        } else {
            i - best_y
        };
        if gap >= ALTERNATIVE_GAP as usize {
            let score: u32 = scores[i];
            best = match best {
                None => Some(score),
                Some(other) => Some(
                    if other < score {
                        score
                    } else {
                        other
                    },
                ),
            };
        }
        i += 1;
    }
    best
}

/// The candidate that the scores of one template make, the first of them for row
/// `search_start_y`.
pub fn candidate_from_scores(
    scores: &Vec<u32>,
    search_start_y: u32,
    template_height: u32,
    min_overlap: u32,
    max_overlap: u32,
) -> (found: Option<MatchCandidate>)
    requires
        0 < scores@.len(),
        search_start_y + scores@.len() - 1 + template_height <= u32::MAX,
    ensures
        found == candidate_given(
            scores@,
            search_start_y,
            template_height,
            min_overlap,
            max_overlap,
        ),
        crate::vision::are_scores(scores@) ==> (found matches Some(c) ==> c.wf()),
{
    let best_y: usize = find_peak(scores);
    proof {
        refinement_keeps_the_peak(scores@);
    }
    let overlap: u32 = search_start_y + best_y as u32 + template_height;
    if overlap < min_overlap || overlap > max_overlap {
        return None;
    }
    let score: u32 = refine_template_match(scores, best_y);
    let alternative_score: Option<u32> = best_alternative_score(scores, best_y);
    Some(MatchCandidate { overlap, score, alternative_score, template_height })
}

/// Searches the bottom rows of one map in the next.
pub fn match_overlap_candidate(
    previous: &GrayMap,
    current: &GrayMap,
    template_height: u32,
    min_overlap: u32,
    max_overlap: u32,
    expected_overlap: Option<u32>,
) -> (found: Option<MatchCandidate>)
    requires
        previous.wf(),
        current.wf(),
        0 < previous.width,
        previous.width == current.width,
        0 < template_height,
        max_overlap <= current.height,
    ensures
        found == candidate(
            previous@,
            current@,
            template_height,
            min_overlap,
            max_overlap,
            expected_overlap,
        ),
        found matches Some(c) ==> c.wf() && min_overlap <= c.overlap <= max_overlap,
{
    let template_top: u32 = previous.height.checked_sub(template_height)?;
    let rows: (u32, u32) = match_search_range(
        template_height,
        min_overlap,
        max_overlap,
        expected_overlap,
    )?;
    proof {
        prediction_only_narrows_the_search(
            template_height,
            min_overlap,
            max_overlap,
            expected_overlap,
        );
    }
    let template: GrayMap = previous.crop_rows(template_top, template_height);
    let region: GrayMap = current.crop_rows(rows.0, rows.1 - rows.0 + template_height);
    let scores: Vec<u32> = match_template(&region, &template);
    assert(scores@ == template_scores(previous@, current@, template_height, rows));
    candidate_from_scores(&scores, rows.0, template_height, min_overlap, max_overlap)
}

/// Searches with each template height, in parallel.
pub fn collect_match_candidates(
    previous_map: &GrayMap,
    current_map: &GrayMap,
    template_heights: &Vec<u32>,
    min_overlap: u32,
    max_overlap: u32,
    expected_overlap: Option<u32>,
) -> (found: Vec<MatchCandidate>)
    requires
        previous_map.wf(),
        current_map.wf(),
        0 < previous_map.width,
        previous_map.width == current_map.width,
        forall|i: int| 0 <= i < template_heights@.len() ==> 0 < #[trigger] template_heights@[i],
        max_overlap <= current_map.height,
    ensures
        found@ == candidates(
            previous_map@,
            current_map@,
            template_heights@,
            min_overlap,
            max_overlap,
            expected_overlap,
        ),
        forall|i: int|
            0 <= i < found@.len() ==> (#[trigger] found@[i]).wf() && min_overlap
                <= found@[i].overlap <= max_overlap,
{
    let search = |height: u32| -> (c: Option<MatchCandidate>)
        requires
            previous_map.wf(),
            current_map.wf(),
            0 < previous_map.width,
            previous_map.width == current_map.width,
            0 < height,
            max_overlap <= current_map.height,
        ensures
            c == candidate(
                previous_map@,
                current_map@,
                height,
                min_overlap,
                max_overlap,
                expected_overlap,
            ),
            c matches Some(m) ==> m.wf() && min_overlap <= m.overlap <= max_overlap,
        {
            match_overlap_candidate(
                previous_map,
                current_map,
                height,
                min_overlap,
                max_overlap,
                expected_overlap,
            )
        };
    let found: Vec<MatchCandidate> = filter_map_parallel(template_heights, search);
    proof {
        let all = choose|all: Seq<Option<MatchCandidate>>|
            #[trigger] crate::vision::finds(search, template_heights@, all) && found@
                == crate::vision::kept(all);
        assert(all =~= Seq::new(
            template_heights@.len(),
            |i: int|
                candidate(
                    previous_map@,
                    current_map@,
                    template_heights@[i],
                    min_overlap,
                    max_overlap,
                    expected_overlap,
                ),
        ));
        let fits = |c: MatchCandidate| c.wf() && min_overlap <= c.overlap <= max_overlap;
        crate::vision::lemma_kept(all, fits);
        assert forall|i: int| 0 <= i < found@.len() implies (#[trigger] found@[i]).wf()
            && min_overlap <= found@[i].overlap <= max_overlap by {
            assert(fits(found@[i]));
        }
    }
    found
}

/// The candidate to trust, if there is one.
pub fn select_match_candidate(primary_candidates: &Vec<MatchCandidate>) -> (best: Option<
    MatchCandidate,
>)
    requires
        forall|i: int|
            0 <= i < primary_candidates@.len() ==> (#[trigger] primary_candidates@[i]).wf(),
    ensures
        best == trusted(primary_candidates@),
        best matches Some(b) ==> primary_candidates@.contains(b),
{
    if primary_candidates.len() == 0 {
        return None;
    }
    let mut index: usize = 0;
    let mut i: usize = 1;
    while i < primary_candidates.len()
        invariant
            1 <= i <= primary_candidates@.len(),
            index < i,
            index == best_index(primary_candidates@, i as nat),
        decreases primary_candidates.len() - i,
    {
        let candidate: &MatchCandidate = &primary_candidates[i];
        let best: &MatchCandidate = &primary_candidates[index];
        if candidate.score > best.score || (candidate.score == best.score
            && candidate.template_height > best.template_height) {
            index = i;
        }
        i += 1;
    }
    let best: MatchCandidate = primary_candidates[index];
    assert(best == primary_candidates@[index as int] && best.wf());
    if !reaches_three_quarters(best.score) {
        return None;
    }
    if let Some(other) = best.alternative_score {
        if !leads_by(best.score, other, 5) {
            return None;
        }
    }
    let mut k: usize = 0;
    while k < primary_candidates.len()
        invariant
            k <= primary_candidates@.len(),
            crate::score::reaches(best.score, 750),
            best.score < 0x7f80_0000,
            primary_candidates@.len() > 0,
            best == primary_candidates@[best_index(
                primary_candidates@,
                primary_candidates@.len(),
            )],
            best.alternative_score matches Some(other) ==> crate::score::leads(
                best.score,
                other,
                5,
            ),
            forall|j: int|
                0 <= j < k ==> {
                    ||| crate::score::leads(best.score, (#[trigger] primary_candidates@[j]).score, 2)
                    ||| -ALTERNATIVE_GAP <= primary_candidates@[j].overlap - best.overlap
                        <= ALTERNATIVE_GAP
                },
        decreases primary_candidates.len() - k,
    {
        let other: &MatchCandidate = &primary_candidates[k];
        let gap: u32 = if other.overlap < best.overlap {
            best.overlap - other.overlap
        } else {
            other.overlap - best.overlap
        };
        if gap > ALTERNATIVE_GAP && !leads_by(best.score, other.score, 2) {
            assert(is_rivalled(primary_candidates@, best));
            return None;
        }
        k += 1;
    }
    Some(best)
}

} // verus!
