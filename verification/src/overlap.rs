//! How many rows two consecutive frames share: a match is searched on feature maps, and committed
//! only where the frames themselves bear it out.

use crate::band::{crop_gray_to_band, HorizontalBand};
use crate::difference::{sampled_difference, sampled_feature_difference, SAMPLE_STEP};
use crate::edges::{crop_static_edges, detect_pair_edges, StaticEdges};
use crate::features::to_feature_map_from_gray;
use crate::matching::{
    candidate_template_heights, collect_match_candidates, select_match_candidate, MatchCandidate,
    MIN_TEMPLATE_HEIGHT,
};
use crate::math::count_samples;
use crate::raster::{Frame, GrayMap, Raster};
use crate::text_band::find_text_body_band;
use crate::vision::{grayscale, resize_nearest};
use vstd::prelude::*;

verus! {

/// Maps higher than this are matched on a smaller copy first.
pub const COARSE_SEARCH_MAX_HEIGHT: u32 = 180;

/// The strip at the right that a scroll bar may take is no wider than this.
pub const SCROLLBAR_MARGIN_MAX: u32 = 24;

/// A quotient, rounded to the nearest number, up from a half.
pub open spec fn rounded(num: int, den: int) -> int {
    (2 * num + den) / (2 * den)
}

/// The overlap that smaller copies of two maps predict. The copies have one row for each `scale`
/// rows of the maps, which are `height` rows high.
pub open spec fn small_prediction(
    previous: Raster,
    current: Raster,
    scale: u32,
    height: u32,
    min_overlap: u32,
    max_overlap: u32,
) -> Option<u32> {
    let min = crate::math::sample_count(min_overlap as int, scale as int) as u32;
    let max = max_overlap / scale;
    if min > max {
        None
    } else {
        let heights = crate::matching::template_heights(min, max);
        let found = crate::matching::candidates(previous, current, heights, min, max, None);
        match crate::matching::trusted(found) {
            None => None,
            Some(best) => Some(
                rounded(best.overlap * height, previous.height as int) as u32,
            ),
        }
    }
}

/// The overlap that smaller copies of two high maps predict. For low maps there is no prediction.
pub open spec fn prediction(
    previous: Raster,
    current: Raster,
    min_overlap: u32,
    max_overlap: u32,
) -> Option<u32> {
    let scale = crate::math::sample_count(
        previous.height as int,
        COARSE_SEARCH_MAX_HEIGHT as int,
    );
    if scale <= 1 {
        None
    } else {
        let width = crate::math::sample_count(previous.width as int, scale) as nat;
        let height = crate::math::sample_count(previous.height as int, scale) as nat;
        small_prediction(
            crate::vision::resized(previous, width, height),
            crate::vision::resized(current, width, height),
            scale as u32,
            previous.height as u32,
            min_overlap,
            max_overlap,
        )
    }
}

/// In the overlapping rows, the features differ by more than a quarter of their strength.
pub open spec fn features_disagree(previous: Raster, current: Raster, overlap: u32) -> bool {
    let n = crate::math::sample_count(previous.width as int, 2) as nat;
    let m = crate::math::sample_count(overlap as int, 2) as nat;
    let sums = crate::difference::gray_block(
        previous,
        current,
        previous.height - overlap,
        0,
        2,
        n,
        m,
    );
    sums.1 == 0 || sums.0 * 4 > sums.1
}

/// In the overlapping rows of a band, the sampled channels differ by more than fifteen on average.
pub open spec fn pixels_disagree(
    previous: Raster,
    current: Raster,
    overlap: u32,
    band: Option<HorizontalBand>,
) -> bool {
    let columns = crate::band::clipped_or_all(band, previous.width as u32);
    crate::difference::mean_is_above(
        previous,
        current,
        previous.height - overlap,
        0,
        columns.left as int,
        columns.right as int,
        overlap as int,
        15,
    )
}

/// The overlap that the candidates and the frames agree on.
pub open spec fn overlap_given(
    found: Seq<MatchCandidate>,
    previous: Raster,
    current: Raster,
    previous_map: Raster,
    current_map: Raster,
    has_feature_maps: bool,
    band: Option<HorizontalBand>,
) -> Option<u32> {
    match crate::matching::trusted(found) {
        None => None,
        Some(best) => if has_feature_maps && features_disagree(
            previous_map,
            current_map,
            best.overlap,
        ) {
            None
        } else if pixels_disagree(previous, current, best.overlap, band) {
            None
        } else {
            Some(best.overlap)
        },
    }
}

/// The overlap that two maps show: near the predicted one, or else anywhere.
pub open spec fn overlap_from_maps(
    previous: Raster,
    current: Raster,
    previous_map: Raster,
    current_map: Raster,
    has_feature_maps: bool,
    min_overlap: u32,
    max_overlap: u32,
    band: Option<HorizontalBand>,
) -> Option<u32> {
    let heights = crate::matching::template_heights(min_overlap, max_overlap);
    let predicted = prediction(previous_map, current_map, min_overlap, max_overlap);
    let near = crate::matching::candidates(
        previous_map,
        current_map,
        heights,
        min_overlap,
        max_overlap,
        predicted,
    );
    let anywhere = crate::matching::candidates(
        previous_map,
        current_map,
        heights,
        min_overlap,
        max_overlap,
        None,
    );
    match overlap_given(
        near,
        previous,
        current,
        previous_map,
        current_map,
        has_feature_maps,
        band,
    ) {
        Some(overlap) => Some(overlap),
        None => overlap_given(
            anywhere,
            previous,
            current,
            previous_map,
            current_map,
            has_feature_maps,
            band,
        ),
    }
}

/// The smallest overlap to believe: a twentieth of the height, and a template.
pub open spec fn smallest_overlap(height: nat) -> u32 {
    crate::matching::larger((height * 5 / 100) as u32, MIN_TEMPLATE_HEIGHT)
}

/// The largest overlap to believe: all but five thousandths of the height.
pub open spec fn largest_overlap(height: nat) -> u32 {
    (height * 995 / 1000) as u32
}

/// The columns that no scroll bar takes.
pub open spec fn content_band(width: nat) -> Option<HorizontalBand> {
    let margin = width * 12 / 1000;
    let right = width - if margin < SCROLLBAR_MARGIN_MAX {
        margin as int
    } else {
        SCROLLBAR_MARGIN_MAX as int
    };
    if right > 0 {
        Some(HorizontalBand { left: 0, right: right as u32 })
    } else {
        None
    }
}

/// The text columns of a page, where they can be found.
pub open spec fn page_band(gray: Raster) -> Option<HorizontalBand> {
    if crate::vision::level_is_computable(crate::text_band::text_focus(gray).data) {
        crate::text_band::text_band(gray)
    } else {
        None
    }
}

/// The text columns of a frame, where they can be found.
pub open spec fn text_columns(frame: Raster) -> Option<HorizontalBand> {
    page_band(crate::vision::grayscale_of(frame))
}

/// The columns to match first: those of the text, short of a scroll bar, or all content.
pub open spec fn focus_band(text: Option<HorizontalBand>, width: nat) -> Option<HorizontalBand> {
    let content = content_band(width);
    match (text, content) {
        (Some(text), Some(all)) => {
            let right = if text.right < all.right {
                text.right
            } else {
                all.right
            };
            if text.left < right {
                Some(HorizontalBand { left: text.left, right })
            } else {
                content
            }
        },
        _ => content,
    }
}

/// The overlap that two gray images show in a band: on feature maps, or without features on the
/// gray values in `plain`.
pub open spec fn overlap_in_band(
    previous: Raster,
    current: Raster,
    previous_gray: Raster,
    current_gray: Raster,
    band: Option<HorizontalBand>,
    plain: Option<HorizontalBand>,
) -> Option<u32> {
    let width = previous.width as u32;
    let min = smallest_overlap(previous.height);
    let max = largest_overlap(previous.height);
    if crate::features::has_gradient(crate::features::band_magnitudes(previous_gray, band, width))
        && crate::features::has_gradient(
        crate::features::band_magnitudes(current_gray, band, width),
    ) {
        overlap_from_maps(
            previous,
            current,
            crate::features::feature_map(previous_gray, band, width),
            crate::features::feature_map(current_gray, band, width),
            true,
            min,
            max,
            band,
        )
    } else {
        overlap_from_maps(
            previous,
            current,
            crate::band::banded(previous_gray, plain, width),
            crate::band::banded(current_gray, plain, width),
            false,
            min,
            max,
            band,
        )
    }
}

/// The overlap of two frames of one size, given the text columns of the first.
pub open spec fn overlap_given_text(
    previous: Raster,
    current: Raster,
    text: Option<HorizontalBand>,
) -> Option<u32> {
    let previous_gray = crate::vision::grayscale_of(previous);
    let current_gray = crate::vision::grayscale_of(current);
    let focus = focus_band(text, previous.width);
    let content = content_band(previous.width);
    match overlap_in_band(previous, current, previous_gray, current_gray, focus, None) {
        Some(overlap) => Some(overlap),
        None => if content == focus {
            None
        } else {
            overlap_in_band(previous, current, previous_gray, current_gray, content, content)
        },
    }
}

/// The overlap of two frames without static edges.
pub open spec fn moving_overlap(previous: Raster, current: Raster) -> Option<u32> {
    if previous.width != current.width || previous.height != current.height {
        None
    } else if previous.width == 0 || smallest_overlap(previous.height) > largest_overlap(
        previous.height,
    ) {
        None
    } else {
        overlap_given_text(previous, current, text_columns(previous))
    }
}

/// The overlap of two frames.
pub open spec fn vertical_overlap(previous: Raster, current: Raster) -> Option<u32> {
    if previous.width != current.width || previous.height != current.height {
        None
    } else {
        let edges = crate::edges::static_edges(seq![previous, current]);
        moving_overlap(
            crate::edges::without_edges(previous, edges),
            crate::edges::without_edges(current, edges),
        )
    }
}

/// Rounding a quotient that is not over a whole number does not lead over it.
proof fn lemma_rounded(part: int, whole: int, height: int)
    requires
        0 <= part <= whole,
        0 < whole,
        0 <= height,
    ensures
        0 <= rounded(part * height, whole) <= height,
{
    let num = 2 * (part * height) + whole;
    let den = 2 * whole;
    assert(0 <= part * height <= whole * height) by (nonlinear_arith)
        requires
            0 <= part <= whole,
            0 <= height,
    ;
    vstd::arithmetic::div_mod::lemma_fundamental_div_mod(num, den);
    let q = num / den;
    assert(q <= height) by (nonlinear_arith)
        requires
            num == den * q + num % den,
            0 <= num % den,
            num <= 2 * (whole * height) + whole,
            den == 2 * whole,
            0 < whole,
    ;
    vstd::arithmetic::div_mod::lemma_div_pos_is_pos(num, den);
}

/// Dividing by the scale leaves no more rows than the smaller copy has.
proof fn lemma_scaled(height: int, max: int, scale: int)
    requires
        0 <= max <= height,
        0 < scale,
    ensures
        0 <= max / scale <= crate::math::sample_count(height, scale),
{
    vstd::arithmetic::div_mod::lemma_div_is_ordered(max, height + scale - 1, scale);
    vstd::arithmetic::div_mod::lemma_div_pos_is_pos(max, scale);
}

/// Predicts an overlap from smaller copies of two maps.
pub fn predict_from_small_maps(
    previous_small: &GrayMap,
    current_small: &GrayMap,
    scale: u32,
    height: u32,
    min_overlap: u32,
    max_overlap: u32,
) -> (predicted: Option<u32>)
    requires
        previous_small.wf(),
        current_small.wf(),
        0 < previous_small.width,
        previous_small.width == current_small.width,
        0 < scale,
        max_overlap / scale <= previous_small.height,
        max_overlap / scale <= current_small.height,
        0 < min_overlap,
    ensures
        predicted == small_prediction(
            previous_small@,
            current_small@,
            scale,
            height,
            min_overlap,
            max_overlap,
        ),
        predicted matches Some(p) ==> p <= height,
{
    proof {
        crate::math::lemma_samples(min_overlap as int, scale as int);
    }
    let min: u32 = count_samples(min_overlap, scale);
    let max: u32 = max_overlap / scale;
    if min > max {
        return None;
    }
    let heights: Vec<u32> = candidate_template_heights(min, max);
    proof {
        crate::matching::template_heights_fit(min, max);
    }
    let found: Vec<MatchCandidate> = collect_match_candidates(
        previous_small,
        current_small,
        &heights,
        min,
        max,
        None,
    );
    let best: MatchCandidate = select_match_candidate(&found)?;
    proof {
        lemma_rounded(best.overlap as int, previous_small.height as int, height as int);
    }
    assert(best.overlap * height <= 0xffff_ffff * 0xffff_ffff) by (nonlinear_arith)
        requires
            0 <= best.overlap <= 0xffff_ffff,
            0 <= height <= 0xffff_ffff,
    ;
    let whole: u128 = previous_small.height as u128;
    Some(((2 * (best.overlap as u128 * height as u128) + whole) / (2 * whole)) as u32)
}

/// Predicts the overlap of two high maps from smaller copies of them.
pub fn coarse_overlap_prediction(
    previous_map: &GrayMap,
    current_map: &GrayMap,
    min_overlap: u32,
    max_overlap: u32,
) -> (predicted: Option<u32>)
    requires
        previous_map.wf(),
        current_map.wf(),
        0 < previous_map.width,
        previous_map.width == current_map.width,
        previous_map.height == current_map.height,
        0 < min_overlap,
        max_overlap <= previous_map.height,
    ensures
        predicted == prediction(previous_map@, current_map@, min_overlap, max_overlap),
        predicted matches Some(p) ==> p <= previous_map.height,
{
    let scale: u32 = count_samples(previous_map.height, COARSE_SEARCH_MAX_HEIGHT);
    if scale <= 1 {
        return None;
    }
    proof {
        crate::math::lemma_samples(previous_map.height as int, 180);
        crate::math::lemma_samples(previous_map.width as int, scale as int);
        crate::math::lemma_samples(previous_map.height as int, scale as int);
        lemma_scaled(previous_map.height as int, max_overlap as int, scale as int);
    }
    let target_width: u32 = count_samples(previous_map.width, scale);
    let target_height: u32 = count_samples(previous_map.height, scale);
    let previous_small: GrayMap = resize_nearest(previous_map, target_width, target_height);
    let current_small: GrayMap = resize_nearest(current_map, target_width, target_height);
    predict_from_small_maps(
        &previous_small,
        &current_small,
        scale,
        previous_map.height,
        min_overlap,
        max_overlap,
    )
}

/// Checks the trusted candidate against the maps and the frames.
pub fn select_overlap(
    primary_candidates: &Vec<MatchCandidate>,
    previous: &Frame,
    current: &Frame,
    previous_map: &GrayMap,
    current_map: &GrayMap,
    has_feature_maps: bool,
    focus_band: Option<HorizontalBand>,
) -> (overlap: Option<u32>)
    requires
        previous.wf(),
        current.wf(),
        previous_map.wf(),
        current_map.wf(),
        crate::band::clipped_or_all(focus_band, previous.width).right <= current.width,
        previous.height == current.height,
        (previous_map.width, previous_map.height) == (current_map.width, current_map.height),
        previous_map.height == previous.height,
        forall|i: int|
            0 <= i < primary_candidates@.len() ==> (#[trigger] primary_candidates@[i]).wf()
                && primary_candidates@[i].overlap <= previous.height,
    ensures
        overlap == overlap_given(
            primary_candidates@,
            previous@,
            current@,
            previous_map@,
            current_map@,
            has_feature_maps,
            focus_band,
        ),
{
    let best: MatchCandidate = select_match_candidate(primary_candidates)?;
    if has_feature_maps && sampled_feature_difference(
        previous_map,
        current_map,
        previous_map.height - best.overlap,
        0,
        best.overlap,
        SAMPLE_STEP,
    ).exceeds(1, 4) {
        return None;
    }
    if sampled_difference(
        previous,
        current,
        previous.height - best.overlap,
        0,
        best.overlap,
        SAMPLE_STEP,
        focus_band,
    ).exceeds(45, 1) {
        return None;
    }
    Some(best.overlap)
}

/// Finds the overlap that two maps show.
pub fn detect_overlap_from_maps(
    previous: &Frame,
    current: &Frame,
    previous_map: &GrayMap,
    current_map: &GrayMap,
    has_feature_maps: bool,
    min_overlap: u32,
    max_overlap: u32,
    focus_band: Option<HorizontalBand>,
) -> (overlap: Option<u32>)
    requires
        previous.wf(),
        current.wf(),
        previous_map.wf(),
        current_map.wf(),
        crate::band::clipped_or_all(focus_band, previous.width).right <= current.width,
        previous.height == current.height,
        (previous_map.width, previous_map.height) == (current_map.width, current_map.height),
        previous_map.height == previous.height,
        0 < previous_map.width,
        0 < min_overlap,
        max_overlap <= previous.height,
    ensures
        overlap == overlap_from_maps(
            previous@,
            current@,
            previous_map@,
            current_map@,
            has_feature_maps,
            min_overlap,
            max_overlap,
            focus_band,
        ),
        overlap matches Some(o) ==> min_overlap <= o <= max_overlap && !pixels_disagree(
            previous@,
            current@,
            o,
            focus_band,
        ),
{
    let heights: Vec<u32> = candidate_template_heights(min_overlap, max_overlap);
    proof {
        crate::matching::template_heights_fit(min_overlap, max_overlap);
    }
    let predicted: Option<u32> = coarse_overlap_prediction(
        previous_map,
        current_map,
        min_overlap,
        max_overlap,
    );
    let near: Vec<MatchCandidate> = collect_match_candidates(
        previous_map,
        current_map,
        &heights,
        min_overlap,
        max_overlap,
        predicted,
    );
    proof {
        lemma_trusted(near@);
    }
    let overlap: Option<u32> = select_overlap(
        &near,
        previous,
        current,
        previous_map,
        current_map,
        has_feature_maps,
        focus_band,
    );
    if overlap.is_some() || predicted.is_none() {
        return overlap;
    }
    let anywhere: Vec<MatchCandidate> = collect_match_candidates(
        previous_map,
        current_map,
        &heights,
        min_overlap,
        max_overlap,
        None,
    );
    proof {
        lemma_trusted(anywhere@);
    }
    select_overlap(
        &anywhere,
        previous,
        current,
        previous_map,
        current_map,
        has_feature_maps,
        focus_band,
    )
}

/// The prediction loses no overlap: where none is found, the search of the full range finds none
/// either. What is found lies within the bounds.
pub proof fn prediction_loses_no_overlap(
    previous: Raster,
    current: Raster,
    previous_map: Raster,
    current_map: Raster,
    has_feature_maps: bool,
    min_overlap: u32,
    max_overlap: u32,
    band: Option<HorizontalBand>,
)
    ensures
        ({
            let anywhere = crate::matching::candidates(
                previous_map,
                current_map,
                crate::matching::template_heights(min_overlap, max_overlap),
                min_overlap,
                max_overlap,
                None,
            );
            let full = overlap_given(
                anywhere,
                previous,
                current,
                previous_map,
                current_map,
                has_feature_maps,
                band,
            );
            let found = overlap_from_maps(
                previous,
                current,
                previous_map,
                current_map,
                has_feature_maps,
                min_overlap,
                max_overlap,
                band,
            );
            &&& found is None ==> full is None
            &&& found matches Some(overlap) ==> min_overlap <= overlap <= max_overlap
        }),
{
    let heights = crate::matching::template_heights(min_overlap, max_overlap);
    let predicted = prediction(previous_map, current_map, min_overlap, max_overlap);
    lemma_bounded(previous_map, current_map, heights, min_overlap, max_overlap, predicted);
    lemma_bounded(previous_map, current_map, heights, min_overlap, max_overlap, None);
}

/// The candidates of one search, near an expected overlap or anywhere, make this one to be trusted.
pub open spec fn is_trusted_overlap(
    previous_map: Raster,
    current_map: Raster,
    min_overlap: u32,
    max_overlap: u32,
    expected: Option<u32>,
    overlap: u32,
) -> bool {
    let heights = crate::matching::template_heights(min_overlap, max_overlap);
    let found = crate::matching::candidates(
        previous_map,
        current_map,
        heights,
        min_overlap,
        max_overlap,
        expected,
    );
    crate::matching::trusted(found) matches Some(best) && best.overlap == overlap
}

/// An overlap that has passed every check: it lies within the bounds, a search trusts it, and
/// neither the features nor the pixels speak against it.
pub open spec fn passes_checks(
    previous: Raster,
    current: Raster,
    previous_map: Raster,
    current_map: Raster,
    has_feature_maps: bool,
    min_overlap: u32,
    max_overlap: u32,
    band: Option<HorizontalBand>,
    overlap: u32,
) -> bool {
    let predicted = prediction(previous_map, current_map, min_overlap, max_overlap);
    &&& min_overlap <= overlap <= max_overlap
    &&& {
        ||| is_trusted_overlap(
            previous_map,
            current_map,
            min_overlap,
            max_overlap,
            predicted,
            overlap,
        )
        ||| is_trusted_overlap(previous_map, current_map, min_overlap, max_overlap, None, overlap)
    }
    &&& has_feature_maps ==> !features_disagree(previous_map, current_map, overlap)
    &&& !pixels_disagree(previous, current, overlap, band)
}

/// No overlap is found in two maps that has not passed every check.
pub proof fn found_overlaps_pass_all_checks(
    previous: Raster,
    current: Raster,
    previous_map: Raster,
    current_map: Raster,
    has_feature_maps: bool,
    min_overlap: u32,
    max_overlap: u32,
    band: Option<HorizontalBand>,
)
    ensures
        overlap_from_maps(
            previous,
            current,
            previous_map,
            current_map,
            has_feature_maps,
            min_overlap,
            max_overlap,
            band,
        ) matches Some(overlap) ==> passes_checks(
            previous,
            current,
            previous_map,
            current_map,
            has_feature_maps,
            min_overlap,
            max_overlap,
            band,
            overlap,
        ),
{
    prediction_loses_no_overlap(
        previous,
        current,
        previous_map,
        current_map,
        has_feature_maps,
        min_overlap,
        max_overlap,
        band,
    );
}

/// An overlap that has passed every check in a band: on feature maps where both frames have
/// features there, and on the gray values in `plain` otherwise.
pub open spec fn passes_in_band(
    previous: Raster,
    current: Raster,
    band: Option<HorizontalBand>,
    plain: Option<HorizontalBand>,
    overlap: u32,
) -> bool {
    let previous_gray = crate::vision::grayscale_of(previous);
    let current_gray = crate::vision::grayscale_of(current);
    let width = previous.width as u32;
    let min = smallest_overlap(previous.height);
    let max = largest_overlap(previous.height);
    if crate::features::has_gradient(crate::features::band_magnitudes(previous_gray, band, width))
        && crate::features::has_gradient(
        crate::features::band_magnitudes(current_gray, band, width),
    ) {
        passes_checks(
            previous,
            current,
            crate::features::feature_map(previous_gray, band, width),
            crate::features::feature_map(current_gray, band, width),
            true,
            min,
            max,
            band,
            overlap,
        )
    } else {
        passes_checks(
            previous,
            current,
            crate::band::banded(previous_gray, plain, width),
            crate::band::banded(current_gray, plain, width),
            false,
            min,
            max,
            band,
            overlap,
        )
    }
}

/// What is found in a band has passed every check in it.
proof fn lemma_found_in_band(
    previous: Raster,
    current: Raster,
    band: Option<HorizontalBand>,
    plain: Option<HorizontalBand>,
)
    ensures
        overlap_in_band(
            previous,
            current,
            crate::vision::grayscale_of(previous),
            crate::vision::grayscale_of(current),
            band,
            plain,
        ) matches Some(overlap) ==> passes_in_band(previous, current, band, plain, overlap),
{
    let previous_gray = crate::vision::grayscale_of(previous);
    let current_gray = crate::vision::grayscale_of(current);
    let width = previous.width as u32;
    let min = smallest_overlap(previous.height);
    let max = largest_overlap(previous.height);
    found_overlaps_pass_all_checks(
        previous,
        current,
        crate::features::feature_map(previous_gray, band, width),
        crate::features::feature_map(current_gray, band, width),
        true,
        min,
        max,
        band,
    );
    found_overlaps_pass_all_checks(
        previous,
        current,
        crate::band::banded(previous_gray, plain, width),
        crate::band::banded(current_gray, plain, width),
        false,
        min,
        max,
        band,
    );
}

/// Every overlap that is reported has passed every check, in the columns to match first or in all
/// content of the frames without their static edges.
pub proof fn reported_overlaps_pass_all_checks(previous: Raster, current: Raster)
    ensures
        vertical_overlap(previous, current) matches Some(overlap) ==> {
            let edges = crate::edges::static_edges(seq![previous, current]);
            let before = crate::edges::without_edges(previous, edges);
            let after = crate::edges::without_edges(current, edges);
            let focus = focus_band(text_columns(before), before.width);
            let content = content_band(before.width);
            ||| passes_in_band(before, after, focus, None, overlap)
            ||| passes_in_band(before, after, content, content, overlap)
        },
{
    let edges = crate::edges::static_edges(seq![previous, current]);
    let before = crate::edges::without_edges(previous, edges);
    let after = crate::edges::without_edges(current, edges);
    let content = content_band(before.width);
    lemma_found_in_band(before, after, focus_band(text_columns(before), before.width), None);
    lemma_found_in_band(before, after, content, content);
}

/// Where a band of either frame is flat, the frames are matched on their gray values.
pub proof fn flat_bands_are_matched_on_gray_values(
    previous: Raster,
    current: Raster,
    previous_gray: Raster,
    current_gray: Raster,
    band: Option<HorizontalBand>,
    plain: Option<HorizontalBand>,
)
    requires
        crate::features::is_flat(
            crate::band::banded(previous_gray, band, previous.width as u32),
        ) || crate::features::is_flat(
            crate::band::banded(current_gray, band, previous.width as u32),
        ),
    ensures
        overlap_in_band(previous, current, previous_gray, current_gray, band, plain)
            == overlap_from_maps(
            previous,
            current,
            crate::band::banded(previous_gray, plain, previous.width as u32),
            crate::band::banded(current_gray, plain, previous.width as u32),
            false,
            smallest_overlap(previous.height),
            largest_overlap(previous.height),
            band,
        ),
{
    let width = previous.width as u32;
    if crate::features::is_flat(crate::band::banded(previous_gray, band, width)) {
        crate::features::flat_images_have_no_gradient(
            crate::band::banded(previous_gray, band, width),
        );
    } else {
        crate::features::flat_images_have_no_gradient(
            crate::band::banded(current_gray, band, width),
        );
    }
}

/// A trusted candidate keeps to the bounds of the search.
proof fn lemma_bounded(
    previous_map: Raster,
    current_map: Raster,
    heights: Seq<u32>,
    min_overlap: u32,
    max_overlap: u32,
    expected: Option<u32>,
)
    ensures
        crate::matching::trusted(
            crate::matching::candidates(
                previous_map,
                current_map,
                heights,
                min_overlap,
                max_overlap,
                expected,
            ),
        ) matches Some(best) ==> min_overlap <= best.overlap <= max_overlap,
{
    let all = Seq::new(
        heights.len(),
        |i: int|
            crate::matching::candidate(
                previous_map,
                current_map,
                heights[i],
                min_overlap,
                max_overlap,
                expected,
            ),
    );
    let fits = |c: MatchCandidate| min_overlap <= c.overlap <= max_overlap;
    crate::vision::lemma_kept(all, fits);
    let found = crate::vision::kept(all);
    lemma_trusted(found);
    assert forall|i: int| 0 <= i < found.len() implies min_overlap <= (
    #[trigger] found[i]).overlap <= max_overlap by {
        assert(fits(found[i]));
    }
}

/// A trusted candidate is one of the candidates.
proof fn lemma_trusted(found: Seq<MatchCandidate>)
    ensures
        crate::matching::trusted(found) matches Some(best) ==> exists|i: int|
            0 <= i < found.len() && #[trigger] found[i] == best,
{
    if found.len() > 0 {
        crate::matching::best_index_is_best(found, found.len());
    }
}

/// The smallest and the largest overlap to believe.
fn overlap_bounds(height: u32) -> (bounds: (u32, u32))
    ensures
        bounds == (smallest_overlap(height as nat), largest_overlap(height as nat)),
        12 <= bounds.0,
        bounds.1 <= height,
{
    let share: u32 = (height as u64 * 5 / 100) as u32;
    let min_overlap: u32 = if share < MIN_TEMPLATE_HEIGHT {
        MIN_TEMPLATE_HEIGHT
    } else {
        share
    };
    (min_overlap, (height as u64 * 995 / 1000) as u32)
}

/// Finds the overlap of two frames in a band: on their feature maps, or, where one of them has no
/// feature there, on the gray values of another band.
pub fn detect_overlap_in_band(
    previous: &Frame,
    current: &Frame,
    previous_gray: &GrayMap,
    current_gray: &GrayMap,
    band: Option<HorizontalBand>,
    plain: Option<HorizontalBand>,
) -> (overlap: Option<u32>)
    requires
        previous.wf(),
        current.wf(),
        previous_gray.wf(),
        current_gray.wf(),
        (previous.width, previous.height) == (current.width, current.height),
        (previous_gray.width, previous_gray.height) == (previous.width, previous.height),
        (current_gray.width, current_gray.height) == (previous.width, previous.height),
        0 < previous.width,
    ensures
        overlap == overlap_in_band(
            previous@,
            current@,
            previous_gray@,
            current_gray@,
            band,
            plain,
        ),
        overlap matches Some(o) ==> smallest_overlap(previous@.height) <= o <= largest_overlap(
            previous@.height,
        ) && !pixels_disagree(previous@, current@, o, band),
{
    let (min_overlap, max_overlap): (u32, u32) = overlap_bounds(previous.height);
    let map_previous = || -> (map: (GrayMap, bool))
        requires
            previous_gray.wf(),
        ensures
            map.0.wf(),
            map.0@ == crate::features::feature_map(previous_gray@, band, previous_gray.width),
            map.1 == crate::features::has_gradient(
                crate::features::band_magnitudes(previous_gray@, band, previous_gray.width),
            ),
        {
            to_feature_map_from_gray(previous_gray, band)
        };
    let map_current = || -> (map: (GrayMap, bool))
        requires
            current_gray.wf(),
        ensures
            map.0.wf(),
            map.0@ == crate::features::feature_map(current_gray@, band, current_gray.width),
            map.1 == crate::features::has_gradient(
                crate::features::band_magnitudes(current_gray@, band, current_gray.width),
            ),
        {
            to_feature_map_from_gray(current_gray, band)
        };
    let ((previous_map, previous_has_features), (current_map, current_has_features)) = rayon::join(
        map_previous,
        map_current,
    );
    if previous_has_features && current_has_features {
        detect_overlap_from_maps(
            previous,
            current,
            &previous_map,
            &current_map,
            true,
            min_overlap,
            max_overlap,
            band,
        )
    } else {
        let previous_plain: GrayMap = crop_gray_to_band(previous_gray, plain);
        let current_plain: GrayMap = crop_gray_to_band(current_gray, plain);
        detect_overlap_from_maps(
            previous,
            current,
            &previous_plain,
            &current_plain,
            false,
            min_overlap,
            max_overlap,
            band,
        )
    }
}

/// Keeps the columns that no scroll bar takes.
fn scrollbar_free_band(width: u32) -> (band: Option<HorizontalBand>)
    ensures
        band == content_band(width as nat),
        band matches Some(b) ==> b.left < b.right <= width,
{
    let share: u32 = (width as u64 * 12 / 1000) as u32;
    let margin: u32 = if share < SCROLLBAR_MARGIN_MAX {
        share
    } else {
        SCROLLBAR_MARGIN_MAX
    };
    let right: u32 = width - margin;
    if right > 0 {
        Some(HorizontalBand { left: 0, right })
    } else {
        None
    }
}

/// Picks the columns to match first.
pub fn choose_focus_band(text: Option<HorizontalBand>, width: u32) -> (band: Option<HorizontalBand>)
    ensures
        band == focus_band(text, width as nat),
{
    let content: Option<HorizontalBand> = scrollbar_free_band(width);
    if let (Some(text), Some(all)) = (text, content) {
        let right: u32 = if text.right < all.right {
            text.right
        } else {
            all.right
        };
        if text.left < right {
            return Some(HorizontalBand { left: text.left, right });
        }
    }
    content
}

/// Finds the overlap of two frames of one size, given the text columns of the first.
///
/// The narrow text band avoids what lies beside the document. Where it shows no overlap, all
/// content is tried, so that pictures, tables and other layouts can tell their own.
pub fn detect_overlap_with_text(
    previous: &Frame,
    current: &Frame,
    previous_gray: &GrayMap,
    current_gray: &GrayMap,
    text: Option<HorizontalBand>,
) -> (overlap: Option<u32>)
    requires
        previous.wf(),
        current.wf(),
        previous_gray.wf(),
        current_gray.wf(),
        previous_gray@ == crate::vision::grayscale_of(previous@),
        current_gray@ == crate::vision::grayscale_of(current@),
        (previous.width, previous.height) == (current.width, current.height),
        0 < previous.width,
    ensures
        overlap == overlap_given_text(previous@, current@, text),
        overlap matches Some(o) ==> is_borne_out(previous@, current@, text, o),
{
    let focus: Option<HorizontalBand> = choose_focus_band(text, previous.width);
    let found: Option<u32> = detect_overlap_in_band(
        previous,
        current,
        previous_gray,
        current_gray,
        focus,
        None,
    );
    if found.is_some() {
        return found;
    }
    let content: Option<HorizontalBand> = scrollbar_free_band(previous.width);
    if same_band(content, focus) {
        return None;
    }
    detect_overlap_in_band(previous, current, previous_gray, current_gray, content, content)
}

/// Whether two bands are the same.
fn same_band(a: Option<HorizontalBand>, b: Option<HorizontalBand>) -> (same: bool)
    ensures
        same == (a == b),
{
    match (a, b) {
        (Some(a), Some(b)) => a.left == b.left && a.right == b.right,
        (None, None) => true,
        _ => false,
    }
}

/// An overlap within the bounds for the height, at which the frames agree in one of the bands that
/// are searched: the columns to match first, or all content.
pub open spec fn is_borne_out(
    previous: Raster,
    current: Raster,
    text: Option<HorizontalBand>,
    overlap: u32,
) -> bool {
    &&& smallest_overlap(previous.height) <= overlap <= largest_overlap(previous.height)
    &&& {
        ||| !pixels_disagree(previous, current, overlap, focus_band(text, previous.width))
        ||| !pixels_disagree(previous, current, overlap, content_band(previous.width))
    }
}

/// Finds the overlap of two frames without static edges.
pub fn detect_overlap_inner(previous: &Frame, current: &Frame) -> (overlap: Option<u32>)
    requires
        previous.wf(),
        current.wf(),
    ensures
        overlap == moving_overlap(previous@, current@),
        overlap matches Some(o) ==> is_borne_out(previous@, current@, text_columns(previous@), o),
        overlap matches Some(o) ==> 12 <= o < previous.height,
{
    if previous.width != current.width || previous.height != current.height {
        return None;
    }
    let (min_overlap, max_overlap): (u32, u32) = overlap_bounds(previous.height);
    if previous.width == 0 || min_overlap > max_overlap {
        return None;
    }
    let gray_previous = || -> (gray: GrayMap)
        requires
            previous.wf(),
        ensures
            gray.wf(),
            gray@ == crate::vision::grayscale_of(previous@),
        {
            grayscale(previous)
        };
    let gray_current = || -> (gray: GrayMap)
        requires
            current.wf(),
        ensures
            gray.wf(),
            gray@ == crate::vision::grayscale_of(current@),
        {
            grayscale(current)
        };
    let (previous_gray, current_gray) = rayon::join(gray_previous, gray_current);
    let text: Option<HorizontalBand> = find_text_body_band(&previous_gray);
    detect_overlap_with_text(previous, current, &previous_gray, &current_gray, text)
}

/// Finds the overlap of two consecutive frames: how many rows at the bottom of the first show
/// again at the top of the second, once the rows that never move are cut off.
///
/// An expected overlap is taken for the sake of callers that keep a history, and has no say: after
/// smooth or uneven scrolling a history is stale.
pub fn detect_vertical_overlap(
    previous: &Frame,
    current: &Frame,
    expected_overlap: Option<u32>,
) -> (overlap: Option<u32>)
    requires
        previous.wf(),
        current.wf(),
    ensures
        overlap == vertical_overlap(previous@, current@),
        overlap is Some ==> (previous.width, previous.height) == (current.width, current.height),
        overlap matches Some(o) ==> 12 <= o < previous.height,
        overlap matches Some(o) ==> {
            let edges = crate::edges::static_edges(seq![previous@, current@]);
            let before = crate::edges::without_edges(previous@, edges);
            let after = crate::edges::without_edges(current@, edges);
            is_borne_out(before, after, text_columns(before), o)
        },
{
    if previous.width != current.width || previous.height != current.height {
        return None;
    }
    let edges: StaticEdges = detect_pair_edges(previous, current);
    if edges.top == 0 && edges.bottom == 0 {
        proof {
            lemma_no_edges(previous@);
            lemma_no_edges(current@);
        }
        return detect_overlap_inner(previous, current);
    }
    let previous: Frame = crop_static_edges(previous, edges);
    let current: Frame = crop_static_edges(current, edges);
    detect_overlap_inner(&previous, &current)
}

/// Cutting off nothing leaves a frame as it is.
pub proof fn lemma_no_edges(image: Raster)
    requires
        image.is_rgba(),
    ensures
        crate::edges::without_edges(image, (0, 0)) == image,
{
    assert(crate::edges::without_edges(image, (0, 0)).data =~= image.data);
}

/// A reported overlap is smaller than the height of what is left of the frames without their
/// static edges.
pub proof fn overlap_leaves_new_rows(
    previous: Raster,
    current: Raster,
    text: Option<HorizontalBand>,
    overlap: u32,
)
    requires
        previous.height <= u32::MAX,
        is_borne_out(previous, current, text, overlap),
    ensures
        12 <= overlap < previous.height,
{
}

} // verus!
