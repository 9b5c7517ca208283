//! The overlap of two frames: where it is searched, and when one is reported.

use crate::band::HorizontalBand;
use crate::matching::MatchCandidate;
use crate::raster::Raster;
use vstd::prelude::*;

verus! {

/// A frame without its uppermost and its lowest rows.
pub open spec fn is_inner_part(part: Raster, frame: Raster, above: nat, below: nat) -> bool {
    &&& above + below <= frame.height
    &&& part.width == frame.width
    &&& part.height == frame.height - above - below
    &&& part.data == frame.data.subrange(
        (above * (frame.width * 4)) as int,
        (frame.height - below) * (frame.width * 4),
    )
}

/// A column lies in a band.
pub open spec fn has_column(band: HorizontalBand, x: int) -> bool {
    band.left <= x < band.right
}

/// Both frames have an edge somewhere in a band.
pub open spec fn both_have_features(
    before: Raster,
    after: Raster,
    band: Option<HorizontalBand>,
) -> bool {
    let width = before.width as u32;
    &&& crate::features::has_gradient(
        crate::features::band_magnitudes(crate::vision::grayscale_of(before), band, width),
    )
    &&& crate::features::has_gradient(
        crate::features::band_magnitudes(crate::vision::grayscale_of(after), band, width),
    )
}

/// What a search in one band of two frames finds.
pub open spec fn search_in(
    before: Raster,
    after: Raster,
    band: Option<HorizontalBand>,
    plain: Option<HorizontalBand>,
) -> Option<u32> {
    crate::overlap::overlap_in_band(
        before,
        after,
        crate::vision::grayscale_of(before),
        crate::vision::grayscale_of(after),
        band,
        plain,
    )
}

/// No overlap is given up before both bands were searched. Where none is reported for two frames of
/// one size that are high enough, neither the search in the columns of the text finds one nor the
/// search in all content, both made between the fixed bars of the frames. What the first finds is
/// reported, and where it finds nothing, what the second finds. A single band is searched once: a
/// second search of the same columns could differ only for frames without features.
pub proof fn both_bands_are_searched(
    previous: Raster,
    current: Raster,
    before: Raster,
    after: Raster,
)
    requires
        previous.width == current.width,
        previous.height == current.height,
        ({
            let bars = crate::edges::static_edges(seq![previous, current]);
            &&& is_inner_part(before, previous, bars.0, bars.1)
            &&& is_inner_part(after, current, bars.0, bars.1)
        }),
        0 < previous.width,
        13 <= before.height <= u32::MAX,
    ensures
        ({
            let content = crate::overlap::content_band(before.width);
            let focus = crate::overlap::focus_band(
                crate::overlap::text_columns(before),
                before.width,
            );
            let found = crate::overlap::vertical_overlap(previous, current);
            let first = search_in(before, after, focus, None);
            let second = search_in(before, after, content, content);
            &&& found is None ==> first is None
            &&& found is None && (focus != content || both_have_features(before, after, content))
                ==> second is None
            &&& first is Some ==> found == first
            &&& first is None && focus != content ==> found == second
        }),
{
    overlaps_are_searched_from_thirteen_rows(before.height);
    let bars = crate::edges::static_edges(seq![previous, current]);
    assert(crate::edges::without_edges(previous, bars) == before);
    assert(crate::edges::without_edges(current, bars) == after);
}

/// Whatever columns the text is said to take, they are searched first, and all content is searched
/// where they show no overlap.
pub proof fn any_text_is_searched_before_all_content(
    before: Raster,
    after: Raster,
    text: Option<HorizontalBand>,
)
    ensures
        ({
            let content = crate::overlap::content_band(before.width);
            let focus = crate::overlap::focus_band(text, before.width);
            let found = crate::overlap::overlap_given_text(before, after, text);
            let first = search_in(before, after, focus, None);
            let second = search_in(before, after, content, content);
            &&& first is Some ==> found == first
            &&& first is None && focus != content ==> found == second
            &&& found is None && (focus != content || both_have_features(before, after, content))
                ==> first is None && second is None
        }),
{
}

/// The overlap of two frames is that of their parts between the fixed bars.
#[verifier::spinoff_prover]
#[verifier::rlimit(60)]
pub proof fn fixed_bars_have_no_say(
    previous: Raster,
    current: Raster,
    before: Raster,
    after: Raster,
)
    requires
        previous.width == current.width,
        previous.height == current.height,
        ({
            let bars = crate::edges::static_edges(seq![previous, current]);
            &&& is_inner_part(before, previous, bars.0, bars.1)
            &&& is_inner_part(after, current, bars.0, bars.1)
        }),
    ensures
        crate::overlap::vertical_overlap(previous, current) == crate::overlap::moving_overlap(
            before,
            after,
        ),
{
    let bars = crate::edges::static_edges(seq![previous, current]);
    let inner = crate::edges::without_edges(previous, bars);
    let other = crate::edges::without_edges(current, bars);
    assert(inner == before);
    assert(other == after);
}

/// Frames without fixed bars are searched by the text of the first, if they have one size and are
/// high enough.
pub proof fn the_text_of_the_first_frame_leads_the_search(before: Raster, after: Raster)
    requires
        before.height <= u32::MAX,
    ensures
        crate::overlap::moving_overlap(before, after) == if before.width == after.width
            && before.height == after.height && 0 < before.width && 13 <= before.height {
            crate::overlap::overlap_given_text(
                before,
                after,
                crate::overlap::text_columns(before),
            )
        } else {
            None
        },
{
    overlaps_are_searched_from_thirteen_rows(before.height);
}

/// Frames of different sizes have no overlap, and neither have frames that are lower than thirteen
/// rows between their fixed bars.
pub proof fn some_frames_have_no_overlap(previous: Raster, current: Raster)
    requires
        previous.height <= u32::MAX,
        previous.width != current.width || previous.height != current.height || ({
            let bars = crate::edges::static_edges(seq![previous, current]);
            previous.height - bars.0 - bars.1 < 13
        }),
    ensures
        crate::overlap::vertical_overlap(previous, current) is None,
{
    let frames = seq![previous, current];
    crate::edges::edges_fit_every_frame(frames);
    assert(frames[0] == previous && frames[1] == current);
    let bars = crate::edges::static_edges(frames);
    overlaps_are_searched_from_thirteen_rows((previous.height - bars.0 - bars.1) as nat);
}

/// The smallest overlap is below the largest from thirteen rows on.
pub proof fn overlaps_are_searched_from_thirteen_rows(height: nat)
    requires
        height <= u32::MAX,
    ensures
        crate::overlap::smallest_overlap(height) <= crate::overlap::largest_overlap(height)
            <==> 13 <= height,
{
}

/// An overlap is believed from twelve rows and a twentieth of the height on, up to nine hundred and
/// ninety-five thousandths of the height.
pub proof fn believable_overlaps(height: nat, overlap: u32)
    requires
        height <= u32::MAX,
    ensures
        crate::overlap::smallest_overlap(height) <= overlap <==> 12 <= overlap && height < 20 * (
        overlap + 1),
        overlap <= crate::overlap::largest_overlap(height) <==> 1000 * overlap <= 995 * height,
{
}

/// The content is everything but a strip at the right: twelve thousandths of the width, in whole
/// columns, and never more than twenty-four columns.
pub proof fn the_scroll_bar_is_no_content(width: nat, x: int)
    requires
        0 < width <= u32::MAX,
        0 <= x < width,
    ensures
        crate::overlap::content_band(width) matches Some(content) && (has_column(content, x) <==> (
        x < width - 24 || 1000 * (width - x) > 12 * width)),
{
}

/// The columns matched first are those of the text that are content. Without any such column they
/// are those of the content.
pub proof fn the_focus_is_text_and_content(text: Option<HorizontalBand>, width: nat)
    requires
        0 < width <= u32::MAX,
    ensures
        ({
            let content = crate::overlap::content_band(width);
            let focus = crate::overlap::focus_band(text, width);
            &&& content is Some
            &&& text is None ==> focus == content
            &&& text matches Some(t) ==> {
                &&& (exists|x: int| #[trigger] has_column(t, x) && has_column(content->0, x))
                    ==> focus is Some && forall|x: int| #[trigger]
                    has_column(focus->0, x) <==> has_column(t, x) && has_column(content->0, x)
                &&& (forall|x: int| !(#[trigger] has_column(t, x) && has_column(content->0, x)))
                    ==> focus == content
            }
        }),
{
    let content = crate::overlap::content_band(width);
    if let Some(t) = text {
        if !(exists|x: int| #[trigger] has_column(t, x) && has_column(content->0, x)) {
            assert(!(has_column(t, t.left as int) && has_column(content->0, t.left as int)));
        }
    }
}

/// Clipping a band to a width leaves the columns below that width, and no band where there is none.
pub proof fn clipped_bands_keep_their_columns(band: HorizontalBand, width: u32, x: int)
    requires
        0 <= x,
    ensures
        (crate::band::clipped(Some(band), width) matches Some(kept) && has_column(kept, x)) <==> (
        has_column(band, x) && x < width),
        crate::band::clipped(Some(band), width) is None ==> !(has_column(band, x) && x < width),
        crate::band::clipped_or_all(None, width) == (HorizontalBand { left: 0, right: width }),
        crate::band::clipped(Some(band), width) is None ==> crate::band::clipped_or_all(
            Some(band),
            width,
        ) == (HorizontalBand { left: 0, right: width }),
        crate::band::clipped(Some(band), width) matches Some(kept)
            ==> crate::band::clipped_or_all(Some(band), width) == kept,
{
}

/// Where both frames have features in a band, they are matched on those alone: the gray values of
/// other columns have no say. Where either has none, they are matched on the gray values.
pub proof fn features_come_before_gray_values(
    before: Raster,
    after: Raster,
    band: Option<HorizontalBand>,
    plain: Option<HorizontalBand>,
)
    requires
        before.width <= u32::MAX,
    ensures
        ({
            let width = before.width as u32;
            let gray_before = crate::vision::grayscale_of(before);
            let gray_after = crate::vision::grayscale_of(after);
            let features = both_have_features(before, after, band);
            search_in(before, after, band, plain) == crate::overlap::overlap_from_maps(
                before,
                after,
                if features {
                    crate::features::feature_map(gray_before, band, width)
                } else {
                    crate::band::banded(gray_before, plain, width)
                },
                if features {
                    crate::features::feature_map(gray_after, band, width)
                } else {
                    crate::band::banded(gray_after, plain, width)
                },
                features,
                crate::overlap::smallest_overlap(before.height),
                crate::overlap::largest_overlap(before.height),
                band,
            )
        }),
        both_have_features(before, after, band) ==> search_in(before, after, band, plain)
            == search_in(before, after, band, None),
{
}

/// The overlap that a search around a prediction finds is the one reported. Where it finds none,
/// the whole range is searched, and what that finds is reported.
pub proof fn predictions_come_first(
    previous: Raster,
    current: Raster,
    previous_map: Raster,
    current_map: Raster,
    has_feature_maps: bool,
    min_overlap: u32,
    max_overlap: u32,
    band: Option<HorizontalBand>,
)
    ensures
        ({
            let heights = crate::matching::template_heights(min_overlap, max_overlap);
            let predicted = crate::overlap::prediction(
                previous_map,
                current_map,
                min_overlap,
                max_overlap,
            );
            let given = |expected: Option<u32>|
                crate::overlap::overlap_given(
                    crate::matching::candidates(
                        previous_map,
                        current_map,
                        heights,
                        min_overlap,
                        max_overlap,
                        expected,
                    ),
                    previous,
                    current,
                    previous_map,
                    current_map,
                    has_feature_maps,
                    band,
                );
            let found = crate::overlap::overlap_from_maps(
                previous,
                current,
                previous_map,
                current_map,
                has_feature_maps,
                min_overlap,
                max_overlap,
                band,
            );
            &&& found is None <==> given(predicted) is None && given(None) is None
            &&& given(predicted) is Some ==> found == given(predicted)
            &&& given(predicted) is None ==> found == given(None)
        }),
{
}

/// Two pictures agree in the overlapping rows of a band: every sampled pixel of the bottom of the
/// first is no further than fifteen for each channel from that of the top of the second.
pub open spec fn rows_look_alike(
    previous: Raster,
    current: Raster,
    overlap: u32,
    left: int,
    right: int,
) -> bool {
    forall|i: int, j: int|
        #![trigger left + i * 2, previous.height - overlap + j * 2]
        0 <= i * 2 < right - left && 0 <= j * 2 < overlap ==> crate::laws::pixels::pixels_apart(
            previous,
            current,
            left + i * 2,
            previous.height - overlap + j * 2,
            j * 2,
        ) <= 45
}

/// Two pictures are unlike in the overlapping rows of a band.
pub open spec fn rows_look_different(
    previous: Raster,
    current: Raster,
    overlap: u32,
    left: int,
    right: int,
) -> bool {
    forall|i: int, j: int|
        #![trigger left + i * 2, previous.height - overlap + j * 2]
        0 <= i * 2 < right - left && 0 <= j * 2 < overlap ==> crate::laws::pixels::pixels_apart(
            previous,
            current,
            left + i * 2,
            previous.height - overlap + j * 2,
            j * 2,
        ) > 45
}

/// A trusted candidate is reported where the frames bear it out: not where the pixels of the
/// overlapping rows are more than fifteen apart, nor where the features are, but wherever both
/// agree. Without a trusted candidate nothing is.
pub proof fn trusted_candidates_are_held_to_the_frames(
    found: Seq<MatchCandidate>,
    previous: Raster,
    current: Raster,
    previous_map: Raster,
    current_map: Raster,
    has_feature_maps: bool,
    band: Option<HorizontalBand>,
)
    requires
        previous.width <= u32::MAX,
        0 < previous.width,
    ensures
        ({
            let columns = crate::band::clipped_or_all(band, previous.width as u32);
            let reported = crate::overlap::overlap_given(
                found,
                previous,
                current,
                previous_map,
                current_map,
                has_feature_maps,
                band,
            );
            let trusted = crate::matching::trusted(found);
            &&& trusted is None ==> reported is None
            &&& trusted matches Some(best) ==> {
                let alike = rows_look_alike(
                    previous,
                    current,
                    best.overlap,
                    columns.left as int,
                    columns.right as int,
                );
                let different = rows_look_different(
                    previous,
                    current,
                    best.overlap,
                    columns.left as int,
                    columns.right as int,
                );
                let unlike = has_feature_maps && crate::overlap::features_disagree(
                    previous_map,
                    current_map,
                    best.overlap,
                );
                &&& reported is Some ==> reported == Some(best.overlap)
                &&& unlike || different ==> reported is None
                &&& !unlike && alike && 0 < best.overlap ==> reported == Some(best.overlap)
            }
        }),
{
    if let Some(best) = crate::matching::trusted(found) {
        let columns = crate::band::clipped_or_all(band, previous.width as u32);
        let left = columns.left as int;
        let right = columns.right as int;
        let top = previous.height - best.overlap;
        if rows_look_alike(previous, current, best.overlap, left, right) {
            assert forall|i: int, j: int|
                #![trigger left + i * 2, top + j * 2]
                0 <= i * 2 < right - left && 0 <= j * 2
                    < best.overlap implies crate::laws::pixels::pixels_apart(
                previous,
                current,
                left + i * 2,
                top + j * 2,
                0 + j * 2,
            ) <= 3 * 15nat by {
                let x = left + i * 2;
                let y = previous.height - best.overlap + j * 2;
            }
        }
        if rows_look_different(previous, current, best.overlap, left, right) {
            assert forall|i: int, j: int|
                #![trigger left + i * 2, top + j * 2]
                0 <= i * 2 < right - left && 0 <= j * 2
                    < best.overlap implies crate::laws::pixels::pixels_apart(
                previous,
                current,
                left + i * 2,
                top + j * 2,
                0 + j * 2,
            ) > 3 * 15nat by {
                let x = left + i * 2;
                let y = previous.height - best.overlap + j * 2;
            }
        }
        crate::laws::pixels::means_are_taken_over_every_second_pixel(
            previous,
            current,
            top,
            0,
            left,
            right,
            best.overlap as int,
            15,
        );
    }
}

/// The feature of a map at a pixel.
pub open spec fn feature_at(map: Raster, x: int, y: int) -> u8 {
    map.data[y * map.width + x]
}

/// Features agree over the overlapping rows where they are apart by a quarter of the stronger one
/// at most at every sampled pixel and one of them is there, and disagree where all are further
/// apart or none is there.
pub proof fn features_may_differ_by_a_quarter(previous: Raster, current: Raster, overlap: u32)
    ensures
        (forall|i: int, j: int|
            #![trigger i * 2, previous.height - overlap + j * 2]
            0 <= i * 2 < previous.width && 0 <= j * 2 < overlap ==> {
                let a = feature_at(previous, i * 2, previous.height - overlap + j * 2);
                let b = feature_at(current, i * 2, j * 2);
                4 * crate::laws::pixels::apart(a, b) <= if a < b {
                    b
                } else {
                    a
                }
            }) && (exists|i: int, j: int|
            #![trigger i * 2, previous.height - overlap + j * 2]
            0 <= i * 2 < previous.width && 0 <= j * 2 < overlap && (feature_at(
                previous,
                i * 2,
                previous.height - overlap + j * 2,
            ) > 0 || feature_at(current, i * 2, j * 2) > 0))
            ==> !crate::overlap::features_disagree(previous, current, overlap),
        (forall|i: int, j: int|
            #![trigger i * 2, previous.height - overlap + j * 2]
            0 <= i * 2 < previous.width && 0 <= j * 2 < overlap ==> {
                let a = feature_at(previous, i * 2, previous.height - overlap + j * 2);
                let b = feature_at(current, i * 2, j * 2);
                (a == 0 && b == 0) || 4 * crate::laws::pixels::apart(a, b) > if a < b {
                    b
                } else {
                    a
                }
            }) ==> crate::overlap::features_disagree(previous, current, overlap),
{
    let n = crate::math::sample_count(previous.width as int, 2) as nat;
    let m = crate::math::sample_count(overlap as int, 2) as nat;
    crate::math::lemma_samples(previous.width as int, 2);
    crate::math::lemma_samples(overlap as int, 2);
    let top = previous.height - overlap;
    if forall|i: int, j: int|
        #![trigger i * 2, previous.height - overlap + j * 2]
        0 <= i * 2 < previous.width && 0 <= j * 2 < overlap ==> {
            let a = feature_at(previous, i * 2, previous.height - overlap + j * 2);
            let b = feature_at(current, i * 2, j * 2);
            4 * crate::laws::pixels::apart(a, b) <= if a < b {
                b
            } else {
                a
            }
        } {
        assert forall|i: int, j: int| 0 <= i < n && 0 <= j < m implies #[trigger] are_close(
            previous,
            current,
            i * 2,
            top + j * 2,
            j * 2,
        ) by {
            let x = i * 2;
            let y = previous.height - overlap + j * 2;
        }
        lemma_close_block(previous, current, top, n, m);
    }
    if exists|i: int, j: int|
        #![trigger i * 2, previous.height - overlap + j * 2]
        0 <= i * 2 < previous.width && 0 <= j * 2 < overlap && (feature_at(
            previous,
            i * 2,
            previous.height - overlap + j * 2,
        ) > 0 || feature_at(current, i * 2, j * 2) > 0) {
        let (i, j) = choose|i: int, j: int|
            #![trigger i * 2, previous.height - overlap + j * 2]
            0 <= i * 2 < previous.width && 0 <= j * 2 < overlap && (feature_at(
                previous,
                i * 2,
                previous.height - overlap + j * 2,
            ) > 0 || feature_at(current, i * 2, j * 2) > 0);
        lemma_strong_block(previous, current, top, n, m, i, j);
    }
    if forall|i: int, j: int|
        #![trigger i * 2, previous.height - overlap + j * 2]
        0 <= i * 2 < previous.width && 0 <= j * 2 < overlap ==> {
            let a = feature_at(previous, i * 2, previous.height - overlap + j * 2);
            let b = feature_at(current, i * 2, j * 2);
            (a == 0 && b == 0) || 4 * crate::laws::pixels::apart(a, b) > if a < b {
                b
            } else {
                a
            }
        } {
        assert forall|i: int, j: int| 0 <= i < n && 0 <= j < m implies #[trigger] are_far(
            previous,
            current,
            i * 2,
            top + j * 2,
            j * 2,
        ) by {
            let x = i * 2;
            let y = previous.height - overlap + j * 2;
        }
        lemma_far_block(previous, current, top, n, m);
    }
}

/// Two features differ by a quarter of the stronger one at most.
spec fn are_close(previous: Raster, current: Raster, x: int, ya: int, yb: int) -> bool {
    4 * crate::difference::gray_delta(previous, current, x, ya, yb)
        <= crate::difference::gray_peak(previous, current, x, ya, yb)
}

/// Two features differ by more, or are both missing.
spec fn are_far(previous: Raster, current: Raster, x: int, ya: int, yb: int) -> bool {
    ||| 4 * crate::difference::gray_delta(previous, current, x, ya, yb)
        > crate::difference::gray_peak(previous, current, x, ya, yb)
    ||| crate::difference::gray_peak(previous, current, x, ya, yb) == 0
}

/// Close features make close lines.
proof fn lemma_close_line(previous: Raster, current: Raster, ya: int, yb: int, n: nat)
    requires
        forall|i: int| 0 <= i < n ==> #[trigger] are_close(previous, current, i * 2, ya, yb),
    ensures
        ({
            let sums = crate::difference::gray_line(previous, current, ya, yb, 2, n);
            4 * sums.0 <= sums.1
        }),
    decreases n,
{
    if n > 0 {
        lemma_close_line(previous, current, ya, yb, (n - 1) as nat);
        assert(are_close(previous, current, (n - 1) * 2, ya, yb));
    }
}

/// Close features make close blocks.
proof fn lemma_close_block(previous: Raster, current: Raster, top: int, n: nat, m: nat)
    requires
        forall|i: int, j: int|
            0 <= i < n && 0 <= j < m ==> #[trigger] are_close(
                previous,
                current,
                i * 2,
                top + j * 2,
                j * 2,
            ),
    ensures
        ({
            let sums = crate::difference::gray_block(previous, current, top, 0, 2, n, m);
            4 * sums.0 <= sums.1
        }),
    decreases m,
{
    if m > 0 {
        lemma_close_block(previous, current, top, n, (m - 1) as nat);
        let y = (m - 1) * 2;
        assert forall|i: int| 0 <= i < n implies #[trigger] are_close(
            previous,
            current,
            i * 2,
            top + y,
            0 + y,
        ) by {
            assert(are_close(previous, current, i * 2, top + (m - 1) * 2, (m - 1) * 2));
        }
        lemma_close_line(previous, current, top + y, 0 + y, n);
    }
}

/// Far features make far lines.
proof fn lemma_far_line(previous: Raster, current: Raster, ya: int, yb: int, n: nat)
    requires
        forall|i: int| 0 <= i < n ==> #[trigger] are_far(previous, current, i * 2, ya, yb),
    ensures
        ({
            let sums = crate::difference::gray_line(previous, current, ya, yb, 2, n);
            4 * sums.0 > sums.1 || sums.1 == 0
        }),
    decreases n,
{
    if n > 0 {
        lemma_far_line(previous, current, ya, yb, (n - 1) as nat);
        assert(are_far(previous, current, (n - 1) * 2, ya, yb));
    }
}

/// Far features make far blocks.
proof fn lemma_far_block(previous: Raster, current: Raster, top: int, n: nat, m: nat)
    requires
        forall|i: int, j: int|
            0 <= i < n && 0 <= j < m ==> #[trigger] are_far(
                previous,
                current,
                i * 2,
                top + j * 2,
                j * 2,
            ),
    ensures
        ({
            let sums = crate::difference::gray_block(previous, current, top, 0, 2, n, m);
            4 * sums.0 > sums.1 || sums.1 == 0
        }),
    decreases m,
{
    if m > 0 {
        lemma_far_block(previous, current, top, n, (m - 1) as nat);
        let y = (m - 1) * 2;
        assert forall|i: int| 0 <= i < n implies #[trigger] are_far(
            previous,
            current,
            i * 2,
            top + y,
            0 + y,
        ) by {
            assert(are_far(previous, current, i * 2, top + (m - 1) * 2, (m - 1) * 2));
        }
        lemma_far_line(previous, current, top + y, 0 + y, n);
    }
}

/// A feature makes its line strong.
proof fn lemma_strong_line(previous: Raster, current: Raster, ya: int, yb: int, n: nat, i: int)
    requires
        0 <= i < n,
        crate::difference::gray_peak(previous, current, i * 2, ya, yb) > 0,
    ensures
        crate::difference::gray_line(previous, current, ya, yb, 2, n).1 > 0,
    decreases n,
{
    if i < n - 1 {
        lemma_strong_line(previous, current, ya, yb, (n - 1) as nat, i);
    }
}

/// A feature makes its block strong.
proof fn lemma_strong_block(
    previous: Raster,
    current: Raster,
    top: int,
    n: nat,
    m: nat,
    i: int,
    j: int,
)
    requires
        0 <= i < n,
        0 <= j < m,
        crate::difference::gray_peak(previous, current, i * 2, top + j * 2, j * 2) > 0,
    ensures
        crate::difference::gray_block(previous, current, top, 0, 2, n, m).1 > 0,
    decreases m,
{
    if j < m - 1 {
        lemma_strong_block(previous, current, top, n, (m - 1) as nat, i, j);
    } else {
        let y = (m - 1) * 2;
        lemma_strong_line(previous, current, top + y, 0 + y, n, i);
    }
}

/// Maps of a hundred and eighty rows or less are searched without a prediction. Higher ones are
/// shrunk as little as leaves a hundred and eighty rows at most, and the copies make the
/// prediction.
pub proof fn only_high_maps_are_predicted(
    previous: Raster,
    current: Raster,
    min_overlap: u32,
    max_overlap: u32,
    scale: u32,
    width: nat,
    height: nat,
)
    requires
        previous.height <= u32::MAX,
        0 < previous.width <= u32::MAX,
    ensures
        previous.height <= 180 ==> crate::overlap::prediction(
            previous,
            current,
            min_overlap,
            max_overlap,
        ) is None,
        previous.height > 180 && 180 * (scale - 1) < previous.height <= 180 * scale && (width - 1)
            * scale < previous.width <= width * scale && (height - 1) * scale < previous.height
            <= height * scale ==> {
            &&& height <= 180
            &&& crate::overlap::prediction(previous, current, min_overlap, max_overlap)
                == crate::overlap::small_prediction(
                crate::vision::resized(previous, width, height),
                crate::vision::resized(current, width, height),
                scale,
                previous.height as u32,
                min_overlap,
                max_overlap,
            )
        },
{
    lemma_quotient(previous.height as int, 180, scale as int);
    if previous.height > 180 && 180 * (scale - 1) < previous.height <= 180 * scale && (width - 1)
        * scale < previous.width <= width * scale && (height - 1) * scale < previous.height
        <= height * scale {
        lemma_quotient(previous.width as int, scale as int, width as int);
        lemma_quotient(previous.height as int, scale as int, height as int);
        assert(height <= 180) by (nonlinear_arith)
            requires
                (height - 1) * scale < previous.height,
                previous.height <= 180 * scale,
                0 < scale,
        ;
    }
}

/// A number of samples is the quotient rounded up.
proof fn lemma_quotient(span: int, step: int, count: int)
    requires
        0 <= span,
        0 < step,
    ensures
        (count - 1) * step < span <= count * step ==> crate::math::sample_count(span, step)
            == count,
        step * (count - 1) < span <= step * count ==> crate::math::sample_count(span, step)
            == count,
{
    assert(count * step == step * count && (count - 1) * step == step * (count - 1))
        by (nonlinear_arith);
    if (count - 1) * step < span <= count * step {
        let num = span + step - 1;
        assert(num == count * step + (num - count * step));
        assert(count * step - step == (count - 1) * step) by (nonlinear_arith);
        vstd::arithmetic::div_mod::lemma_fundamental_div_mod_converse(
            num,
            step,
            count,
            num - count * step,
        );
    }
}

/// A prediction is the trusted overlap of the copies, in proportion and rounded to the nearest row,
/// up from a half.
pub proof fn predictions_are_in_proportion(
    previous: Raster,
    current: Raster,
    scale: u32,
    height: u32,
    min_overlap: u32,
    max_overlap: u32,
    min: u32,
    max: u32,
)
    requires
        0 < scale,
        0 < previous.height,
        max <= previous.height,
        (min - 1) * scale < min_overlap <= min * scale,
        max * scale <= max_overlap < (max + 1) * scale,
    ensures
        ({
            let predicted = crate::overlap::small_prediction(
                previous,
                current,
                scale,
                height,
                min_overlap,
                max_overlap,
            );
            let trusted = crate::matching::trusted(
                crate::matching::candidates(
                    previous,
                    current,
                    crate::matching::template_heights(min, max),
                    min,
                    max,
                    None,
                ),
            );
            &&& predicted is Some <==> min <= max && trusted is Some
            &&& predicted matches Some(p) ==> -(previous.height as int) <= 2 * (trusted->0.overlap
                * height - p * previous.height) < previous.height
        }),
{
    lemma_quotient(min_overlap as int, scale as int, min as int);
    assert(max_overlap as int / scale as int == max) by {
        assert((max + 1) * scale == max * scale + scale) by (nonlinear_arith);
        vstd::arithmetic::div_mod::lemma_fundamental_div_mod_converse(
            max_overlap as int,
            scale as int,
            max as int,
            max_overlap - max * scale,
        );
    }
    let heights = crate::matching::template_heights(min, max);
    let found = crate::matching::candidates(previous, current, heights, min, max, None);
    if let Some(best) = crate::matching::trusted(found) {
        crate::laws::matching::trust_is_earned(found);
        crate::laws::matching::every_template_height_has_its_candidate(
            previous,
            current,
            heights,
            min,
            max,
            None,
            best,
        );
        let whole = previous.height as int;
        let num = 2 * (best.overlap * height) + whole;
        vstd::arithmetic::div_mod::lemma_fundamental_div_mod(num, 2 * whole);
        let q = num / (2 * whole);
        assert(0 <= best.overlap * height <= whole * height) by (nonlinear_arith)
            requires
                0 <= best.overlap <= whole,
                0 <= height,
        ;
        assert(0 <= q <= height && (2 * whole) * q == 2 * (q * whole)) by (nonlinear_arith)
            requires
                num == (2 * whole) * q + num % (2 * whole),
                0 <= num % (2 * whole) < 2 * whole,
                0 < whole,
                whole <= num <= 2 * (whole * height) + whole,
        ;
    }
}

} // verus!
