//! Stillness, progress, and the long image: whether the page moved between two frames, and how
//! the frames are put together.

use crate::difference::{
    sampled_column_difference, sampled_difference, sampled_row_difference, SAMPLE_STEP,
};
use crate::edges::{crop_static_edges, detect_pair_edges, detect_static_edges, StaticEdges};
use crate::error::{AppError, AppResult};
use crate::math::{count_samples, Ratio};
use crate::raster::{append_bytes, Frame, Raster};
use vstd::prelude::*;

verus! {

/// In this row of both frames the sampled channels differ by at most two on average.
pub open spec fn row_is_stable(a: Raster, b: Raster, y: int) -> bool {
    let n = crate::math::sample_count(a.width as int, 2) as nat;
    n > 0 && crate::difference::line_delta(a, b, y, y, 0, 2, n) <= 6 * n
}

/// In the sampled rows of this column the channels differ by at most two on average.
pub open spec fn column_is_stable(a: Raster, b: Raster, x: int, start: int, height: int) -> bool {
    let m = crate::math::sample_count(height, 2) as nat;
    m > 0 && crate::difference::block_delta(a, b, start, start, x, 2, 1, m) <= 6 * m
}

/// How many of the first `m` sampled rows from `start` on are stable.
pub open spec fn stable_rows(a: Raster, b: Raster, start: int, m: nat) -> nat
    decreases m,
{
    if m == 0 {
        0
    } else {
        stable_rows(a, b, start, (m - 1) as nat) + if row_is_stable(a, b, start + (m - 1) * 2) {
            1nat
        } else {
            0
        }
    }
}

/// How many of the first `n` sampled columns are stable.
pub open spec fn stable_columns(a: Raster, b: Raster, start: int, height: int, n: nat) -> nat
    decreases n,
{
    if n == 0 {
        0
    } else {
        stable_columns(a, b, start, height, (n - 1) as nat) + if column_is_stable(
            a,
            b,
            (n - 1) * 2,
            start,
            height,
        ) {
            1nat
        } else {
            0
        }
    }
}

/// Most of the samples: eighty-five in a hundred, and one at least.
pub open spec fn is_most(stable: nat, sampled: nat) -> bool {
    sampled > 0 && stable * 100 >= 85 * sampled
}

/// The frames differ by no more than two on average, or, between the static edges, most rows or
/// most columns are stable, or the static edges leave no row between them.
///
/// A small animation can change every row or every column while the page stands still. One stable
/// axis is enough.
pub open spec fn near_stagnant(previous: Raster, current: Raster) -> bool {
    let edges = crate::edges::static_edges(seq![previous, current]);
    let height = previous.height - edges.0 - edges.1;
    let m = crate::math::sample_count(height, 2) as nat;
    let n = crate::math::sample_count(previous.width as int, 2) as nat;
    &&& (previous.width, previous.height) == (current.width, current.height)
    &&& 0 < previous.width
    &&& 0 < previous.height
    &&& {
        ||| !crate::difference::mean_is_above(
            previous,
            current,
            0,
            0,
            0,
            previous.width as int,
            previous.height as int,
            2,
        )
        ||| height == 0
        ||| is_most(stable_rows(previous, current, edges.0 as int, m), m)
        ||| is_most(stable_columns(previous, current, edges.0 as int, height, n), n)
    }
}

/// The mean difference of the frames as they are is larger than that of the frames shifted by the
/// overlap, by more than four.
pub open spec fn shift_is_better(previous: Raster, current: Raster, overlap: u32) -> bool {
    let n = crate::math::sample_count(previous.width as int, 2) as nat;
    let rest_count = n * (crate::math::sample_count(previous.height as int, 2) as nat);
    let shifted_count = n * (crate::math::sample_count(overlap as int, 2) as nat);
    let rest = crate::difference::block_delta(
        previous,
        current,
        0,
        0,
        0,
        2,
        n,
        crate::math::sample_count(previous.height as int, 2) as nat,
    );
    let shifted = crate::difference::block_delta(
        previous,
        current,
        previous.height - overlap,
        0,
        0,
        2,
        n,
        crate::math::sample_count(overlap as int, 2) as nat,
    );
    rest * shifted_count > shifted * rest_count + 12 * (rest_count * shifted_count)
}

/// The frames agree when shifted by the overlap, do not when laid over each other as they are, and
/// agree better shifted than as they are by a margin.
pub open spec fn shows_progress(previous: Raster, current: Raster, overlap: u32) -> bool {
    &&& (previous.width, previous.height) == (current.width, current.height)
    &&& overlap < previous.height
    &&& !crate::difference::mean_is_above(
        previous,
        current,
        previous.height - overlap,
        0,
        0,
        previous.width as int,
        overlap as int,
        15,
    )
    &&& crate::difference::mean_is_above(
        previous,
        current,
        0,
        0,
        0,
        previous.width as int,
        previous.height as int,
        4,
    )
    &&& shift_is_better(previous, current, overlap)
}

/// What a list of frames holds.
pub open spec fn views(frames: Seq<Frame>) -> Seq<Raster> {
    Seq::new(frames.len(), |i: int| frames[i]@)
}

/// The frames without the rows that are the same in all of them.
pub open spec fn trimmed(frames: Seq<Raster>) -> Seq<Raster> {
    let edges = crate::edges::static_edges(frames);
    Seq::new(frames.len(), |i: int| crate::edges::without_edges(frames[i], edges))
}

/// Frames of one width, each with a row below its overlap with the frame before it.
pub open spec fn go_together(frames: Seq<Raster>, overlaps: Seq<u32>) -> bool {
    &&& frames.len() == overlaps.len() + 1
    &&& forall|i: int|
        1 <= i < frames.len() ==> (#[trigger] frames[i]).width == frames[0].width && overlaps[i - 1]
            < frames[i].height
}

/// The first `n` frames, one below the other, each without its overlap with the one before it.
pub open spec fn joined(frames: Seq<Raster>, overlaps: Seq<u32>, n: nat) -> Raster
    decreases n,
{
    if n <= 1 {
        frames[0]
    } else {
        let above = joined(frames, overlaps, (n - 1) as nat);
        let overlap = overlaps[n - 2] as int;
        let below = frames[n - 1].rgba_rows(overlap, frames[n - 1].height - overlap);
        Raster {
            width: above.width,
            height: above.height + below.height,
            data: above.data + below.data,
        }
    }
}

/// The long image of frames and overlaps that go together.
pub open spec fn stitched(frames: Seq<Raster>, overlaps: Seq<u32>) -> Raster {
    joined(trimmed(frames), overlaps, frames.len())
}

/// Counts the stable rows among the sampled ones, and the sampled ones.
pub fn stable_row_ratio(previous: &Frame, current: &Frame, start_y: u32, height: u32) -> (share: (
    u32,
    u32,
))
    requires
        previous.wf(),
        current.wf(),
        (previous.width, previous.height) == (current.width, current.height),
        start_y + height <= previous.height,
    ensures
        share.1 == crate::math::sample_count(height as int, 2),
        share.0 == stable_rows(previous@, current@, start_y as int, share.1 as nat),
{
    let sampled: u32 = count_samples(height, SAMPLE_STEP);
    let mut stable: u32 = 0;
    let mut k: u32 = 0;
    while k < sampled
        invariant
            k <= sampled,
            stable <= k,
            sampled == crate::math::sample_count(height as int, 2),
            stable == stable_rows(previous@, current@, start_y as int, k as nat),
            previous.wf(),
            current.wf(),
            (previous.width, previous.height) == (current.width, current.height),
            start_y + height <= previous.height,
        decreases sampled - k,
    {
        proof {
            crate::math::lemma_samples(height as int, 2);
            crate::math::lemma_samples(previous.width as int, 2);
            assert(k * 2 < height);
        }
        let y: u32 = start_y + k * 2;
        if !sampled_row_difference(previous, current, y, y).exceeds(6, 1) {
            stable += 1;
        }
        k += 1;
    }
    (stable, sampled)
}

/// Counts the stable columns among the sampled ones, and the sampled ones.
pub fn stable_column_ratio(
    previous: &Frame,
    current: &Frame,
    start_y: u32,
    height: u32,
) -> (share: (u32, u32))
    requires
        previous.wf(),
        current.wf(),
        (previous.width, previous.height) == (current.width, current.height),
        start_y + height <= previous.height,
    ensures
        share.1 == crate::math::sample_count(previous.width as int, 2),
        share.0 == stable_columns(
            previous@,
            current@,
            start_y as int,
            height as int,
            share.1 as nat,
        ),
{
    let sampled: u32 = count_samples(previous.width, SAMPLE_STEP);
    let mut stable: u32 = 0;
    let mut k: u32 = 0;
    while k < sampled
        invariant
            k <= sampled,
            stable <= k,
            sampled == crate::math::sample_count(previous.width as int, 2),
            stable == stable_columns(
                previous@,
                current@,
                start_y as int,
                height as int,
                k as nat,
            ),
            previous.wf(),
            current.wf(),
            (previous.width, previous.height) == (current.width, current.height),
            start_y + height <= previous.height,
        decreases sampled - k,
    {
        proof {
            crate::math::lemma_samples(previous.width as int, 2);
            crate::math::lemma_samples(height as int, 2);
            assert(k * 2 < previous.width);
        }
        if !sampled_column_difference(previous, current, k * 2, start_y, height).exceeds(6, 1) {
            stable += 1;
        }
        k += 1;
    }
    (stable, sampled)
}

/// Whether a count is most of the samples.
fn are_most(share: (u32, u32)) -> (most: bool)
    ensures
        most == is_most(share.0 as nat, share.1 as nat),
{
    share.1 > 0 && share.0 as u64 * 100 >= 85 * share.1 as u64
}

/// Checks whether two consecutive frames are nearly the same, so that the page may have reached its
/// bottom.
pub fn frames_near_stagnant(prev: &Frame, curr: &Frame) -> (stagnant: bool)
    requires
        prev.wf(),
        curr.wf(),
    ensures
        stagnant == near_stagnant(prev@, curr@),
{
    if prev.width != curr.width || prev.height != curr.height {
        return false;
    }
    if prev.width == 0 || prev.height == 0 {
        return false;
    }
    if !sampled_difference(prev, curr, 0, 0, prev.height, SAMPLE_STEP, None).exceeds(6, 1) {
        return true;
    }
    let edges: StaticEdges = detect_pair_edges(prev, curr);
    let height: u32 = prev.height - edges.top - edges.bottom;
    if height == 0 {
        return true;
    }
    are_most(stable_row_ratio(prev, curr, edges.top, height)) || are_most(
        stable_column_ratio(prev, curr, edges.top, height),
    )
}

/// Checks whether an overlap stands for real progress and not for a chance match of frames at
/// rest.
///
/// Sparse content can look still while the page moves. Frames at the bottom, and periodic content,
/// align as well at rest as shifted, so the shifted alignment must beat the one at rest by a margin.
pub fn scroll_progress_evident(previous: &Frame, current: &Frame, overlap: u32) -> (evident: bool)
    requires
        previous.wf(),
        current.wf(),
    ensures
        evident == shows_progress(previous@, current@, overlap),
{
    if previous.width != current.width || previous.height != current.height || overlap
        >= previous.height {
        return false;
    }
    let shifted: Ratio = sampled_difference(
        previous,
        current,
        previous.height - overlap,
        0,
        overlap,
        SAMPLE_STEP,
        None,
    );
    if shifted.exceeds(45, 1) {
        return false;
    }
    let at_rest: Ratio = sampled_difference(
        previous,
        current,
        0,
        0,
        current.height,
        SAMPLE_STEP,
        None,
    );
    proof {
        lemma_few_samples(previous.width, previous.height);
        lemma_few_samples(previous.width, overlap);
    }
    at_rest.exceeds(12, 1) && at_rest.exceeds_by(&shifted, 12)
}

/// The samples of an image can be counted in sixty-four bits.
proof fn lemma_few_samples(width: u32, height: u32)
    ensures
        crate::math::sample_count(width as int, 2) * crate::math::sample_count(height as int, 2)
            <= u64::MAX,
{
    let n = crate::math::sample_count(width as int, 2);
    let m = crate::math::sample_count(height as int, 2);
    assert(n * m <= 0x8000_0000 * 0x8000_0000) by (nonlinear_arith)
        requires
            0 <= n <= 0x8000_0000,
            0 <= m <= 0x8000_0000,
    ;
}

/// The joined image is a colour image, as wide as the first frame, and grows with each frame.
pub proof fn joining_adds_rows(frames: Seq<Raster>, overlaps: Seq<u32>, n: nat)
    requires
        go_together(frames, overlaps),
        1 <= n <= frames.len(),
        forall|i: int| 0 <= i < frames.len() ==> (#[trigger] frames[i]).is_rgba(),
    ensures
        joined(frames, overlaps, n).is_rgba(),
        joined(frames, overlaps, n).width == frames[0].width,
        joined(frames, overlaps, n).height >= frames[0].height,
        n > 1 ==> joined(frames, overlaps, n).height == joined(
            frames,
            overlaps,
            (n - 1) as nat,
        ).height + frames[n - 1].height - overlaps[n - 2],
    decreases n,
{
    if n > 1 {
        joining_adds_rows(frames, overlaps, (n - 1) as nat);
        let above = joined(frames, overlaps, (n - 1) as nat);
        let frame = frames[n - 1];
        let overlap = overlaps[n - 2] as int;
        let below = frame.rgba_rows(overlap, frame.height - overlap);
        crate::raster::lemma_rgba_rows(frame, overlap, frame.height - overlap);
        let stride = above.width * 4;
        assert((above.height + below.height) * stride == above.height * stride + below.height
            * stride) by (nonlinear_arith);
    }
}

/// More frames make a higher image.
proof fn lemma_joined_heights(frames: Seq<Raster>, overlaps: Seq<u32>, a: nat, b: nat)
    requires
        go_together(frames, overlaps),
        1 <= a <= b <= frames.len(),
        forall|i: int| 0 <= i < frames.len() ==> (#[trigger] frames[i]).is_rgba(),
    ensures
        joined(frames, overlaps, a).height <= joined(frames, overlaps, b).height,
    decreases b,
{
    if a < b {
        joining_adds_rows(frames, overlaps, b);
        lemma_joined_heights(frames, overlaps, a, (b - 1) as nat);
    }
}

/// The rows of the first `n` frames, without their overlaps.
pub open spec fn total_rows(frames: Seq<Raster>, overlaps: Seq<u32>, n: nat) -> int
    decreases n,
{
    if n <= 1 {
        frames[0].height as int
    } else {
        total_rows(frames, overlaps, (n - 1) as nat) + frames[n - 1].height - overlaps[n - 2]
    }
}

/// The joined image is as high as its frames together, less their overlaps.
pub proof fn heights_add_up(frames: Seq<Raster>, overlaps: Seq<u32>, n: nat)
    requires
        go_together(frames, overlaps),
        1 <= n <= frames.len(),
    ensures
        joined(frames, overlaps, n).height == total_rows(frames, overlaps, n),
    decreases n,
{
    if n > 1 {
        heights_add_up(frames, overlaps, (n - 1) as nat);
    }
}

/// Each window shows the rows of the page from its top on, and overlaps the window before it by
/// the rows that both show.
pub open spec fn are_windows(
    page: Raster,
    windows: Seq<Raster>,
    overlaps: Seq<u32>,
    tops: Seq<int>,
) -> bool {
    &&& tops.len() == windows.len()
    &&& forall|i: int|
        0 <= i < windows.len() ==> {
            &&& 0 <= #[trigger] tops[i]
            &&& tops[i] + windows[i].height <= page.height
            &&& windows[i] == page.rgba_rows(tops[i], windows[i].height as int)
        }
    &&& forall|i: int|
        1 <= i < windows.len() ==> #[trigger] overlaps[i - 1] == tops[i - 1] + windows[i - 1].height
            - tops[i]
}

/// Where each frame is cut from one page, below the frame before it except for their overlap, the
/// stitched image is the part of the page from the first to the last of them.
pub proof fn stitching_rebuilds_the_page(
    page: Raster,
    frames: Seq<Raster>,
    overlaps: Seq<u32>,
    tops: Seq<int>,
)
    requires
        page.is_rgba(),
        frames.len() > 0,
        go_together(trimmed(frames), overlaps),
        are_windows(page, trimmed(frames), overlaps, tops),
    ensures
        stitched(frames, overlaps) == page.rgba_rows(
            tops[0],
            tops.last() + trimmed(frames).last().height - tops[0],
        ),
{
    lemma_windows(page, trimmed(frames), overlaps, tops, frames.len());
}

/// The first windows of a page, joined, are the part of it from the first to the last of them.
proof fn lemma_windows(
    page: Raster,
    windows: Seq<Raster>,
    overlaps: Seq<u32>,
    tops: Seq<int>,
    n: nat,
)
    requires
        page.is_rgba(),
        1 <= n <= windows.len(),
        go_together(windows, overlaps),
        are_windows(page, windows, overlaps, tops),
    ensures
        tops[n - 1] + windows[n - 1].height >= tops[0],
        joined(windows, overlaps, n) == page.rgba_rows(
            tops[0],
            tops[n - 1] + windows[n - 1].height - tops[0],
        ),
    decreases n,
{
    let first = windows[0];
    if n > 1 {
        lemma_windows(page, windows, overlaps, tops, (n - 1) as nat);
        let before = windows[n - 2];
        let window = windows[n - 1];
        let overlap = overlaps[n - 2] as int;
        assert(overlaps[(n - 1) - 1] == tops[n - 2] + before.height - tops[n - 1]);
        let bottom = tops[n - 2] + before.height;
        crate::raster::rows_of_rows(
            page,
            tops[n - 1],
            window.height as int,
            overlap,
            window.height - overlap,
        );
        crate::raster::rows_join(page, tops[0], bottom - tops[0], window.height - overlap);
    }
}

/// One frame makes an image of its own.
pub proof fn one_frame_stays_as_it_is(frame: Raster)
    requires
        frame.is_rgba(),
    ensures
        go_together(trimmed(seq![frame]), seq![]),
        stitched(seq![frame], seq![]) == frame,
{
    crate::overlap::lemma_no_edges(frame);
}

/// References to the frames of a list.
fn references(frames: &[Frame]) -> (refs: Vec<&Frame>)
    ensures
        crate::edges::rasters(refs@) == views(frames@),
        refs@.len() == frames@.len(),
        forall|i: int| 0 <= i < frames@.len() ==> *(#[trigger] refs@[i]) == frames@[i],
{
    let mut refs: Vec<&Frame> = Vec::new();
    let mut i: usize = 0;
    while i < frames.len()
        invariant
            i <= frames@.len(),
            refs@.len() == i,
            forall|j: int| 0 <= j < i ==> *(#[trigger] refs@[j]) == frames@[j],
        decreases frames.len() - i,
    {
        refs.push(&frames[i]);
        i += 1;
    }
    assert(crate::edges::rasters(refs@) =~= views(frames@));
    refs
}

/// The frames without the rows that are the same in all of them.
fn trim_frames(frames: &[Frame]) -> (cut: Vec<Frame>)
    requires
        forall|i: int| 0 <= i < frames@.len() ==> (#[trigger] frames@[i]).wf(),
    ensures
        views(cut@) == trimmed(views(frames@)),
        cut@.len() == frames@.len(),
        forall|i: int| 0 <= i < cut@.len() ==> (#[trigger] cut@[i]).wf(),
{
    let refs: Vec<&Frame> = references(frames);
    let edges: StaticEdges = detect_static_edges(refs.as_slice());
    let mut cut: Vec<Frame> = Vec::new();
    let mut i: usize = 0;
    proof {
        crate::edges::edges_fit_every_frame(views(frames@));
        assert forall|j: int| 0 <= j < frames@.len() implies edges.top + edges.bottom
            <= #[trigger] frames@[j].height by {
            assert(views(frames@)[j] == frames@[j]@);
        }
    }
    while i < frames.len()
        invariant
            i <= frames@.len(),
            forall|j: int| 0 <= j < frames@.len() ==> (#[trigger] frames@[j]).wf(),
            forall|j: int|
                0 <= j < frames@.len() ==> edges.top + edges.bottom <= #[trigger] frames@[j].height,
            cut@.len() == i,
            forall|j: int|
                0 <= j < i ==> (#[trigger] cut@[j]).wf() && cut@[j]@ == crate::edges::without_edges(
                    frames@[j]@,
                    (edges.top as nat, edges.bottom as nat),
                ),
        decreases frames.len() - i,
    {
        cut.push(crop_static_edges(&frames[i], edges));
        i += 1;
    }
    assert(views(cut@) =~= trimmed(views(frames@)));
    cut
}

/// Whether frames and overlaps go together.
fn check_frames(frames: &Vec<Frame>, overlaps: &[u32]) -> (fit: bool)
    requires
        frames@.len() == overlaps@.len() + 1,
    ensures
        fit == go_together(views(frames@), overlaps@),
{
    let mut i: usize = 1;
    while i < frames.len()
        invariant
            1 <= i <= frames@.len(),
            frames@.len() == overlaps@.len() + 1,
            forall|j: int|
                1 <= j < i ==> (#[trigger] views(frames@)[j]).width == views(frames@)[0].width
                    && overlaps@[j - 1] < views(frames@)[j].height,
        decreases frames.len() - i,
    {
        assert(views(frames@)[i as int] == frames@[i as int]@);
        if frames[i].width != frames[0].width || overlaps[i - 1] >= frames[i].height {
            return false;
        }
        i += 1;
    }
    true
}

/// Stitches frames into one long image: the rows that are the same in all frames are cut off, and
/// each frame follows the one before it without the rows that both show.
pub fn stitch_vertical(frames: &[Frame], overlaps: &[u32]) -> (image: AppResult<Frame>)
    requires
        forall|i: int| 0 <= i < frames@.len() ==> (#[trigger] frames@[i]).wf(),
        go_together(trimmed(views(frames@)), overlaps@) ==> stitched(
            views(frames@),
            overlaps@,
        ).height <= u32::MAX,
    ensures
        frames@.len() == 0 ==> (image matches Err(AppError::Message(words)) && words@
            == "No frames were captured"@),
        frames@.len() > 0 && !go_together(trimmed(views(frames@)), overlaps@) ==> image matches Err(
            AppError::InvalidStitchState,
        ),
        go_together(trimmed(views(frames@)), overlaps@) ==> (image matches Ok(long) && long.wf()
            && long@ == stitched(views(frames@), overlaps@)),
{
    if frames.len() == 0 {
        return Err(AppError::Message("No frames were captured".to_owned()));
    }
    if frames.len() - 1 != overlaps.len() {
        return Err(AppError::InvalidStitchState);
    }
    let cut: Vec<Frame> = trim_frames(frames);
    if !check_frames(&cut, overlaps) {
        return Err(AppError::InvalidStitchState);
    }
    let ghost all = views(cut@);
    proof {
        assert forall|i: int| 0 <= i < all.len() implies (#[trigger] all[i]).is_rgba() by {
            assert(cut@[i].wf());
        }
    }
    let width: u32 = cut[0].width;
    let mut height: u32 = cut[0].height;
    let mut data: Vec<u8> = Vec::new();
    append_bytes(&mut data, &cut[0].data, 0, cut[0].data.len());
    assert(data@ =~= all[0].data);
    let mut i: usize = 1;
    while i < cut.len()
        invariant
            1 <= i <= cut@.len(),
            all == views(cut@),
            go_together(all, overlaps@),
            forall|j: int| 0 <= j < all.len() ==> (#[trigger] all[j]).is_rgba(),
            forall|j: int| 0 <= j < cut@.len() ==> (#[trigger] cut@[j]).wf(),
            joined(all, overlaps@, all.len()).height <= u32::MAX,
            width == all[0].width,
            height == joined(all, overlaps@, i as nat).height,
            data@ == joined(all, overlaps@, i as nat).data,
        decreases cut.len() - i,
    {
        assert(all[i as int] == cut@[i as int]@);
        proof {
            joining_adds_rows(all, overlaps@, (i + 1) as nat);
            lemma_joined_heights(all, overlaps@, (i + 1) as nat, all.len());
        }
        let overlap: u32 = overlaps[i - 1];
        let rest: Frame = cut[i].crop_rows(overlap, cut[i].height - overlap);
        append_bytes(&mut data, &rest.data, 0, rest.data.len());
        assert(data@ =~= joined(all, overlaps@, (i + 1) as nat).data);
        height = height + rest.height;
        i += 1;
    }
    proof {
        joining_adds_rows(all, overlaps@, all.len());
    }
    Ok(Frame { width, height, data })
}

/// Whether the stitched image would be too high for any image.
pub fn is_too_tall(frames: &[Frame], overlaps: &[u32]) -> (too_tall: bool)
    requires
        forall|i: int| 0 <= i < frames@.len() ==> (#[trigger] frames@[i]).wf(),
    ensures
        too_tall == (go_together(trimmed(views(frames@)), overlaps@) && stitched(
            views(frames@),
            overlaps@,
        ).height > u32::MAX),
{
    if frames.len() == 0 || frames.len() - 1 != overlaps.len() {
        return false;
    }
    let refs: Vec<&Frame> = references(frames);
    let edges: StaticEdges = detect_static_edges(refs.as_slice());
    let ghost all = trimmed(views(frames@));
    proof {
        crate::edges::edges_fit_every_frame(views(frames@));
        assert forall|j: int| 0 <= j < frames@.len() implies edges.top + edges.bottom
            <= #[trigger] frames@[j].height && all[j].width == frames@[j].width && all[j].height
            == frames@[j].height - edges.top - edges.bottom by {
            assert(views(frames@)[j] == frames@[j]@);
        }
    }
    let mut rows: u128 = (frames[0].height - edges.top - edges.bottom) as u128;
    let mut i: usize = 1;
    while i < frames.len()
        invariant
            1 <= i <= frames@.len(),
            all == trimmed(views(frames@)),
            all.len() == frames@.len(),
            frames@.len() == overlaps@.len() + 1,
            forall|j: int|
                0 <= j < frames@.len() ==> edges.top + edges.bottom <= #[trigger] frames@[j].height
                    && all[j].width == frames@[j].width && all[j].height == frames@[j].height
                    - edges.top - edges.bottom,
            forall|j: int|
                1 <= j < i ==> (#[trigger] all[j]).width == all[0].width && overlaps@[j - 1]
                    < all[j].height,
            rows == total_rows(all, overlaps@, i as nat),
            rows <= i * u32::MAX,
        decreases frames.len() - i,
    {
        let kept: u32 = frames[i].height - edges.top - edges.bottom;
        let overlap: u32 = overlaps[i - 1];
        assert(frames@[i as int].height >= kept && frames@[0].height >= edges.top);
        if frames[i].width != frames[0].width || overlap >= kept {
            return false;
        }
        rows = rows + (kept - overlap) as u128;
        i += 1;
    }
    assert(go_together(all, overlaps@));
    proof {
        heights_add_up(all, overlaps@, all.len());
    }
    rows > u32::MAX as u128
}

/// Frames with pixels that differ by no more than two on average are stagnant, and so are frames
/// that are static edge all over.
pub proof fn nearly_identical_frames_are_stagnant(previous: Raster, current: Raster)
    requires
        (previous.width, previous.height) == (current.width, current.height),
        0 < previous.width,
        0 < previous.height,
    ensures
        !crate::difference::mean_is_above(
            previous,
            current,
            0,
            0,
            0,
            previous.width as int,
            previous.height as int,
            2,
        ) ==> near_stagnant(previous, current),
        ({
            let edges = crate::edges::static_edges(seq![previous, current]);
            edges.0 + edges.1 == previous.height ==> near_stagnant(previous, current)
        }),
{
}

/// A frame with pixels that comes twice is stagnant.
pub proof fn identical_frames_are_stagnant(frame: Raster)
    requires
        0 < frame.width,
        0 < frame.height,
    ensures
        near_stagnant(frame, frame),
{
    let n = crate::math::sample_count(frame.width as int, 2) as nat;
    let m = crate::math::sample_count(frame.height as int, 2) as nat;
    crate::difference::no_difference_from_itself(frame, 0, 0, 2, n, m);
    assert(n * m > 0) by (nonlinear_arith)
        requires
            n > 0,
            m > 0,
    ;
    nearly_identical_frames_are_stagnant(frame, frame);
}

/// A frame that comes twice shows no progress, whatever overlap is claimed.
pub proof fn no_progress_at_rest(frame: Raster, overlap: u32)
    ensures
        !shows_progress(frame, frame, overlap),
{
    let n = crate::math::sample_count(frame.width as int, 2) as nat;
    let m = crate::math::sample_count(frame.height as int, 2) as nat;
    let shifted = crate::math::sample_count(overlap as int, 2) as nat;
    crate::difference::no_difference_from_itself(frame, 0, 0, 2, n, m);
    if n > 0 && shifted > 0 && overlap < frame.height {
        assert(n * m > 0) by (nonlinear_arith)
            requires
                n > 0,
                m > 0,
        ;
    } else if overlap < frame.height {
        assert(n * shifted == 0) by (nonlinear_arith)
            requires
                n == 0 || shifted == 0,
        ;
    }
}

} // verus!
