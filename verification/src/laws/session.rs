//! What comes of a captured frame.

use crate::capture_progress::History;
use crate::raster::Raster;
use crate::session::{CaptureAction, FrameEvidence, ScrollSettings, SessionState, StopReason};
use vstd::prelude::*;

verus! {

/// An overlap that proves progress is evidence of it, whether the frames look still or not.
pub proof fn proved_progress_is_measured(previous: Raster, next: Raster, overlap: u32)
    requires
        crate::overlap::vertical_overlap(previous, next) == Some(overlap),
        crate::stitch::shows_progress(previous, next, overlap),
    ensures
        crate::session::evidence(previous, next) == FrameEvidence::Measured(overlap),
{
}

/// Frames that do not look still are judged by their overlap alone.
pub proof fn moving_frames_are_judged_by_their_overlap(previous: Raster, next: Raster)
    requires
        !crate::stitch::near_stagnant(previous, next),
    ensures
        crate::session::evidence(previous, next) == match crate::overlap::vertical_overlap(
            previous,
            next,
        ) {
            Some(overlap) => FrameEvidence::Measured(overlap),
            None => FrameEvidence::Unmatched,
        },
{
}

/// A page is said to stand still only where the frames look still and no overlap proves progress,
/// and always there.
pub proof fn stillness_is_the_absence_of_progress(previous: Raster, next: Raster)
    ensures
        crate::session::evidence(previous, next) == FrameEvidence::Stagnant
            <==> crate::stitch::near_stagnant(previous, next) && forall|overlap: u32|
            crate::overlap::vertical_overlap(previous, next) == Some(overlap)
                ==> !#[trigger] crate::stitch::shows_progress(previous, next, overlap),
{
    let found = crate::overlap::vertical_overlap(previous, next);
    if let Some(overlap) = found {
        let proved = crate::stitch::shows_progress(previous, next, overlap);
    }
}

/// A frame that comes twice is never taken for progress.
pub proof fn identical_frames_are_no_progress(frame: Raster)
    requires
        0 < frame.width,
        0 < frame.height,
    ensures
        crate::session::evidence(frame, frame) == FrameEvidence::Stagnant,
{
    crate::stitch::identical_frames_are_stagnant(frame);
    if let Some(overlap) = crate::overlap::vertical_overlap(frame, frame) {
        crate::stitch::no_progress_at_rest(frame, overlap);
    }
}

/// What a session holds when it has just been given its first frame.
pub open spec fn fresh(first: Raster) -> SessionState {
    SessionState {
        frames: seq![first],
        overlaps: Seq::empty(),
        history: (History { overlaps: Seq::empty(), stagnant: 0, unmatched: 0 }),
        scrolls: 0,
        attempt: 0,
        running: true,
    }
}

/// A measured frame with two new rows or more is kept behind the others, with its overlap, in every
/// state, and the capture stops after it only where no scroll step is left.
pub proof fn measured_progress_is_kept(
    state: SessionState,
    settings: ScrollSettings,
    next: Raster,
    overlap: u32,
)
    requires
        next.height <= u32::MAX,
        overlap + 2 <= next.height,
    ensures
        ({
            let (after, action) = state.step(settings, next, FrameEvidence::Measured(overlap));
            &&& after.frames == state.frames.push(next)
            &&& after.overlaps == state.overlaps.push(overlap)
            &&& after.history.overlaps == state.history.overlaps.push(overlap)
            &&& after.history.stagnant == 0
            &&& after.history.unmatched == 0
            &&& after.running <==> state.scrolls < settings.max_scrolls
            &&& action == Some(
                if state.scrolls < settings.max_scrolls {
                    CaptureAction::Scroll {
                        notches: settings.wheel_notches,
                        settle_ms: settings.settle_ms,
                    }
                } else {
                    CaptureAction::Finish(StopReason::ScrollLimit)
                },
            )
        }),
{
    crate::laws::progress::two_new_rows_are_progress(state.history, overlap, next.height as u32);
}

/// Of frames with one new row at most, on a page that used to move by more than four, the first is
/// kept and the second in a row ends the capture.
pub proof fn standstills_end_a_session(
    state: SessionState,
    settings: ScrollSettings,
    next: Raster,
    overlap: u32,
)
    requires
        next.height <= u32::MAX,
        overlap + 1 >= next.height,
        state.history.overlaps.len() >= 2,
        forall|i: int|
            0 <= i < crate::laws::progress::last_overlaps(state.history).len()
                ==> #[trigger] crate::laws::progress::last_overlaps(state.history)[i] + 4
                < next.height,
    ensures
        ({
            let (after, action) = state.step(settings, next, FrameEvidence::Measured(overlap));
            &&& after.history.overlaps == state.history.overlaps
            &&& after.history.stagnant == state.history.stagnant + 1
            &&& state.history.stagnant == 0 ==> after.frames == state.frames.push(next)
                && after.overlaps == state.overlaps.push(overlap)
            &&& state.history.stagnant > 0 ==> after.frames == state.frames && after.overlaps
                == state.overlaps && !after.running && action == Some(
                CaptureAction::Finish(StopReason::Bottom),
            )
        }),
{
    crate::laws::progress::one_new_row_at_most_is_a_standstill(
        state.history,
        overlap,
        next.height as u32,
    );
}

/// A frame that is not measured is never kept.
pub proof fn only_measured_frames_are_kept(
    state: SessionState,
    settings: ScrollSettings,
    next: Raster,
    shown: FrameEvidence,
)
    requires
        !(shown is Measured),
    ensures
        state.step(settings, next, shown).0.frames == state.frames,
        state.step(settings, next, shown).0.overlaps == state.overlaps,
        state.step(settings, next, shown).0.history.overlaps == state.history.overlaps,
{
}

/// The first still frame is followed by another scroll step, the second in a row by the end.
pub proof fn still_frames_end_a_session(state: SessionState, settings: ScrollSettings, next: Raster)
    requires
        state.scrolls < settings.max_scrolls,
    ensures
        state.step(settings, next, FrameEvidence::Stagnant).1 == Some(
            if state.history.stagnant == 0 {
                CaptureAction::Scroll {
                    notches: settings.wheel_notches,
                    settle_ms: settings.settle_ms,
                }
            } else {
                CaptureAction::Finish(StopReason::Bottom)
            },
        ),
        state.history.stagnant == 0 ==> state.step(
            settings,
            next,
            FrameEvidence::Stagnant,
        ).0.history.stagnant == 1,
{
}

/// A scroll step whose first capture does not match is captured once more at the same position,
/// after half the settling time and a tenth of a second at least. Nothing else changes.
pub proof fn a_missed_capture_is_taken_again(
    state: SessionState,
    settings: ScrollSettings,
    next: Raster,
)
    requires
        state.attempt == 0,
    ensures
        ({
            let (after, action) = state.step(settings, next, FrameEvidence::Unmatched);
            &&& action matches Some(CaptureAction::Recapture { settle_ms })
            &&& settle_ms >= 100
            &&& settle_ms >= settings.settle_ms / 2
            &&& settle_ms == 100 || settle_ms == settings.settle_ms / 2
            &&& after == (SessionState { attempt: 1, ..state })
        }),
{
}

/// A second capture that does not match drops the frame. The next scroll step goes one notch and
/// waits twice as long, as far as a number can tell.
pub proof fn recovery_is_cautious(state: SessionState, settings: ScrollSettings, next: Raster)
    requires
        state.attempt == 1,
        state.history.unmatched < 9,
        state.scrolls < settings.max_scrolls,
    ensures
        ({
            let (after, action) = state.step(settings, next, FrameEvidence::Unmatched);
            &&& action matches Some(CaptureAction::Scroll { notches, settle_ms })
            &&& notches == 1
            &&& settings.settle_ms * 2 <= u64::MAX ==> settle_ms == settings.settle_ms * 2
            &&& settings.settle_ms * 2 > u64::MAX ==> settle_ms == u64::MAX
            &&& after.history.unmatched == state.history.unmatched + 1
            &&& after.scrolls == state.scrolls + 1
            &&& after.attempt == 0
            &&& after.running
        }),
{
}

/// The tenth frame in a row without a match ends the capture: with the frames that are kept, or,
/// where only the first is there, with a failure.
pub proof fn a_lost_page_ends_a_session(
    state: SessionState,
    settings: ScrollSettings,
    next: Raster,
)
    requires
        state.attempt == 1,
        state.history.unmatched == 9,
    ensures
        ({
            let (after, action) = state.step(settings, next, FrameEvidence::Unmatched);
            &&& !after.running
            &&& after.frames == state.frames
            &&& after.overlaps == state.overlaps
            &&& state.frames.len() == 1 ==> action is None
            &&& state.frames.len() != 1 ==> action == Some(
                CaptureAction::Finish(StopReason::Unreliable),
            )
        }),
{
}

/// Each scroll step is counted, none goes over the limit, and at the limit the capture ends with
/// what it has.
pub proof fn scroll_steps_are_counted(
    state: SessionState,
    settings: ScrollSettings,
    next: Raster,
    shown: FrameEvidence,
)
    requires
        state.scrolls <= settings.max_scrolls,
    ensures
        ({
            let (after, action) = state.step(settings, next, shown);
            &&& after.scrolls <= settings.max_scrolls
            &&& action is Some && action->0 is Scroll ==> after.scrolls == state.scrolls + 1
                && after.attempt == 0
            &&& action is Some && !(action->0 is Scroll) ==> after.scrolls == state.scrolls
            &&& action == Some(CaptureAction::Finish(StopReason::ScrollLimit))
                ==> state.scrolls == settings.max_scrolls
            &&& state.scrolls == settings.max_scrolls ==> !(action is Some && action->0 is Scroll)
            &&& action is Some && action->0 is Scroll ==> after.running
            &&& action is Some && action->0 is Recapture ==> after.running == state.running
            &&& action is None || action->0 is Finish ==> !after.running
        }),
{
}

/// A capture starts with a scroll step as it is set, unless none is allowed.
pub proof fn a_session_starts_with_a_scroll(first: Raster, settings: ScrollSettings)
    ensures
        ({
            let (after, action) = fresh(first).scroll_on(settings);
            &&& after.frames == seq![first]
            &&& after.overlaps.len() == 0
            &&& settings.max_scrolls > 0 ==> after.running && after.scrolls == 1 && action == (
            CaptureAction::Scroll {
                notches: settings.wheel_notches,
                settle_ms: settings.settle_ms,
            })
            &&& settings.max_scrolls == 0 ==> !after.running && action == CaptureAction::Finish(
                StopReason::ScrollLimit,
            )
        }),
{
}

/// Stopping keeps every frame and every overlap.
pub proof fn stopping_keeps_everything(state: SessionState)
    ensures
        state.stopped() == (SessionState { running: false, ..state }),
{
}

/// While the page settles, every sleep but the last takes the whole interval, and the last takes
/// what is left.
pub proof fn sleeps_are_as_long_as_they_may_be(settle_ms: u64, waited_ms: u64)
    requires
        waited_ms <= settle_ms,
    ensures
        settle_ms - waited_ms >= 25 ==> crate::session::sleep_after(settle_ms, waited_ms) == Some(
            25u64,
        ),
        0 < settle_ms - waited_ms < 25 ==> crate::session::sleep_after(settle_ms, waited_ms)
            == Some((settle_ms - waited_ms) as u64),
        settle_ms == waited_ms ==> crate::session::sleep_after(settle_ms, waited_ms) is None,
{
}

/// The overlaps of a list are added up one by one: cutting the list in two parts the sum.
pub proof fn overlap_totals_add_up(a: Seq<u32>, b: Seq<u32>)
    ensures
        crate::session::overlap_total(a + b, (a + b).len()) == crate::session::overlap_total(
            a,
            a.len(),
        ) + crate::session::overlap_total(b, b.len()),
        a.len() == 1 ==> crate::session::overlap_total(a, a.len()) == a[0],
        a.len() == 0 ==> crate::session::overlap_total(a, a.len()) == 0,
{
    lemma_total_parts(a, b, b.len());
    if a.len() == 1 {
        assert(crate::session::overlap_total(a, 0) == 0);
    }
}

/// The first overlaps of two lists in a row, added up.
proof fn lemma_total_parts(a: Seq<u32>, b: Seq<u32>, n: nat)
    requires
        n <= b.len(),
    ensures
        crate::session::overlap_total(a + b, a.len() + n) == crate::session::overlap_total(
            a,
            a.len(),
        ) + crate::session::overlap_total(b, n),
    decreases n,
{
    if n > 0 {
        lemma_total_parts(a, b, (n - 1) as nat);
        assert((a + b)[a.len() + n - 1] == b[n - 1]);
    } else {
        lemma_total_prefix(a, b, a.len());
    }
}

/// The first overlaps of a list do not depend on what follows.
proof fn lemma_total_prefix(a: Seq<u32>, b: Seq<u32>, n: nat)
    requires
        n <= a.len(),
    ensures
        crate::session::overlap_total(a + b, n) == crate::session::overlap_total(a, n),
    decreases n,
{
    if n > 0 {
        lemma_total_prefix(a, b, (n - 1) as nat);
        assert((a + b)[n - 1] == a[n - 1]);
    }
}

} // verus!
