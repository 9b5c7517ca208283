//! One capture from the first frame to the last: what to do next, frame after frame.
//!
//! Scrolling, waiting and capturing lie outside. The session is told what came of them, and says
//! what to do next.

use crate::capture_progress::{CaptureDecision, CaptureProgress, History};
use crate::error::{AppError, AppResult};
use crate::overlap::detect_vertical_overlap;
use crate::raster::{Frame, Raster};
use crate::stitch::{frames_near_stagnant, scroll_progress_evident};
use vstd::prelude::*;

verus! {

/// How many captures one scroll step gets.
pub const CAPTURE_ATTEMPTS_PER_SCROLL: usize = 2;

/// A second capture of the same position waits at least so many milliseconds.
pub const MIN_RETRY_SETTLE_MS: u64 = 100;

/// While waiting, the escape key is looked at every so many milliseconds.
pub const ESC_POLL_INTERVAL_MS: u64 = 25;

/// How the page is to be scrolled.
#[derive(Clone, Copy, Debug)]
pub struct ScrollSettings {
    /// At most so many scroll steps.
    pub max_scrolls: usize,
    /// How long the page may settle after each step, in milliseconds.
    pub settle_ms: u64,
    /// How far each step goes, in notches of the wheel.
    pub wheel_notches: i32,
}

/// Why a capture ends.
#[derive(Clone, Copy, Debug, PartialEq, Eq, Structural)]
pub enum StopReason {
    /// The escape key was pressed.
    Cancelled,
    /// No scroll step is left.
    ScrollLimit,
    /// The page has ended.
    Bottom,
    /// Too many frames did not match.
    Unreliable,
}

/// What to do next.
#[derive(Clone, Copy, Debug, PartialEq, Eq, Structural)]
pub enum CaptureAction {
    /// Scroll by so many notches, wait so many milliseconds, and capture.
    Scroll { notches: i32, settle_ms: u64 },
    /// Wait so many milliseconds, and capture the same position again.
    Recapture { settle_ms: u64 },
    /// Stop, and stitch what was captured.
    Finish(StopReason),
}

/// What a frame shows about the page, next to the frame before it.
#[derive(Clone, Copy, Debug, PartialEq, Eq, Structural)]
pub enum FrameEvidence {
    /// It stands still.
    Stagnant,
    /// It moved, and so many rows show again.
    Measured(u32),
    /// It cannot be told.
    Unmatched,
}

/// What two frames show. Where they look still, only an overlap that proves progress counts.
pub open spec fn evidence(previous: Raster, next: Raster) -> FrameEvidence {
    let overlap = crate::overlap::vertical_overlap(previous, next);
    if crate::stitch::near_stagnant(previous, next) {
        match overlap {
            Some(overlap) => if crate::stitch::shows_progress(previous, next, overlap) {
                FrameEvidence::Measured(overlap)
            } else {
                FrameEvidence::Stagnant
            },
            None => FrameEvidence::Stagnant,
        }
    } else {
        match overlap {
            Some(overlap) => FrameEvidence::Measured(overlap),
            None => FrameEvidence::Unmatched,
        }
    }
}

/// The overlap is what the two frames show.
#[verifier::opaque]
pub open spec fn is_measured(previous: Raster, next: Raster, overlap: u32) -> bool {
    crate::overlap::vertical_overlap(previous, next) == Some(overlap)
}

/// A measured overlap is what the two frames show.
proof fn lemma_measured(previous: Raster, next: Raster)
    ensures
        evidence(previous, next) matches FrameEvidence::Measured(overlap) ==> is_measured(
            previous,
            next,
            overlap,
        ),
{
    reveal(is_measured);
}

/// Judges a frame by the one before it.
pub fn judge_frame(previous: &Frame, next: &Frame) -> (shown: FrameEvidence)
    requires
        previous.wf(),
        next.wf(),
    ensures
        shown == evidence(previous@, next@),
        shown matches FrameEvidence::Measured(overlap) ==> overlap < next.height,
{
    let overlap: Option<u32> = detect_vertical_overlap(previous, next, None);
    if frames_near_stagnant(previous, next) {
        match overlap {
            Some(rows) => if scroll_progress_evident(previous, next, rows) {
                FrameEvidence::Measured(rows)
            } else {
                FrameEvidence::Stagnant
            },
            None => FrameEvidence::Stagnant,
        }
    } else {
        match overlap {
            Some(rows) => FrameEvidence::Measured(rows),
            None => FrameEvidence::Unmatched,
        }
    }
}

/// Where a capture stands.
pub struct SessionState {
    /// The frames that are kept.
    pub frames: Seq<Raster>,
    /// How far each kept frame after the first overlaps the one before it.
    pub overlaps: Seq<u32>,
    /// What the frames showed.
    pub history: History,
    /// How many scroll steps were taken.
    pub scrolls: nat,
    /// How many captures of this scroll step came to nothing.
    pub attempt: nat,
    /// Whether another frame is awaited.
    pub running: bool,
}

impl SessionState {
    /// The overlaps fit the frames, the frames have one size, and no count is over its limit.
    pub open spec fn wf(self, settings: ScrollSettings) -> bool {
        &&& self.frames.len() == self.overlaps.len() + 1
        &&& forall|i: int|
            0 <= i < self.frames.len() ==> (#[trigger] self.frames[i]).width == self.frames[0].width
                && self.frames[i].height == self.frames[0].height
        &&& forall|i: int|
            0 <= i < self.overlaps.len() ==> #[trigger] self.overlaps[i] < self.frames[0].height
        &&& self.history.wf()
        &&& self.history.overlaps.len() <= self.overlaps.len()
        &&& self.scrolls <= settings.max_scrolls
        &&& self.attempt < CAPTURE_ATTEMPTS_PER_SCROLL
        &&& self.running ==> {
            &&& self.history.stagnant < crate::capture_progress::BOTTOM_CONFIRMATIONS
            &&& self.history.unmatched < crate::capture_progress::MAX_CONSECUTIVE_RETRIES
        }
    }

    /// How far to scroll: after a frame that did not match, only one notch.
    pub open spec fn notches(self, settings: ScrollSettings) -> i32 {
        if self.history.unmatched > 0 {
            1
        } else {
            settings.wheel_notches
        }
    }

    /// How long to wait: after a frame that did not match, twice as long.
    pub open spec fn settle_ms(self, settings: ScrollSettings) -> u64 {
        if self.history.unmatched == 0 {
            settings.settle_ms
        } else if settings.settle_ms * 2 > u64::MAX {
            u64::MAX
        } else {
            (settings.settle_ms * 2) as u64
        }
    }

    /// How long to wait before the same position is captured again.
    pub open spec fn retry_settle_ms(settings: ScrollSettings) -> u64 {
        if settings.settle_ms / 2 < MIN_RETRY_SETTLE_MS {
            MIN_RETRY_SETTLE_MS
        } else {
            settings.settle_ms / 2
        }
    }

    /// The capture has ended.
    pub open spec fn stopped(self) -> SessionState {
        SessionState { running: false, ..self }
    }

    /// The next scroll step, or the end where none is left.
    pub open spec fn scroll_on(self, settings: ScrollSettings) -> (SessionState, CaptureAction) {
        if self.scrolls >= settings.max_scrolls {
            (self.stopped(), CaptureAction::Finish(StopReason::ScrollLimit))
        } else {
            (
                SessionState { scrolls: self.scrolls + 1, attempt: 0, running: true, ..self },
                CaptureAction::Scroll {
                    notches: self.notches(settings),
                    settle_ms: self.settle_ms(settings),
                },
            )
        }
    }

    /// What comes of a frame and what it shows. Without an action the capture has failed.
    pub open spec fn step(
        self,
        settings: ScrollSettings,
        next: Raster,
        shown: FrameEvidence,
    ) -> (SessionState, Option<CaptureAction>) {
        match shown {
            FrameEvidence::Measured(overlap) => {
                let history = self.history.with_measured(overlap, Some(next.height as u32));
                if history.measured_decision(overlap) == CaptureDecision::ReachedBottom {
                    (
                        SessionState { history, ..self }.stopped(),
                        Some(CaptureAction::Finish(StopReason::Bottom)),
                    )
                } else {
                    let (state, action) = SessionState {
                        history,
                        frames: self.frames.push(next),
                        overlaps: self.overlaps.push(overlap),
                        ..self
                    }.scroll_on(settings);
                    (state, Some(action))
                }
            },
            FrameEvidence::Stagnant => {
                let history = self.history.with_stagnant();
                if history.stagnant_decision() == CaptureDecision::ReachedBottom {
                    (
                        SessionState { history, ..self }.stopped(),
                        Some(CaptureAction::Finish(StopReason::Bottom)),
                    )
                } else {
                    let (state, action) = SessionState { history, ..self }.scroll_on(settings);
                    (state, Some(action))
                }
            },
            FrameEvidence::Unmatched => {
                if self.attempt + 1 < CAPTURE_ATTEMPTS_PER_SCROLL {
                    (
                        SessionState { attempt: self.attempt + 1, ..self },
                        Some(
                            CaptureAction::Recapture {
                                settle_ms: SessionState::retry_settle_ms(settings),
                            },
                        ),
                    )
                } else {
                    let history = self.history.with_unmatched();
                    if history.unmatched_decision() == CaptureDecision::StopUnreliable {
                        (
                            SessionState { history, ..self }.stopped(),
                            if self.frames.len() == 1 {
                                None
                            } else {
                                Some(CaptureAction::Finish(StopReason::Unreliable))
                            },
                        )
                    } else {
                        let (state, action) = SessionState { history, ..self }.scroll_on(settings);
                        (state, Some(action))
                    }
                }
            },
        }
    }

    /// Each overlap is what the two frames beside it show. None is a guess.
    pub open spec fn seams_are_measured(self) -> bool {
        forall|i: int|
            0 <= i < self.overlaps.len() ==> is_measured(
                self.frames[i],
                self.frames[i + 1],
                #[trigger] self.overlaps[i],
            )
    }

    /// How many more captures there can be.
    pub open spec fn captures_left(self, settings: ScrollSettings) -> int {
        if self.running {
            (settings.max_scrolls - self.scrolls) * CAPTURE_ATTEMPTS_PER_SCROLL
                + CAPTURE_ATTEMPTS_PER_SCROLL - self.attempt
        } else {
            0
        }
    }
}

/// A step takes away no frame and no overlap, and adds at most this frame.
pub proof fn steps_only_append(
    state: SessionState,
    settings: ScrollSettings,
    next: Raster,
    shown: FrameEvidence,
)
    ensures
        ({
            let after = state.step(settings, next, shown).0;
            ||| after.frames == state.frames && after.overlaps == state.overlaps
            ||| exists|overlap: u32| #[trigger]
                state.overlaps.push(overlap) == after.overlaps && shown == FrameEvidence::Measured(
                    overlap,
                ) && after.frames == state.frames.push(next)
        }),
{
    if let FrameEvidence::Measured(overlap) = shown {
        let same = state.overlaps.push(overlap);
    }
}

/// A frame that is judged by the last kept one adds no seam that was not measured between the two.
pub proof fn no_seam_is_guessed(state: SessionState, settings: ScrollSettings, next: Raster)
    requires
        state.wf(settings),
        state.seams_are_measured(),
    ensures
        state.step(settings, next, evidence(state.frames.last(), next)).0.seams_are_measured(),
{
    let shown = evidence(state.frames.last(), next);
    lemma_measured(state.frames.last(), next);
    lemma_seams(state, settings, next, shown);
}

/// A step adds no seam but the measured one.
proof fn lemma_seams(
    state: SessionState,
    settings: ScrollSettings,
    next: Raster,
    shown: FrameEvidence,
)
    requires
        state.wf(settings),
        state.seams_are_measured(),
        shown matches FrameEvidence::Measured(overlap) ==> is_measured(
            state.frames.last(),
            next,
            overlap,
        ),
    ensures
        state.step(settings, next, shown).0.seams_are_measured(),
{
    let after = state.step(settings, next, shown).0;
    assert forall|i: int| 0 <= i < after.overlaps.len() implies is_measured(
        after.frames[i],
        after.frames[i + 1],
        #[trigger] after.overlaps[i],
    ) by {
        if i < state.overlaps.len() {
            assert(after.overlaps[i] == state.overlaps[i]);
            assert(after.frames[i] == state.frames[i]);
            assert(after.frames[i + 1] == state.frames[i + 1]);
        }
    }
}

/// Kept frames can be stitched, where the rows that stay the same in all of them leave a row below
/// each overlap.
pub proof fn kept_frames_go_together(state: SessionState, settings: ScrollSettings)
    requires
        state.wf(settings),
        forall|i: int|
            0 <= i < state.overlaps.len() ==> #[trigger] state.overlaps[i] < state.frames[0].height
                - crate::edges::static_edges(state.frames).0 - crate::edges::static_edges(
                state.frames,
            ).1,
    ensures
        crate::stitch::go_together(crate::stitch::trimmed(state.frames), state.overlaps),
{
    let cut = crate::stitch::trimmed(state.frames);
    crate::edges::edges_fit_every_frame(state.frames);
    assert forall|i: int| 1 <= i < cut.len() implies (#[trigger] cut[i]).width == cut[0].width
        && state.overlaps[i - 1] < cut[i].height by {
        let edges = crate::edges::static_edges(state.frames);
        assert(state.overlaps[i - 1] < state.frames[0].height - edges.0 - edges.1);
        assert(state.frames[i].height == state.frames[0].height);
    }
}

/// A capture comes to an end: each frame leaves fewer captures to come, and with none left it has
/// stopped.
pub proof fn captures_run_out(
    state: SessionState,
    settings: ScrollSettings,
    next: Raster,
    shown: FrameEvidence,
)
    requires
        state.wf(settings),
        state.running,
    ensures
        0 <= state.step(settings, next, shown).0.captures_left(settings) < state.captures_left(
            settings,
        ),
        state.step(settings, next, shown).0.captures_left(settings) == 0 <==> !state.step(
            settings,
            next,
            shown,
        ).0.running,
{
}

/// A capture that ends for any reason but failure keeps the first frame, and one that fails had
/// kept no other.
pub proof fn failure_loses_no_seam(
    state: SessionState,
    settings: ScrollSettings,
    next: Raster,
    shown: FrameEvidence,
)
    requires
        state.wf(settings),
    ensures
        state.step(settings, next, shown).0.frames[0] == state.frames[0],
        state.step(settings, next, shown).1 is None ==> state.frames.len() == 1 && shown
            == FrameEvidence::Unmatched,
{
}

/// The next sleep of a wait, and after it the ones that follow.
pub open spec fn settle_sleeps(settle_ms: u64, waited_ms: u64) -> Seq<u64>
    decreases settle_ms - waited_ms,
{
    match sleep_after(settle_ms, waited_ms) {
        None => Seq::empty(),
        Some(sleep) => seq![sleep] + settle_sleeps(settle_ms, (waited_ms + sleep) as u64),
    }
}

/// How long to sleep after having waited some of the time.
pub open spec fn sleep_after(settle_ms: u64, waited_ms: u64) -> Option<u64> {
    if waited_ms >= settle_ms {
        None
    } else if settle_ms - waited_ms < ESC_POLL_INTERVAL_MS {
        Some((settle_ms - waited_ms) as u64)
    } else {
        Some(ESC_POLL_INTERVAL_MS)
    }
}

/// The sleeps of a wait, added up.
pub open spec fn total_sleep(sleeps: Seq<u64>) -> int
    decreases sleeps.len(),
{
    if sleeps.len() == 0 {
        0
    } else {
        sleeps[0] + total_sleep(sleeps.skip(1))
    }
}

/// The sleeps of a wait make up its whole time, and none of them is longer than the key may go
/// unseen.
pub proof fn sleeps_make_up_the_wait(settle_ms: u64, waited_ms: u64)
    requires
        waited_ms <= settle_ms,
    ensures
        total_sleep(settle_sleeps(settle_ms, waited_ms)) == settle_ms - waited_ms,
        forall|i: int|
            0 <= i < settle_sleeps(settle_ms, waited_ms).len() ==> 0 < #[trigger] settle_sleeps(
                settle_ms,
                waited_ms,
            )[i] <= ESC_POLL_INTERVAL_MS,
    decreases settle_ms - waited_ms,
{
    if let Some(sleep) = sleep_after(settle_ms, waited_ms) {
        let rest = settle_sleeps(settle_ms, (waited_ms + sleep) as u64);
        sleeps_make_up_the_wait(settle_ms, (waited_ms + sleep) as u64);
        assert((seq![sleep] + rest).skip(1) =~= rest);
    }
}

/// How long to sleep next while the page settles, until it has settled.
pub fn settle_step(settle_ms: u64, waited_ms: u64) -> (sleep: Option<u64>)
    ensures
        sleep == sleep_after(settle_ms, waited_ms),
        sleep matches Some(ms) ==> waited_ms + ms <= settle_ms,
{
    if waited_ms >= settle_ms {
        None
    } else if settle_ms - waited_ms < ESC_POLL_INTERVAL_MS {
        Some(settle_ms - waited_ms)
    } else {
        Some(ESC_POLL_INTERVAL_MS)
    }
}

/// Refuses a frame that comes in another size than the one before it.
pub fn validate_frame_dimensions(previous: &Frame, next: &Frame) -> (checked: AppResult<()>)
    ensures
        checked is Ok <==> (previous.width, previous.height) == (next.width, next.height),
        checked matches Err(error) ==> error == (AppError::FrameSizeChanged {
            expected_width: previous.width,
            expected_height: previous.height,
            actual_width: next.width,
            actual_height: next.height,
        }),
{
    if previous.width != next.width || previous.height != next.height {
        return Err(
            AppError::FrameSizeChanged {
                expected_width: previous.width,
                expected_height: previous.height,
                actual_width: next.width,
                actual_height: next.height,
            },
        );
    }
    Ok(())
}

/// The overlaps of a capture, told in short.
#[derive(Debug)]
pub struct OverlapSummary {
    /// How many overlaps the kept frames have.
    pub kept: usize,
    /// The last ten measured overlaps.
    pub recent: Vec<u32>,
    /// How many overlaps were measured.
    pub measured: usize,
    /// The measured overlaps, added up.
    pub total: u128,
}

/// The first `n` overlaps, added up.
pub open spec fn overlap_total(overlaps: Seq<u32>, n: nat) -> int
    decreases n,
{
    if n == 0 {
        0
    } else {
        overlap_total(overlaps, (n - 1) as nat) + overlaps[n - 1]
    }
}

/// Tells measured overlaps in short, unless there are none.
pub fn summarize_overlaps(measured: &[u32], kept: usize) -> (summary: Option<OverlapSummary>)
    ensures
        summary is Some <==> measured@.len() > 0,
        summary matches Some(told) ==> {
            &&& told.kept == kept
            &&& told.measured == measured@.len()
            &&& told.total == overlap_total(measured@, measured@.len())
            &&& told.recent@ == measured@.skip(
                if measured@.len() < 10 {
                    0
                } else {
                    measured@.len() - 10
                },
            )
        },
{
    let count: usize = measured.len();
    if count == 0 {
        return None;
    }
    let start: usize = count.saturating_sub(10);
    let mut recent: Vec<u32> = Vec::new();
    let mut total: u128 = 0;
    let mut i: usize = 0;
    while i < count
        invariant
            i <= count,
            count == measured@.len(),
            start <= count,
            total == overlap_total(measured@, i as nat),
            total <= i * u32::MAX,
            i <= start ==> recent@.len() == 0,
            i > start ==> recent@ == measured@.subrange(start as int, i as int),
        decreases count - i,
    {
        total = total + measured[i] as u128;
        if i >= start {
            recent.push(measured[i]);
        }
        i += 1;
    }
    assert(recent@ =~= measured@.skip(start as int));
    Some(OverlapSummary { kept, recent, measured: count, total })
}

/// A capture under way.
#[derive(Debug)]
pub struct CaptureSession {
    frames: Vec<Frame>,
    overlaps: Vec<u32>,
    progress: CaptureProgress,
    settings: ScrollSettings,
    scrolls: usize,
    attempt: usize,
    running: bool,
}

impl View for CaptureSession {
    type V = SessionState;

    closed spec fn view(&self) -> SessionState {
        SessionState {
            frames: crate::stitch::views(self.frames@),
            overlaps: self.overlaps@,
            history: self.progress@,
            scrolls: self.scrolls as nat,
            attempt: self.attempt as nat,
            running: self.running,
        }
    }
}

impl CaptureSession {
    /// How the page is to be scrolled.
    pub closed spec fn settings(&self) -> ScrollSettings {
        self.settings
    }

    /// The frames are whole, and the state keeps its limits.
    pub closed spec fn wf(&self) -> bool {
        &&& self@.wf(self.settings())
        &&& forall|i: int| 0 <= i < self.frames@.len() ==> (#[trigger] self.frames@[i]).wf()
    }

    /// Starts a capture with its first frame.
    pub fn start(first: Frame, settings: ScrollSettings) -> (begun: (CaptureSession, CaptureAction))
        requires
            first.wf(),
        ensures
            begun.0.wf(),
            begun.0.settings() == settings,
            begun.0@.seams_are_measured(),
            (begun.0@, begun.1) == (SessionState {
                frames: seq![first@],
                overlaps: Seq::empty(),
                history: (History { overlaps: Seq::empty(), stagnant: 0, unmatched: 0 }),
                scrolls: 0,
                attempt: 0,
                running: true,
            }).scroll_on(settings),
    {
        let mut frames: Vec<Frame> = Vec::new();
        frames.push(first);
        let mut session = CaptureSession {
            frames,
            overlaps: Vec::new(),
            progress: CaptureProgress::default(),
            settings,
            scrolls: 0,
            attempt: 0,
            running: true,
        };
        assert(session@.frames =~= seq![first@]);
        let action: CaptureAction = session.scroll_on();
        (session, action)
    }

    /// Takes the next scroll step, where one is left.
    fn scroll_on(&mut self) -> (action: CaptureAction)
        requires
            old(self).wf(),
            old(self)@.history.stagnant < crate::capture_progress::BOTTOM_CONFIRMATIONS,
            old(self)@.history.unmatched < crate::capture_progress::MAX_CONSECUTIVE_RETRIES,
        ensures
            final(self).wf(),
            final(self).settings() == old(self).settings(),
            (final(self)@, action) == old(self)@.scroll_on(old(self).settings()),
    {
        if self.scrolls >= self.settings.max_scrolls {
            self.running = false;
            return CaptureAction::Finish(StopReason::ScrollLimit);
        }
        let recovering: bool = self.progress.is_recovering();
        let notches: i32 = if recovering {
            1
        } else {
            self.settings.wheel_notches
        };
        let settle_ms: u64 = if !recovering {
            self.settings.settle_ms
        } else if self.settings.settle_ms > u64::MAX / 2 {
            u64::MAX
        } else {
            self.settings.settle_ms * 2
        };
        self.scrolls = self.scrolls + 1;
        self.attempt = 0;
        self.running = true;
        CaptureAction::Scroll { notches, settle_ms }
    }

    /// Takes in a frame and what it shows, and says what to do next.
    pub fn apply_evidence(&mut self, next: Frame, shown: FrameEvidence) -> (action: AppResult<
        CaptureAction,
    >)
        requires
            old(self).wf(),
            old(self)@.running,
            next.wf(),
            next.width == old(self)@.frames[0].width,
            next.height == old(self)@.frames[0].height,
            shown matches FrameEvidence::Measured(overlap) ==> overlap < next.height,
        ensures
            final(self).wf(),
            final(self).settings() == old(self).settings(),
            final(self)@ == old(self)@.step(old(self).settings(), next@, shown).0,
            match old(self)@.step(old(self).settings(), next@, shown).1 {
                Some(wanted) => action matches Ok(given) && given == wanted,
                None => action matches Err(AppError::OverlapNotFound),
            },
    {
        let height: u32 = next.height;
        let decision: CaptureDecision = match shown {
            FrameEvidence::Measured(overlap) => {
                self.progress.record_measured_with_height(overlap, Some(height))
            },
            FrameEvidence::Stagnant => self.progress.record_stagnant(),
            FrameEvidence::Unmatched => {
                if self.attempt + 1 < CAPTURE_ATTEMPTS_PER_SCROLL {
                    self.attempt = self.attempt + 1;
                    let half: u64 = self.settings.settle_ms / 2;
                    let settle_ms: u64 = if half < MIN_RETRY_SETTLE_MS {
                        MIN_RETRY_SETTLE_MS
                    } else {
                        half
                    };
                    return Ok(CaptureAction::Recapture { settle_ms });
                }
                self.progress.record_unmatched()
            },
        };
        match decision {
            CaptureDecision::AppendMeasured(overlap) => {
                let ghost before = self.frames@;
                self.overlaps.push(overlap);
                self.frames.push(next);
                assert(crate::stitch::views(self.frames@) =~= crate::stitch::views(before).push(
                    next@,
                ));
                Ok(self.scroll_on())
            },
            CaptureDecision::Retry => Ok(self.scroll_on()),
            CaptureDecision::ReachedBottom => {
                self.running = false;
                Ok(CaptureAction::Finish(StopReason::Bottom))
            },
            CaptureDecision::StopUnreliable => {
                self.running = false;
                if self.frames.len() == 1 {
                    Err(AppError::OverlapNotFound)
                } else {
                    Ok(CaptureAction::Finish(StopReason::Unreliable))
                }
            },
        }
    }

    /// Takes in a frame, and says what to do next. A frame of another size than the one before it
    /// is refused.
    pub fn record_frame(&mut self, next: Frame) -> (action: AppResult<CaptureAction>)
        requires
            old(self).wf(),
            old(self)@.running,
            next.wf(),
        ensures
            final(self).wf(),
            final(self).settings() == old(self).settings(),
            old(self)@.seams_are_measured() ==> final(self)@.seams_are_measured(),
            ({
                let last = old(self)@.frames.last();
                let step = old(self)@.step(
                    old(self).settings(),
                    next@,
                    evidence(last, next@),
                );
                if (last.width, last.height) != (next@.width, next@.height) {
                    &&& final(self)@ == old(self)@
                    &&& action matches Err(error)
                    &&& error == (AppError::FrameSizeChanged {
                        expected_width: last.width as u32,
                        expected_height: last.height as u32,
                        actual_width: next.width,
                        actual_height: next.height,
                    })
                } else {
                    &&& final(self)@ == step.0
                    &&& match step.1 {
                        Some(wanted) => action matches Ok(given) && given == wanted,
                        None => action matches Err(AppError::OverlapNotFound),
                    }
                }
            }),
    {
        let last: usize = self.frames.len() - 1;
        assert(self@.frames.last() == self.frames@[last as int]@);
        if let Err(error) = validate_frame_dimensions(&self.frames[last], &next) {
            return Err(error);
        }
        let shown: FrameEvidence = judge_frame(&self.frames[last], &next);
        proof {
            if self@.seams_are_measured() {
                no_seam_is_guessed(self@, self.settings(), next@);
            }
        }
        self.apply_evidence(next, shown)
    }

    /// Stops the capture and keeps what there is.
    pub fn cancel(&mut self) -> (action: CaptureAction)
        requires
            old(self).wf(),
        ensures
            final(self).wf(),
            final(self).settings() == old(self).settings(),
            final(self)@ == old(self)@.stopped(),
            action == CaptureAction::Finish(StopReason::Cancelled),
    {
        self.running = false;
        CaptureAction::Finish(StopReason::Cancelled)
    }

    /// The frames that are kept.
    pub fn frames(&self) -> (frames: &[Frame])
        requires
            self.wf(),
        ensures
            crate::stitch::views(frames@) == self@.frames,
            forall|i: int| 0 <= i < frames@.len() ==> (#[trigger] frames@[i]).wf(),
    {
        self.frames.as_slice()
    }

    /// The overlaps of the frames that are kept.
    pub fn overlaps(&self) -> (overlaps: &[u32])
        ensures
            overlaps@ == self@.overlaps,
    {
        self.overlaps.as_slice()
    }

    /// How many frames in a row did not match.
    pub fn recovery_attempts(&self) -> (attempts: usize)
        ensures
            attempts == self@.history.unmatched,
    {
        self.progress.recovery_attempts()
    }

    /// The measured overlaps in short, unless there are none.
    pub fn summary(&self) -> (summary: Option<OverlapSummary>)
        ensures
            summary is Some <==> self@.history.overlaps.len() > 0,
            summary matches Some(told) ==> {
                &&& told.kept == self@.overlaps.len()
                &&& told.measured == self@.history.overlaps.len()
                &&& told.total == overlap_total(
                    self@.history.overlaps,
                    self@.history.overlaps.len(),
                )
                &&& told.recent@ == self@.history.overlaps.skip(
                    if self@.history.overlaps.len() < 10 {
                        0
                    } else {
                        self@.history.overlaps.len() - 10
                    },
                )
            },
    {
        summarize_overlaps(self.progress.measured_overlaps(), self.overlaps.len())
    }
}

} // verus!
