//! When to go on capturing, and when to stop.
//!
//! No overlap is ever invented for a frame that does not match: one wrong guess would shift every
//! later seam. A page that moves on its own gets time to settle instead.

use crate::math::sort_ascending;
use vstd::prelude::*;

verus! {

/// So many frames in a row without a match end the capture.
pub const MAX_CONSECUTIVE_RETRIES: usize = 10;

/// So many frames in a row without progress mean that the page has ended.
pub const BOTTOM_CONFIRMATIONS: usize = 2;

/// What to do with a frame.
#[derive(Clone, Copy, Debug, PartialEq, Eq, Structural)]
pub enum CaptureDecision {
    /// Keep it, with this measured overlap.
    AppendMeasured(u32),
    /// Drop it and scroll on.
    Retry,
    /// Drop it and stop: the page has ended.
    ReachedBottom,
    /// Drop it and stop: nothing matches any more.
    StopUnreliable,
}

/// What has been seen so far.
pub struct History {
    /// The overlaps that were measured, in order.
    pub overlaps: Seq<u32>,
    /// How many frames in a row showed no progress.
    pub stagnant: nat,
    /// How many frames in a row did not match.
    pub unmatched: nat,
}

impl History {
    /// A frame cannot be still and unmatched at once, so only one of the two is being counted.
    pub open spec fn wf(self) -> bool {
        self.stagnant == 0 || self.unmatched == 0
    }

    /// The median of the last five overlaps, the upper one of two. Less than two overlaps have
    /// none.
    pub open spec fn median(self) -> Option<u32> {
        if self.overlaps.len() < 2 {
            None
        } else {
            let start = if self.overlaps.len() < 5 {
                0
            } else {
                self.overlaps.len() - 5
            };
            let recent = self.overlaps.skip(start as int);
            Some(crate::math::sorted(recent)[recent.len() as int / 2])
        }
    }

    /// The overlap is all of the frame but one row at most, while the page used to move by more
    /// than four rows.
    pub open spec fn is_standstill(self, overlap: u32, frame_height: Option<u32>) -> bool {
        match (frame_height, self.median()) {
            (Some(height), Some(usual)) => overlap >= height - 1 && height - usual > 4,
            _ => false,
        }
    }

    /// The history after one more frame without progress.
    pub open spec fn with_stagnant(self) -> History {
        History { overlaps: self.overlaps, stagnant: self.stagnant + 1, unmatched: 0 }
    }

    /// The history after one more frame without a match.
    pub open spec fn with_unmatched(self) -> History {
        History { overlaps: self.overlaps, stagnant: 0, unmatched: self.unmatched + 1 }
    }

    /// The history after one more frame with a measured overlap.
    pub open spec fn with_measured(self, overlap: u32, frame_height: Option<u32>) -> History {
        if self.is_standstill(overlap, frame_height) {
            self.with_stagnant()
        } else {
            History { overlaps: self.overlaps.push(overlap), stagnant: 0, unmatched: 0 }
        }
    }

    /// What to do with a frame without progress that led to this history.
    pub open spec fn stagnant_decision(self) -> CaptureDecision {
        if self.stagnant >= BOTTOM_CONFIRMATIONS {
            CaptureDecision::ReachedBottom
        } else {
            CaptureDecision::Retry
        }
    }

    /// What to do with a frame without a match that led to this history.
    pub open spec fn unmatched_decision(self) -> CaptureDecision {
        if self.unmatched >= MAX_CONSECUTIVE_RETRIES {
            CaptureDecision::StopUnreliable
        } else {
            CaptureDecision::Retry
        }
    }

    /// What to do with a frame with a measured overlap that led to this history.
    pub open spec fn measured_decision(self, overlap: u32) -> CaptureDecision {
        if self.stagnant >= BOTTOM_CONFIRMATIONS {
            CaptureDecision::ReachedBottom
        } else {
            CaptureDecision::AppendMeasured(overlap)
        }
    }

    /// The history after `n` more frames without a match.
    pub open spec fn with_unmatched_times(self, n: nat) -> History
        decreases n,
    {
        if n == 0 {
            self
        } else {
            self.with_unmatched_times((n - 1) as nat).with_unmatched()
        }
    }
}

/// No frame makes both counts run at once.
pub proof fn counts_exclude_each_other(
    history: History,
    overlap: u32,
    frame_height: Option<u32>,
)
    ensures
        history.with_stagnant().wf(),
        history.with_unmatched().wf(),
        history.with_measured(overlap, frame_height).wf(),
{
}

/// Two frames in a row without progress end the capture at the bottom, whatever came before.
pub proof fn two_still_frames_end_at_the_bottom(history: History)
    ensures
        history.with_stagnant().with_stagnant().stagnant_decision()
            == CaptureDecision::ReachedBottom,
        history.stagnant == 0 ==> history.with_stagnant().stagnant_decision()
            == CaptureDecision::Retry,
{
}

/// Of frames in a row without a match, the tenth ends the capture, and none before it.
pub proof fn unmatched_frames_are_bounded(history: History, n: nat)
    requires
        history.unmatched == 0,
        0 < n,
    ensures
        history.with_unmatched_times(n).unmatched == n,
        history.with_unmatched_times(n).overlaps == history.overlaps,
        history.with_unmatched_times(n).unmatched_decision() == if n < 10 {
            CaptureDecision::Retry
        } else {
            CaptureDecision::StopUnreliable
        },
    decreases n,
{
    if n > 1 {
        unmatched_frames_are_bounded(history, (n - 1) as nat);
    } else {
        assert(history.with_unmatched_times(0) == history);
    }
}

/// A measured overlap is kept as it was measured, and starts both counts anew, unless the page
/// stands still.
pub proof fn measured_overlaps_are_kept(
    history: History,
    overlap: u32,
    frame_height: Option<u32>,
)
    requires
        !history.is_standstill(overlap, frame_height),
    ensures
        history.with_measured(overlap, frame_height).overlaps == history.overlaps.push(overlap),
        history.with_measured(overlap, frame_height).stagnant == 0,
        history.with_measured(overlap, frame_height).unmatched == 0,
        history.with_measured(overlap, frame_height).measured_decision(overlap)
            == CaptureDecision::AppendMeasured(overlap),
{
}

/// Follows a capture frame by frame.
#[derive(Debug)]
pub struct CaptureProgress {
    measured_overlaps: Vec<u32>,
    stagnant_captures: usize,
    consecutive_unmatched: usize,
}

impl View for CaptureProgress {
    type V = History;

    closed spec fn view(&self) -> History {
        History {
            overlaps: self.measured_overlaps@,
            stagnant: self.stagnant_captures as nat,
            unmatched: self.consecutive_unmatched as nat,
        }
    }
}

impl Default for CaptureProgress {
    fn default() -> (progress: CaptureProgress)
        ensures
            progress@ == (History { overlaps: Seq::empty(), stagnant: 0, unmatched: 0 }),
    {
        CaptureProgress {
            measured_overlaps: Vec::new(),
            stagnant_captures: 0,
            consecutive_unmatched: 0,
        }
    }
}

impl CaptureProgress {
    /// Takes in a frame without progress.
    pub fn record_stagnant(&mut self) -> (decision: CaptureDecision)
        requires
            old(self)@.stagnant < usize::MAX,
        ensures
            final(self)@ == old(self)@.with_stagnant(),
            decision == final(self)@.stagnant_decision(),
    {
        self.stagnant_captures = self.stagnant_captures + 1;
        self.consecutive_unmatched = 0;
        if self.stagnant_captures >= BOTTOM_CONFIRMATIONS {
            CaptureDecision::ReachedBottom
        } else {
            CaptureDecision::Retry
        }
    }

    /// Takes in a frame with a measured overlap, and its height where it is known.
    ///
    /// A measured overlap is more to be trusted than the history: pages do not scroll evenly. It is
    /// never replaced by an average.
    pub fn record_measured_with_height(
        &mut self,
        overlap: u32,
        frame_height: Option<u32>,
    ) -> (decision: CaptureDecision)
        requires
            old(self)@.is_standstill(overlap, frame_height) ==> old(self)@.stagnant < usize::MAX,
        ensures
            final(self)@ == old(self)@.with_measured(overlap, frame_height),
            decision == final(self)@.measured_decision(overlap),
    {
        let no_progress: bool = match (frame_height, self.recent_median_overlap()) {
            (Some(height), Some(usual)) => overlap >= height.saturating_sub(1)
                && height.saturating_sub(usual) > 4,
            _ => false,
        };
        if no_progress {
            return match self.record_stagnant() {
                CaptureDecision::ReachedBottom => CaptureDecision::ReachedBottom,
                _ => CaptureDecision::AppendMeasured(overlap),
            };
        }
        self.measured_overlaps.push(overlap);
        self.stagnant_captures = 0;
        self.consecutive_unmatched = 0;
        CaptureDecision::AppendMeasured(overlap)
    }

    /// Takes in a frame without a match.
    pub fn record_unmatched(&mut self) -> (decision: CaptureDecision)
        requires
            old(self)@.unmatched < usize::MAX,
        ensures
            final(self)@ == old(self)@.with_unmatched(),
            decision == final(self)@.unmatched_decision(),
    {
        self.stagnant_captures = 0;
        self.consecutive_unmatched = self.consecutive_unmatched + 1;
        if self.consecutive_unmatched >= MAX_CONSECUTIVE_RETRIES {
            CaptureDecision::StopUnreliable
        } else {
            CaptureDecision::Retry
        }
    }

    /// The overlaps that were measured.
    pub fn measured_overlaps(&self) -> (overlaps: &[u32])
        ensures
            overlaps@ == self@.overlaps,
    {
        self.measured_overlaps.as_slice()
    }

    /// Whether the last frame did not match.
    pub fn is_recovering(&self) -> (recovering: bool)
        ensures
            recovering == (self@.unmatched > 0),
    {
        self.consecutive_unmatched > 0
    }

    /// How many frames in a row did not match.
    pub fn recovery_attempts(&self) -> (attempts: usize)
        ensures
            attempts == self@.unmatched,
    {
        self.consecutive_unmatched
    }

    /// The median of the last overlaps.
    pub fn recent_median_overlap(&self) -> (median: Option<u32>)
        ensures
            median == self@.median(),
    {
        let count: usize = self.measured_overlaps.len();
        if count < 2 {
            return None;
        }
        let start: usize = count.saturating_sub(5);
        let mut recent: Vec<u32> = Vec::new();
        let mut i: usize = start;
        while i < count
            invariant
                start <= i <= count,
                count == self.measured_overlaps@.len(),
                recent@ == self.measured_overlaps@.subrange(start as int, i as int),
            decreases count - i,
        {
            recent.push(self.measured_overlaps[i]);
            i += 1;
        }
        assert(recent@ =~= self.measured_overlaps@.skip(start as int));
        let arranged: Vec<u32> = sort_ascending(&recent);
        Some(arranged[arranged.len() / 2])
    }
}

} // verus!
