//! When a capture goes on and when it ends.

use crate::capture_progress::{CaptureDecision, History};
use vstd::prelude::*;

verus! {

/// A frame with two new rows or more is progress, whatever came before: it is kept, its overlap is
/// remembered, and both counts start anew.
pub proof fn two_new_rows_are_progress(history: History, overlap: u32, height: u32)
    requires
        overlap + 2 <= height,
    ensures
        ({
            let after = history.with_measured(overlap, Some(height));
            &&& after.overlaps == history.overlaps.push(overlap)
            &&& after.stagnant == 0
            &&& after.unmatched == 0
            &&& after.measured_decision(overlap) == CaptureDecision::AppendMeasured(overlap)
        }),
{
}

/// Without a height, or with less than two overlaps to compare with, a measured frame is progress.
pub proof fn progress_without_comparison(
    history: History,
    overlap: u32,
    frame_height: Option<u32>,
)
    requires
        frame_height is None || history.overlaps.len() < 2,
    ensures
        ({
            let after = history.with_measured(overlap, frame_height);
            &&& after.overlaps == history.overlaps.push(overlap)
            &&& after.stagnant == 0
            &&& after.unmatched == 0
            &&& after.measured_decision(overlap) == CaptureDecision::AppendMeasured(overlap)
        }),
{
}

/// The overlaps that count for the usual step: the last five.
pub open spec fn last_overlaps(history: History) -> Seq<u32> {
    if history.overlaps.len() <= 5 {
        history.overlaps
    } else {
        history.overlaps.subrange(history.overlaps.len() - 5, history.overlaps.len() as int)
    }
}

/// The usual overlap stands in the middle of the last five: it is one of them, so placed in
/// ascending order that half of them, rounded down, come before it.
pub proof fn the_usual_overlap_is_a_median(history: History) -> (arranged: Seq<u32>)
    requires
        history.overlaps.len() >= 2,
    ensures
        arranged.to_multiset() == last_overlaps(history).to_multiset(),
        arranged.len() == last_overlaps(history).len(),
        forall|i: int, j: int| 0 <= i <= j < arranged.len() ==> arranged[i] <= arranged[j],
        history.median() == Some(arranged[arranged.len() as int / 2]),
{
    let last = last_overlaps(history);
    let start = if history.overlaps.len() < 5 {
        0
    } else {
        history.overlaps.len() - 5
    };
    assert(history.overlaps.skip(start as int) =~= last);
    let arranged = crate::math::sorted(last);
    last.lemma_sort_by_ensures(crate::math::ascending());
    broadcast use vstd::seq_lib::group_to_multiset_ensures;

    assert(arranged.to_multiset().len() == arranged.len());
    assert(last.to_multiset().len() == last.len());
    assert forall|i: int, j: int| 0 <= i <= j < arranged.len() implies arranged[i]
        <= arranged[j] by {
        if i < j {
            assert(crate::math::ascending()(arranged[i], arranged[j]));
        }
    }
    arranged
}

/// A bound that holds of the last overlaps holds of the usual one.
proof fn lemma_usual_overlap(history: History, low: int, high: int)
    requires
        history.overlaps.len() >= 2,
        forall|i: int|
            0 <= i < last_overlaps(history).len() ==> low <= #[trigger] last_overlaps(history)[i]
                <= high,
    ensures
        history.median() is Some,
        low <= history.median()->0 <= high,
{
    let arranged = the_usual_overlap_is_a_median(history);
    let last = last_overlaps(history);
    let usual = arranged[arranged.len() as int / 2];
    last.to_multiset_ensures();
    arranged.to_multiset_ensures();
    assert(arranged.to_multiset().count(usual) > 0) by {
        assert(arranged.contains(usual));
    }
    assert(last.contains(usual));
    let i = choose|i: int| 0 <= i < last.len() && last[i] == usual;
    assert(low <= last[i] <= high);
}

/// A page that used to move by more than four rows, and now by one at most, stands still: the
/// overlap is not remembered, and the frame counts towards the bottom.
pub proof fn one_new_row_at_most_is_a_standstill(history: History, overlap: u32, height: u32)
    requires
        history.overlaps.len() >= 2,
        overlap + 1 >= height,
        forall|i: int|
            0 <= i < last_overlaps(history).len() ==> #[trigger] last_overlaps(history)[i] + 4
                < height,
    ensures
        ({
            let after = history.with_measured(overlap, Some(height));
            &&& after.overlaps == history.overlaps
            &&& after.stagnant == history.stagnant + 1
            &&& after.unmatched == 0
            &&& after.measured_decision(overlap) == if history.stagnant == 0 {
                CaptureDecision::AppendMeasured(overlap)
            } else {
                CaptureDecision::ReachedBottom
            }
        }),
{
    lemma_usual_overlap(history, 0, height - 5);
}

/// A page that never moved by more than four rows goes on, however little it moves.
pub proof fn small_steps_are_progress(history: History, overlap: u32, height: u32)
    requires
        forall|i: int|
            0 <= i < last_overlaps(history).len() ==> #[trigger] last_overlaps(history)[i] + 4
                >= height,
    ensures
        ({
            let after = history.with_measured(overlap, Some(height));
            &&& after.overlaps == history.overlaps.push(overlap)
            &&& after.stagnant == 0
            &&& after.unmatched == 0
            &&& after.measured_decision(overlap) == CaptureDecision::AppendMeasured(overlap)
        }),
{
    if history.overlaps.len() >= 2 {
        lemma_usual_overlap(history, height - 4, u32::MAX as int);
    }
}

/// A frame without progress counts towards the bottom and is dropped, and a match in between makes
/// the count start anew: only two such frames in a row end the capture.
pub proof fn still_frames_count_in_a_row(history: History, overlap: u32, height: u32)
    requires
        overlap + 2 <= height,
    ensures
        history.with_stagnant().stagnant == history.stagnant + 1,
        history.with_stagnant().unmatched == 0,
        history.with_stagnant().overlaps == history.overlaps,
        history.with_stagnant().stagnant_decision() == if history.stagnant == 0 {
            CaptureDecision::Retry
        } else {
            CaptureDecision::ReachedBottom
        },
        history.with_measured(overlap, Some(height)).with_stagnant().stagnant_decision()
            == CaptureDecision::Retry,
        history.with_unmatched().with_stagnant().stagnant_decision() == CaptureDecision::Retry,
{
}

/// A frame without a match is dropped and counted, and anything else in between makes the count
/// start anew: only ten such frames in a row end the capture.
pub proof fn unmatched_frames_count_in_a_row(history: History, overlap: u32, height: u32)
    requires
        overlap + 2 <= height,
    ensures
        history.with_unmatched().unmatched == history.unmatched + 1,
        history.with_unmatched().stagnant == 0,
        history.with_unmatched().overlaps == history.overlaps,
        history.with_unmatched().unmatched_decision() == if history.unmatched < 9 {
            CaptureDecision::Retry
        } else {
            CaptureDecision::StopUnreliable
        },
        history.with_measured(overlap, Some(height)).with_unmatched().unmatched_decision()
            == CaptureDecision::Retry,
        history.with_stagnant().with_unmatched().unmatched_decision() == CaptureDecision::Retry,
{
}

} // verus!
