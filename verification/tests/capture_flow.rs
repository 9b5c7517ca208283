use scrollshot::capture_progress::{CaptureDecision, CaptureProgress};
use scrollshot::error::AppError;
use scrollshot::raster::Frame;
use scrollshot::session::{
    judge_frame, settle_step, summarize_overlaps, validate_frame_dimensions, CaptureAction,
    CaptureSession, FrameEvidence, ScrollSettings, StopReason,
};
use scrollshot::stitch::{
    frames_near_stagnant, is_too_tall, scroll_progress_evident, stable_column_ratio,
    stable_row_ratio, stitch_vertical,
};

const SETTINGS: ScrollSettings =
    ScrollSettings { max_scrolls: 40, settle_ms: 250, wheel_notches: 3 };

fn noise(x: u32, y: u32) -> u8 {
    let mut seed = x.wrapping_mul(2_654_435_761) ^ y.wrapping_mul(2_246_822_519);
    seed ^= seed >> 13;
    seed = seed.wrapping_mul(3_266_489_917);
    (seed >> 24) as u8
}

fn page(width: u32, top: u32, height: u32) -> Frame {
    let mut data = Vec::new();
    for y in top..top + height {
        for x in 0..width {
            data.extend_from_slice(&[noise(x, y), noise(x + 90, y), noise(x, y + 9000), 255]);
        }
    }
    Frame { width, height, data }
}

fn flat(width: u32, height: u32, shade: u8) -> Frame {
    let mut data = Vec::new();
    for _ in 0..width * height {
        data.extend_from_slice(&[shade, shade, shade, 255]);
    }
    Frame { width, height, data }
}

fn begin() -> CaptureSession {
    let (session, action) = CaptureSession::start(page(30, 0, 100), SETTINGS);
    assert_eq!(action, CaptureAction::Scroll { notches: 3, settle_ms: 250 });
    session
}

fn step(session: &mut CaptureSession, shown: FrameEvidence) -> CaptureAction {
    session.apply_evidence(page(30, 50, 100), shown).unwrap()
}

#[test]
fn the_tenth_unmatched_capture_in_a_row_stops() {
    let mut progress = CaptureProgress::default();
    progress.record_measured_with_height(220, None);
    progress.record_measured_with_height(221, None);
    assert!(!progress.is_recovering());
    for attempt in 1..10 {
        assert_eq!(progress.record_unmatched(), CaptureDecision::Retry);
        assert!(progress.is_recovering());
        assert_eq!(progress.recovery_attempts(), attempt);
    }
    assert_eq!(progress.record_unmatched(), CaptureDecision::StopUnreliable);
    assert_eq!(progress.measured_overlaps(), &[220, 221]);
}

#[test]
fn a_match_starts_the_counts_anew() {
    let mut progress = CaptureProgress::default();
    for _ in 0..9 {
        progress.record_unmatched();
    }
    assert_eq!(
        progress.record_measured_with_height(10, Some(100)),
        CaptureDecision::AppendMeasured(10)
    );
    assert_eq!(progress.recovery_attempts(), 0);
    assert_eq!(progress.record_unmatched(), CaptureDecision::Retry);
    assert_eq!(progress.record_stagnant(), CaptureDecision::Retry);
    assert_eq!(progress.recovery_attempts(), 0);
    assert_eq!(progress.record_unmatched(), CaptureDecision::Retry);
    assert_eq!(progress.record_stagnant(), CaptureDecision::Retry);
    assert_eq!(progress.record_stagnant(), CaptureDecision::ReachedBottom);
}

#[test]
fn the_median_is_taken_of_the_last_five_overlaps() {
    let mut progress = CaptureProgress::default();
    assert_eq!(progress.recent_median_overlap(), None);
    progress.record_measured_with_height(500, None);
    assert_eq!(progress.recent_median_overlap(), None);
    progress.record_measured_with_height(100, None);
    assert_eq!(progress.recent_median_overlap(), Some(500));
    for overlap in [300, 200, 400, 50] {
        progress.record_measured_with_height(overlap, None);
    }
    assert_eq!(progress.recent_median_overlap(), Some(200));
}

#[test]
fn a_page_that_always_moved_little_does_not_stand_still() {
    let mut progress = CaptureProgress::default();
    progress.record_measured_with_height(476, None);
    progress.record_measured_with_height(476, None);
    for _ in 0..3 {
        assert_eq!(
            progress.record_measured_with_height(479, Some(480)),
            CaptureDecision::AppendMeasured(479)
        );
    }
    assert_eq!(progress.measured_overlaps().len(), 5);
}

#[test]
fn a_session_without_scroll_steps_ends_at_once() {
    let settings = ScrollSettings { max_scrolls: 0, ..SETTINGS };
    let (session, action) = CaptureSession::start(page(4, 0, 4), settings);
    assert_eq!(action, CaptureAction::Finish(StopReason::ScrollLimit));
    assert_eq!(session.frames().len(), 1);
}

#[test]
fn measured_frames_are_kept() {
    let mut session = begin();
    let action = step(&mut session, FrameEvidence::Measured(50));
    assert_eq!(action, CaptureAction::Scroll { notches: 3, settle_ms: 250 });
    assert_eq!(session.overlaps(), &[50]);
    assert_eq!(session.frames(), &[page(30, 0, 100), page(30, 50, 100)]);
}

#[test]
fn an_unmatched_position_is_captured_once_more() {
    let mut session = begin();
    assert_eq!(
        step(&mut session, FrameEvidence::Unmatched),
        CaptureAction::Recapture { settle_ms: 125 }
    );
    assert_eq!(session.recovery_attempts(), 0);
    assert_eq!(
        step(&mut session, FrameEvidence::Unmatched),
        CaptureAction::Scroll { notches: 1, settle_ms: 500 }
    );
    assert_eq!(session.recovery_attempts(), 1);
    assert_eq!(
        step(&mut session, FrameEvidence::Measured(20)),
        CaptureAction::Scroll { notches: 3, settle_ms: 250 }
    );
    assert_eq!(session.recovery_attempts(), 0);
}

#[test]
fn waits_have_bounds() {
    let quick = ScrollSettings { settle_ms: 10, ..SETTINGS };
    let (mut session, _) = CaptureSession::start(page(30, 0, 100), quick);
    assert_eq!(
        step(&mut session, FrameEvidence::Unmatched),
        CaptureAction::Recapture { settle_ms: 100 }
    );
    let slow = ScrollSettings { settle_ms: u64::MAX - 1, ..SETTINGS };
    let (mut session, _) = CaptureSession::start(page(30, 0, 100), slow);
    step(&mut session, FrameEvidence::Unmatched);
    assert_eq!(
        step(&mut session, FrameEvidence::Unmatched),
        CaptureAction::Scroll { notches: 1, settle_ms: u64::MAX }
    );
}

#[test]
fn two_still_frames_end_a_session() {
    let mut session = begin();
    assert_eq!(
        step(&mut session, FrameEvidence::Stagnant),
        CaptureAction::Scroll { notches: 3, settle_ms: 250 }
    );
    assert_eq!(
        step(&mut session, FrameEvidence::Stagnant),
        CaptureAction::Finish(StopReason::Bottom)
    );
    assert_eq!(session.frames().len(), 1);
}

#[test]
fn a_session_without_any_match_fails() {
    let mut session = begin();
    for _ in 0..19 {
        step(&mut session, FrameEvidence::Unmatched);
    }
    let last = session.apply_evidence(page(30, 50, 100), FrameEvidence::Unmatched);
    assert!(matches!(last, Err(AppError::OverlapNotFound)));
}

#[test]
fn a_session_that_loses_the_page_keeps_what_matched() {
    let mut session = begin();
    step(&mut session, FrameEvidence::Measured(50));
    for _ in 0..19 {
        step(&mut session, FrameEvidence::Unmatched);
    }
    assert_eq!(
        step(&mut session, FrameEvidence::Unmatched),
        CaptureAction::Finish(StopReason::Unreliable)
    );
    assert_eq!(session.frames().len(), 2);
    assert_eq!(session.overlaps(), &[50]);
}

#[test]
fn a_session_ends_with_its_scroll_steps() {
    let settings = ScrollSettings { max_scrolls: 2, ..SETTINGS };
    let (mut session, _) = CaptureSession::start(page(30, 0, 100), settings);
    assert_eq!(
        step(&mut session, FrameEvidence::Measured(50)),
        CaptureAction::Scroll { notches: 3, settle_ms: 250 }
    );
    assert_eq!(
        step(&mut session, FrameEvidence::Measured(50)),
        CaptureAction::Finish(StopReason::ScrollLimit)
    );
    assert_eq!(session.frames().len(), 3);
}

#[test]
fn escape_keeps_the_captured_frames() {
    let mut session = begin();
    step(&mut session, FrameEvidence::Measured(50));
    assert_eq!(session.cancel(), CaptureAction::Finish(StopReason::Cancelled));
    assert_eq!(session.frames().len(), 2);
    let image = stitch_vertical(session.frames(), session.overlaps()).unwrap();
    assert_eq!(image, page(30, 0, 150));
}

#[test]
fn a_session_measures_real_frames() {
    let mut session = begin();
    for top in [40, 75] {
        assert_eq!(
            session.record_frame(page(30, top, 100)).unwrap(),
            CaptureAction::Scroll { notches: 3, settle_ms: 250 }
        );
    }
    assert_eq!(session.overlaps(), &[60, 65]);
    session.record_frame(page(30, 75, 100)).unwrap();
    assert_eq!(
        session.record_frame(page(30, 75, 100)).unwrap(),
        CaptureAction::Finish(StopReason::Bottom)
    );
    let image = stitch_vertical(session.frames(), session.overlaps()).unwrap();
    assert_eq!(image, page(30, 0, 175));
    let told = session.summary().unwrap();
    assert_eq!((told.kept, told.measured, told.total), (2, 2, 125));
    assert_eq!(told.recent, vec![60, 65]);
}

#[test]
fn a_frame_of_another_size_is_refused() {
    let mut session = begin();
    let refused = session.record_frame(page(30, 0, 99));
    assert!(matches!(
        refused,
        Err(AppError::FrameSizeChanged {
            expected_width: 30,
            expected_height: 100,
            actual_width: 30,
            actual_height: 99,
        })
    ));
    assert_eq!(session.frames().len(), 1);
    assert!(validate_frame_dimensions(&page(3, 0, 4), &page(3, 9, 4)).is_ok());
    assert!(validate_frame_dimensions(&page(3, 0, 4), &page(4, 0, 4)).is_err());
}

#[test]
fn frames_are_judged_by_the_frame_before() {
    let first = page(30, 0, 100);
    assert_eq!(judge_frame(&first, &first), FrameEvidence::Stagnant);
    assert_eq!(judge_frame(&first, &page(30, 30, 100)), FrameEvidence::Measured(70));
    assert_eq!(judge_frame(&first, &page(30, 5000, 100)), FrameEvidence::Unmatched);
}

#[test]
fn waiting_is_cut_into_short_sleeps() {
    let mut sleeps = Vec::new();
    let mut waited = 0;
    while let Some(sleep) = settle_step(60, waited) {
        sleeps.push(sleep);
        waited += sleep;
    }
    assert_eq!(sleeps, vec![25, 25, 10]);
    assert_eq!(settle_step(0, 0), None);
    assert_eq!(settle_step(60, 60), None);
}

#[test]
fn summaries_hold_the_last_ten_overlaps() {
    assert!(summarize_overlaps(&[], 3).is_none());
    let measured: Vec<u32> = (1..=12).collect();
    let told = summarize_overlaps(&measured, 13).unwrap();
    assert_eq!(told.recent, (3..=12).collect::<Vec<u32>>());
    assert_eq!((told.kept, told.measured, told.total), (13, 12, 78));
}

#[test]
fn stillness_is_a_share_of_rows_or_columns() {
    let a = flat(20, 60, 100);
    let mut b = flat(20, 60, 100);
    for index in 0..20 * 4 * 10 {
        b.data[index] = 0;
    }
    assert_eq!(stable_row_ratio(&a, &b, 0, 60), (25, 30));
    assert_eq!(stable_column_ratio(&a, &b, 0, 60), (0, 10));
    assert!(!frames_near_stagnant(&a, &b));
    assert_eq!(stable_row_ratio(&a, &b, 10, 50), (25, 25));
    assert!(!frames_near_stagnant(&a, &flat(20, 59, 100)));
    assert!(frames_near_stagnant(&page(20, 0, 33), &page(20, 0, 33)));
    assert!(frames_near_stagnant(&page(20, 0, 32), &page(20, 0, 32)));
    assert!(frames_near_stagnant(&flat(48, 32, 100), &flat(48, 32, 100)));
    assert!(frames_near_stagnant(&flat(1, 1, 7), &flat(1, 1, 7)));
    let empty = Frame { width: 0, height: 10, data: vec![] };
    assert!(!frames_near_stagnant(&empty, &empty));
}

fn corner(width: u32, height: u32, part_width: u32, part_height: u32, shade: u8) -> Frame {
    let mut frame = flat(width, height, 100);
    for y in 0..part_height {
        for x in 0..part_width {
            let at = ((y * width + x) * 4) as usize;
            frame.data[at..at + 3].copy_from_slice(&[shade, shade, shade]);
        }
    }
    frame
}

#[test]
fn a_mean_difference_of_two_is_stillness() {
    let still = flat(100, 100, 100);
    assert!(frames_near_stagnant(&still, &corner(100, 100, 40, 40, 112)));
    assert!(!frames_near_stagnant(&still, &corner(100, 100, 40, 40, 113)));
    assert!(frames_near_stagnant(&still, &corner(100, 100, 50, 50, 108)));
    assert!(!frames_near_stagnant(&still, &corner(100, 100, 50, 50, 109)));
}

fn column(shades: [u8; 4]) -> Frame {
    let mut data = Vec::new();
    for shade in shades {
        data.extend_from_slice(&[shade, shade, shade, 255]);
    }
    Frame { width: 1, height: 4, data }
}

#[test]
fn progress_needs_a_better_shifted_match() {
    let worse = (column([106, 0, 112, 0]), column([100, 0, 106, 0]));
    assert!(!scroll_progress_evident(&worse.0, &worse.1, 2));
    let margin = (column([100, 0, 104, 0]), column([100, 0, 116, 0]));
    assert!(!scroll_progress_evident(&margin.0, &margin.1, 2));
    let bound = (column([98, 0, 101, 0]), column([100, 0, 113, 0]));
    assert!(scroll_progress_evident(&bound.0, &bound.1, 2));
    let short = (column([98, 0, 102, 0]), column([100, 0, 112, 0]));
    assert!(!scroll_progress_evident(&short.0, &short.1, 2));

    let first = page(30, 0, 100);
    let second = page(30, 30, 100);
    assert!(scroll_progress_evident(&first, &second, 70));
    assert!(!scroll_progress_evident(&first, &second, 60));
    assert!(!scroll_progress_evident(&first, &first, 70));
    assert!(!scroll_progress_evident(&first, &second, 100));
    assert!(!scroll_progress_evident(&first, &second, 0));
    assert!(!scroll_progress_evident(&first, &page(30, 30, 99), 70));
}

#[test]
fn stitching_tells_what_is_wrong() {
    let a = page(10, 0, 20);
    assert!(matches!(
        stitch_vertical(&[], &[]),
        Err(AppError::Message(words)) if words == "No frames were captured"
    ));
    assert!(matches!(
        stitch_vertical(&[a.crop_rows(0, 20), page(10, 5, 20)], &[20]),
        Err(AppError::InvalidStitchState)
    ));
    assert!(matches!(stitch_vertical(&[a], &[1]), Err(AppError::InvalidStitchState)));
    let joined = stitch_vertical(&[page(10, 0, 20), page(10, 15, 20)], &[5]).unwrap();
    assert_eq!(joined, page(10, 0, 35));
    assert!(!is_too_tall(&[page(10, 0, 20), page(10, 15, 20)], &[5]));
    let tall = || Frame { width: 0, height: u32::MAX, data: vec![] };
    assert!(is_too_tall(&[tall(), tall()], &[5]));
    assert!(!is_too_tall(&[tall(), tall()], &[]));
    assert!(!is_too_tall(&[tall()], &[]));
}
