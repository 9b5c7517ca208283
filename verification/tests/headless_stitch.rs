use image::{Rgba, RgbaImage};
use rayon::iter::ParallelIterator;
use rayon::slice::ParallelSlice;
use scrollshot::capture_progress::{CaptureDecision, CaptureProgress};
use scrollshot::overlap::detect_vertical_overlap;
use scrollshot::raster::Frame;
use scrollshot::stitch::{frames_near_stagnant, stitch_vertical};

fn frame(image: &RgbaImage) -> Frame {
    Frame::from_raw(image.width(), image.height(), image.as_raw().clone()).unwrap()
}

fn library_frames(images: &[RgbaImage]) -> Vec<Frame> {
    images.iter().map(frame).collect()
}

fn dense_text_source(width: u32, height: u32) -> RgbaImage {
    let mut image = RgbaImage::from_pixel(width, height, Rgba([248, 248, 246, 255]));

    for y in 0..height {
        for x in 0..width {
            let paper_noise = ((x.wrapping_mul(17) + y.wrapping_mul(13)) % 5) as u8;
            image.put_pixel(
                x,
                y,
                Rgba([248 - paper_noise, 248 - paper_noise, 246 - paper_noise, 255]),
            );
        }
    }

    // Varied glyph-like runs create a dense document without periodic aliases.
    let body_left = 34;
    let body_right = width.saturating_sub(28);
    for line in 0..(height / 14) {
        let baseline = 8 + line * 14;
        let mut x = body_left + ((line * 11) % 17);
        let mut word = 0u32;
        while x + 4 < body_right {
            let seed = line.wrapping_mul(97) ^ word.wrapping_mul(31);
            let word_width = 18 + seed % 46;
            let gap = 5 + seed % 6;
            let ink = 34 + (seed % 34) as u8;
            let end = (x + word_width).min(body_right);
            let mut glyph_x = x;

            while glyph_x < end {
                let glyph_seed = seed ^ glyph_x.wrapping_mul(7);
                let glyph_width = 1 + glyph_seed % 3;
                let glyph_end = (glyph_x + glyph_width).min(end);
                let glyph_top = baseline + (glyph_seed % 3);
                let glyph_bottom = (baseline + 8 + (glyph_seed % 3)).min(height);
                for fill_x in glyph_x..glyph_end {
                    for fill_y in glyph_top..glyph_bottom {
                        image.put_pixel(fill_x, fill_y, Rgba([ink, ink, ink, 255]));
                    }
                }
                glyph_x = glyph_end.saturating_add(1 + glyph_seed % 3);
            }

            x = end.saturating_add(gap);
            word = word.wrapping_add(1);
        }

        if line % 9 == 0 {
            let rule_y = baseline.saturating_add(10);
            if rule_y < height {
                for rule_x in body_left..body_right {
                    image.put_pixel(rule_x, rule_y, Rgba([112, 135, 166, 255]));
                }
            }
        }
    }

    image
}

fn crop(source: &RgbaImage, start_y: u32, height: u32) -> RgbaImage {
    image::imageops::crop_imm(source, 0, start_y, source.width(), height).to_image()
}

fn add_render_noise(image: &RgbaImage, amount: u8) -> RgbaImage {
    let mut noisy = image.clone();
    for (index, pixel) in noisy.pixels_mut().enumerate() {
        let delta = ((index as u32 * 37 + 11) % (amount as u32 * 2 + 1)) as i16 - amount as i16;
        for channel in &mut pixel.0[..3] {
            *channel = (*channel as i16 + delta).clamp(0, 255) as u8;
        }
    }
    noisy
}

fn add_animated_panel(image: &RgbaImage, left: u32, width: u32, value: u8) -> RgbaImage {
    let mut animated = image.clone();
    let right = (left + width).min(animated.width());
    for y in 0..animated.height() {
        for x in left..right {
            animated.put_pixel(x, y, Rgba([value, value.saturating_add(12), value, 255]));
        }
    }
    animated
}

fn add_animated_strip(image: &RgbaImage, top: u32, height: u32, value: u8) -> RgbaImage {
    let mut animated = image.clone();
    let bottom = (top + height).min(animated.height());
    for y in top..bottom {
        for x in 0..animated.width() {
            animated.put_pixel(x, y, Rgba([value, value.saturating_add(12), value, 255]));
        }
    }
    animated
}

fn with_static_sidebar(image: &RgbaImage, width: u32) -> RgbaImage {
    let mut frame = image.clone();
    let sidebar_width = width.min(frame.width());
    for y in 0..frame.height() {
        for x in 0..sidebar_width {
            let shade = if (x / 8 + y / 12) % 2 == 0 { 42 } else { 72 };
            frame.put_pixel(x, y, Rgba([shade, shade, shade, 255]));
        }
    }
    frame
}

fn dark_text_source(width: u32, height: u32) -> RgbaImage {
    let mut image = RgbaImage::from_pixel(width, height, Rgba([30, 32, 35, 255]));
    let body_left = 24;
    let body_right = width.saturating_sub(24);

    for line in 0..(height / 16) {
        let baseline = 4 + line * 16;
        let mut x = body_left + ((line * 13) % 23);
        let mut token = 0u32;
        while x + 3 < body_right {
            let seed = line.wrapping_mul(73) ^ token.wrapping_mul(19);
            let token_width = 8 + seed % 38;
            let token_end = (x + token_width).min(body_right);
            let shade = 150 + (seed % 80) as u8;
            for glyph_x in x..token_end {
                if (glyph_x + line) % 4 != 0 {
                    for glyph_y in baseline..(baseline + 9).min(height) {
                        image.put_pixel(glyph_x, glyph_y, Rgba([shade, shade, shade, 255]));
                    }
                }
            }
            x = token_end.saturating_add(5 + seed % 7);
            token = token.wrapping_add(1);
        }
    }

    image
}

fn fixed_header_frame(
    source: &RgbaImage,
    start_y: u32,
    frame_height: u32,
    header_height: u32,
) -> RgbaImage {
    let mut frame = RgbaImage::from_pixel(
        frame_width(source),
        frame_height,
        Rgba([248, 248, 246, 255]),
    );
    for y in 0..header_height.min(frame_height) {
        for x in 0..source.width() {
            let shade = 30 + ((x + y * 3) % 24) as u8;
            frame.put_pixel(x, y, Rgba([shade, 72, 128, 255]));
        }
    }
    let content_height = frame_height.saturating_sub(header_height);
    let content = crop(source, start_y, content_height);
    image::imageops::replace(&mut frame, &content, 0, header_height as i64);
    frame
}

fn frame_width(source: &RgbaImage) -> u32 {
    source.width()
}

#[derive(Debug, PartialEq, Eq)]
enum HeadlessCaptureEnd {
    ReachedBottom,
    Unreliable,
    ExhaustedInput,
}

#[derive(Clone, Copy)]
enum Shown {
    Stagnant,
    Overlap(Option<u32>),
}

fn compare(previous: &RgbaImage, next: &RgbaImage) -> Shown {
    let (previous, next) = (frame(previous), frame(next));
    if frames_near_stagnant(&previous, &next) {
        Shown::Stagnant
    } else {
        Shown::Overlap(detect_vertical_overlap(&previous, &next, None))
    }
}

fn run_headless_capture(input: &[RgbaImage]) -> (Vec<RgbaImage>, Vec<u32>, HeadlessCaptureEnd) {
    let mut frames = vec![input.first().expect("at least one frame").clone()];
    let mut overlaps = Vec::new();
    let mut progress = CaptureProgress::default();

    // Neighbouring inputs are compared ahead of time, in parallel.
    let neighbours: Vec<Shown> = input
        .par_windows(2)
        .map(|pair| compare(&pair[0], &pair[1]))
        .collect();
    let mut last = 0;

    for (index, next) in input.iter().enumerate().skip(1) {
        let shown = if last + 1 == index {
            neighbours[last]
        } else {
            compare(&input[last], next)
        };
        let decision = match shown {
            Shown::Stagnant => progress.record_stagnant(),
            Shown::Overlap(Some(overlap)) => {
                progress.record_measured_with_height(overlap, Some(next.height()))
            }
            Shown::Overlap(None) => progress.record_unmatched(),
        };

        match decision {
            CaptureDecision::AppendMeasured(overlap) => {
                overlaps.push(overlap);
                frames.push(next.clone());
                last = index;
            }
            CaptureDecision::Retry => {}
            CaptureDecision::ReachedBottom => {
                return (frames, overlaps, HeadlessCaptureEnd::ReachedBottom);
            }
            CaptureDecision::StopUnreliable => {
                return (frames, overlaps, HeadlessCaptureEnd::Unreliable);
            }
        }
    }

    (frames, overlaps, HeadlessCaptureEnd::ExhaustedInput)
}

#[test]
fn dense_text_detects_real_scroll_offsets() {
    let source = dense_text_source(480, 2400);
    let frame_height = 480;
    let offsets = [0, 263, 517, 778];

    for pair in offsets.windows(2) {
        let previous = crop(&source, pair[0], frame_height);
        let current = crop(&source, pair[1], frame_height);
        let expected = frame_height - (pair[1] - pair[0]);
        let detected = detect_vertical_overlap(&frame(&previous), &frame(&current), None)
            .expect("dense text overlap should be detected");
        assert!(
            detected.abs_diff(expected) <= 1,
            "expected overlap {expected}, got {detected}"
        );
    }
}

#[test]
fn dense_text_1280x720_detects_real_scroll_offset() {
    let source = dense_text_source(1280, 2400);
    let frame_height = 720;
    let previous = crop(&source, 0, frame_height);
    let current = crop(&source, 400, frame_height);

    let detected = detect_vertical_overlap(&frame(&previous), &frame(&current), None)
        .expect("high-resolution dense text overlap should be detected");
    assert!(
        detected.abs_diff(320) <= 1,
        "expected overlap 320, got {detected}"
    );
}

#[test]
fn dense_text_stitch_reconstructs_source() {
    let source = dense_text_source(320, 1500);
    let frame_height = 420;
    let starts = [0, 211, 453, 688, 931, 1080];
    let frames: Vec<RgbaImage> = starts
        .iter()
        .map(|start| crop(&source, *start, frame_height))
        .collect();
    let expected: Vec<u32> = starts
        .windows(2)
        .map(|pair| frame_height - (pair[1] - pair[0]))
        .collect();

    let detected: Vec<u32> = frames
        .par_windows(2)
        .map(|pair| detect_vertical_overlap(&frame(&pair[0]), &frame(&pair[1]), None).unwrap())
        .collect();
    assert!(
        detected
            .iter()
            .zip(expected.iter())
            .all(|(actual, expected)| actual.abs_diff(*expected) <= 1),
        "detected overlaps: {detected:?}, expected: {expected:?}"
    );

    let stitched = stitch_vertical(&library_frames(&frames), &detected).unwrap();
    assert_eq!((stitched.width, stitched.height), source.dimensions());
    assert_eq!(stitched, frame(&source));
}

#[test]
fn dense_text_stitch_reconstructs_variable_scroll_steps_pixel_for_pixel() {
    let source = dense_text_source(640, 2400);
    let frame_height = 520;
    let starts = [0, 173, 421, 612, 903, 1177, 1459, 1772];
    let frames: Vec<RgbaImage> = starts
        .iter()
        .map(|start| crop(&source, *start, frame_height))
        .collect();

    let overlaps: Vec<u32> = frames
        .par_windows(2)
        .map(|pair| {
            detect_vertical_overlap(&frame(&pair[0]), &frame(&pair[1]), None)
                .expect("every variable scroll step should have a stable overlap")
        })
        .collect();
    let expected: Vec<u32> = starts
        .windows(2)
        .map(|pair| frame_height - (pair[1] - pair[0]))
        .collect();
    assert!(
        overlaps
            .iter()
            .zip(expected.iter())
            .all(|(actual, expected)| actual.abs_diff(*expected) <= 1),
        "detected overlaps: {overlaps:?}, expected: {expected:?}"
    );

    let stitched = stitch_vertical(&library_frames(&frames), &overlaps).unwrap();
    assert_eq!(
        stitched,
        frame(&crop(&source, 0, starts.last().unwrap() + frame_height))
    );
}

#[test]
fn headless_capture_flow_keeps_variable_scrolls_and_stops_at_bottom() {
    let source = dense_text_source(640, 2400);
    let frame_height = 520;
    let starts = [0, 173, 421, 612, 903, 1177, 1459, 1772];
    let mut input: Vec<RgbaImage> = starts
        .iter()
        .map(|start| crop(&source, *start, frame_height))
        .collect();
    let bottom = input.last().unwrap().clone();
    input.push(add_animated_panel(&bottom, 0, 48, 65));
    input.push(add_animated_panel(&bottom, 0, 48, 130));

    let (frames, overlaps, end) = run_headless_capture(&input);
    assert_eq!(end, HeadlessCaptureEnd::ReachedBottom);
    assert_eq!(frames.len(), starts.len());

    let stitched = stitch_vertical(&library_frames(&frames), &overlaps).unwrap();
    assert_eq!(
        stitched,
        frame(&crop(&source, 0, starts.last().unwrap() + frame_height))
    );
}

#[test]
fn dense_text_tolerates_small_render_noise() {
    let source = dense_text_source(420, 1200);
    let frame_height = 420;
    let previous = crop(&source, 0, frame_height);
    let current = add_render_noise(&crop(&source, 197, frame_height), 1);
    let expected = frame_height - 197;

    let detected = detect_vertical_overlap(&frame(&previous), &frame(&current), None)
        .expect("small render noise should not invalidate overlap");
    assert!(detected.abs_diff(expected) <= 1);
}

#[test]
fn dense_text_recovers_when_history_is_wrong() {
    let source = dense_text_source(420, 1200);
    let previous = crop(&source, 0, 420);
    let current = crop(&source, 197, 420);

    let detected = detect_vertical_overlap(&frame(&previous), &frame(&current), Some(80))
        .expect("a wrong history value must fall back to a full search");
    assert!(detected.abs_diff(223) <= 1);
}

#[test]
fn dark_dense_text_detects_real_scroll_offsets() {
    let source = dark_text_source(480, 1800);
    let previous = crop(&source, 0, 480);
    let current = crop(&source, 251, 480);

    let detected = detect_vertical_overlap(&frame(&previous), &frame(&current), None)
        .expect("dark dense text overlap should be detected");
    assert!(detected.abs_diff(229) <= 1);
}

#[test]
fn dense_text_with_fixed_header_detects_content_overlap() {
    let source = dense_text_source(480, 1800);
    let previous = fixed_header_frame(&source, 0, 480, 48);
    let current = fixed_header_frame(&source, 211, 480, 48);

    let detected = detect_vertical_overlap(&frame(&previous), &frame(&current), None)
        .expect("fixed header must not hide the text overlap");
    assert!(detected.abs_diff(221) <= 1);
}

#[test]
fn dense_text_with_fixed_header_reconstructs_content_once() {
    let source = dense_text_source(320, 1800);
    let frame_height = 420;
    let header_height = 40;
    let starts = [0, 211, 421, 691, 1011, 1370];
    let frames: Vec<RgbaImage> = starts
        .iter()
        .map(|start| fixed_header_frame(&source, *start, frame_height, header_height))
        .collect();
    let overlaps: Vec<u32> = frames
        .par_windows(2)
        .map(|pair| detect_vertical_overlap(&frame(&pair[0]), &frame(&pair[1]), None).unwrap())
        .collect();

    let stitched = stitch_vertical(&library_frames(&frames), &overlaps).unwrap();
    let expected = crop(
        &source,
        0,
        starts.last().copied().unwrap() + frame_height - header_height,
    );
    assert_eq!(stitched, frame(&expected));
}

#[test]
fn uniform_frames_are_rejected_as_ambiguous() {
    let previous = RgbaImage::from_pixel(480, 480, Rgba([245, 245, 245, 255]));
    let current = previous.clone();
    assert!(detect_vertical_overlap(&frame(&previous), &frame(&current), None).is_none());
    assert!(frames_near_stagnant(&frame(&previous), &frame(&current)));
}

#[test]
fn bottom_detection_requires_two_stagnant_captures() {
    let mut progress = CaptureProgress::default();
    assert_eq!(
        progress.record_measured_with_height(220, None),
        CaptureDecision::AppendMeasured(220)
    );
    assert_eq!(
        progress.record_measured_with_height(221, None),
        CaptureDecision::AppendMeasured(221)
    );
    assert_eq!(progress.record_stagnant(), CaptureDecision::Retry);
    assert_eq!(progress.record_stagnant(), CaptureDecision::ReachedBottom);
}

#[test]
fn near_full_overlap_requires_two_bottom_confirmations() {
    let mut progress = CaptureProgress::default();
    progress.record_measured_with_height(220, None);
    progress.record_measured_with_height(221, None);
    assert_eq!(
        progress.record_measured_with_height(479, Some(480)),
        CaptureDecision::AppendMeasured(479)
    );
    assert_eq!(
        progress.record_measured_with_height(479, Some(480)),
        CaptureDecision::ReachedBottom
    );
}

#[test]
fn valid_scroll_variation_never_triggers_bottom_confirmation() {
    let mut progress = CaptureProgress::default();
    for overlap in [220, 247, 191, 291, 226, 264] {
        assert_eq!(
            progress.record_measured_with_height(overlap, None),
            CaptureDecision::AppendMeasured(overlap)
        );
    }
    assert_eq!(progress.record_stagnant(), CaptureDecision::Retry);
}

#[test]
fn localized_animation_at_bottom_is_stagnant() {
    let source = dense_text_source(480, 1200);
    let previous = crop(&source, 400, 480);
    let current = add_animated_panel(&previous, 0, 40, 65);
    assert!(frames_near_stagnant(&frame(&previous), &frame(&current)));
}

#[test]
fn real_dense_text_scroll_is_not_stagnant() {
    let source = dense_text_source(480, 1600);
    let previous = crop(&source, 0, 480);
    let current = crop(&source, 220, 480);
    assert!(!frames_near_stagnant(&frame(&previous), &frame(&current)));
}

#[test]
fn fixed_header_with_real_scroll_is_not_stagnant() {
    let source = dense_text_source(480, 1600);
    let previous = fixed_header_frame(&source, 0, 480, 48);
    let current = fixed_header_frame(&source, 220, 480, 48);
    assert!(!frames_near_stagnant(&frame(&previous), &frame(&current)));
}

#[test]
fn full_width_animated_strip_at_bottom_is_stagnant() {
    let source = dense_text_source(480, 1200);
    let previous = crop(&source, 400, 480);
    let current = add_animated_strip(&previous, 0, 42, 65);
    assert!(frames_near_stagnant(&frame(&previous), &frame(&current)));
}

#[test]
fn static_sidebar_does_not_hide_real_scroll() {
    let source = dense_text_source(480, 1600);
    let previous = with_static_sidebar(&crop(&source, 0, 480), 150);
    let current = with_static_sidebar(&crop(&source, 220, 480), 150);
    assert!(!frames_near_stagnant(&frame(&previous), &frame(&current)));
}

#[test]
fn headless_capture_flow_keeps_what_matched_when_the_page_is_lost() {
    let source = dense_text_source(160, 400);
    let mut input = vec![
        crop(&source, 0, 140),
        crop(&source, 60, 140),
        crop(&source, 115, 140),
    ];
    for _ in 0..10 {
        input.push(RgbaImage::from_pixel(160, 140, Rgba([110, 110, 110, 255])));
    }

    let (frames, overlaps, end) = run_headless_capture(&input);
    assert_eq!(end, HeadlessCaptureEnd::Unreliable);
    assert_eq!(frames.len(), 3);
    assert_eq!(overlaps, vec![80, 85]);

    let (frames, overlaps, end) = run_headless_capture(&input[..12]);
    assert_eq!(end, HeadlessCaptureEnd::ExhaustedInput);
    assert_eq!((frames.len(), overlaps.len()), (3, 2));
}
