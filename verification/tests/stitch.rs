use image::imageops::{self, crop_imm};
use image::{GrayImage, Rgba, RgbaImage};
use scrollshot::difference::sampled_feature_difference;
use scrollshot::edges::{detect_static_edges, StaticEdges};
use scrollshot::features::to_feature_map_from_gray;
use scrollshot::overlap::detect_vertical_overlap;
use scrollshot::raster::{Frame, GrayMap};
use scrollshot::stitch::{frames_near_stagnant, stitch_vertical};
use scrollshot::text_band::detect_text_body_band;

fn frame(image: &RgbaImage) -> Frame {
    Frame::from_raw(image.width(), image.height(), image.as_raw().clone()).unwrap()
}

fn gray_map(image: &GrayImage) -> GrayMap {
    GrayMap { width: image.width(), height: image.height(), data: image.as_raw().clone() }
}

#[test]
fn duplicate_frames_are_detected() {
    let source = build_source(32, 80);
    let image = crop(&source, 0, 40);
    assert!(frames_near_stagnant(&frame(&image), &frame(&image)));
}

#[test]
fn overlap_detection_handles_regular_scroll() {
    let source = build_source(48, 140);
    let first = crop(&source, 0, 60);
    let second = crop(&source, 23, 60);

    assert_eq!(detect_vertical_overlap(&frame(&first), &frame(&second), None), Some(37));
}

#[test]
fn overlap_detection_handles_large_final_overlap() {
    let source = build_source(48, 100);
    let second = crop(&source, 25, 60);
    let third = crop(&source, 40, 60);

    assert_eq!(detect_vertical_overlap(&frame(&second), &frame(&third), None), Some(45));
}

#[test]
fn overlap_detection_handles_tiny_scroll_steps() {
    let source = build_source(48, 120);
    let first = crop(&source, 0, 100);
    let second = crop(&source, 2, 100);

    assert_eq!(detect_vertical_overlap(&frame(&first), &frame(&second), None), Some(98));
}

#[test]
fn uniform_frames_do_not_report_an_ambiguous_overlap() {
    let first = RgbaImage::from_pixel(48, 120, Rgba([245, 245, 245, 255]));
    let second = RgbaImage::from_pixel(48, 120, Rgba([245, 245, 245, 255]));

    assert_eq!(detect_vertical_overlap(&frame(&first), &frame(&second), None), None);
}

#[test]
fn stitching_rebuilds_the_original_image() {
    let source = build_source(40, 115);
    let first = crop(&source, 0, 60);
    let second = crop(&source, 20, 60);
    let third = crop(&source, 55, 60);
    let overlaps = vec![
        detect_vertical_overlap(&frame(&first), &frame(&second), None).unwrap(),
        detect_vertical_overlap(&frame(&second), &frame(&third), None).unwrap(),
    ];

    let stitched = stitch_vertical(&[frame(&first), frame(&second), frame(&third)], &overlaps).unwrap();
    assert_eq!(stitched, frame(&source));
}

#[test]
fn overlap_detection_handles_low_texture_document_like_content() {
    let source = build_document_like_source(64, 180);
    let first = crop(&source, 0, 90);
    let second = crop(&source, 18, 90);

    assert_eq!(detect_vertical_overlap(&frame(&first), &frame(&second), None), Some(72));
}

#[test]
fn blank_page_margins_are_not_mistaken_for_static_edges() {
    let mut source = build_source(64, 220);
    for (start, end) in [(0, 12), (60, 72), (108, 120), (168, 180)] {
        for y in start..end {
            for x in 0..source.width() {
                source.put_pixel(x, y, Rgba([255, 255, 255, 255]));
            }
        }
    }

    let first = crop(&source, 0, 120);
    let second = crop(&source, 60, 120);
    assert_eq!(
        detect_static_edges(&[&frame(&first), &frame(&second)]),
        StaticEdges::default()
    );
    assert_eq!(detect_vertical_overlap(&frame(&first), &frame(&second), None), Some(60));
}

#[test]
fn feature_validation_distinguishes_a_correct_overlap_from_one_line_misalignment() {
    let source = build_document_like_source(120, 320);
    let previous = crop(&source, 0, 160);
    let current = crop(&source, 67, 160);
    let (previous_features, previous_has_features) =
        to_feature_map_from_gray(&gray_map(&imageops::grayscale(&previous)), None);
    let (current_features, current_has_features) =
        to_feature_map_from_gray(&gray_map(&imageops::grayscale(&current)), None);
    assert!(previous_has_features && current_has_features);

    let correct_overlap = 93;
    let correct = sampled_feature_difference(
        &previous_features,
        &current_features,
        previous.height() - correct_overlap,
        0,
        correct_overlap,
        2,
    );
    let one_line_misaligned_overlap = correct_overlap + 14;
    let misaligned = sampled_feature_difference(
        &previous_features,
        &current_features,
        previous.height() - one_line_misaligned_overlap,
        0,
        one_line_misaligned_overlap,
        2,
    );

    let correct = correct.num as f64 / correct.den as f64;
    let misaligned = misaligned.num as f64 / misaligned.den as f64;
    assert!(correct < 0.1, "correct feature difference: {correct}");
    assert!(
        misaligned > 0.25,
        "one-line feature difference should fail validation: {misaligned}"
    );
}

#[test]
fn text_body_band_focuses_on_the_main_document_column() {
    let source = build_sidebar_document_source(120, 220);
    let first = crop(&source, 0, 120);
    let first_gray = imageops::grayscale(&first);
    let band = detect_text_body_band(&gray_map(&first_gray)).unwrap();

    assert!(band.left >= 20);
    assert!(band.width() < first.width());
    assert!(band.width() >= 60);
    assert!(band.left < 40 && band.right > 80);
}

#[test]
fn overlap_detection_handles_document_with_sidebar_noise() {
    let source = build_sidebar_document_source(120, 260);
    let first = crop(&source, 0, 120);
    let second = crop(&source, 24, 120);

    assert_eq!(detect_vertical_overlap(&frame(&first), &frame(&second), None), Some(96));
}

fn build_source(width: u32, height: u32) -> RgbaImage {
    let mut image = RgbaImage::new(width, height);
    for y in 0..height {
        for x in 0..width {
            let r = ((x * 17 + y * 13) % 251) as u8;
            let g = ((x * 7 + y * 19) % 251) as u8;
            let b = ((x * 23 + y * 5) % 251) as u8;
            image.put_pixel(x, y, image::Rgba([r, g, b, 255]));
        }
    }
    image
}

fn crop(source: &RgbaImage, start_y: u32, height: u32) -> RgbaImage {
    crop_imm(source, 0, start_y, source.width(), height).to_image()
}

fn build_document_like_source(width: u32, height: u32) -> RgbaImage {
    let mut image = RgbaImage::from_pixel(width, height, Rgba([248, 248, 248, 255]));

    for y in (8..height).step_by(14) {
        for x in 6..width.saturating_sub(6) {
            let shade = 40 + ((x + y) % 30) as u8;
            image.put_pixel(x, y, Rgba([shade, shade, shade, 255]));
        }
    }

    for y in (20..height).step_by(42) {
        for line_y in y..(y + 5).min(height) {
            for x in 10..width.saturating_sub(10) {
                image.put_pixel(x, line_y, Rgba([90, 120, 180, 255]));
            }
        }
    }

    for y in (35..height).step_by(56) {
        for x in 0..width {
            image.put_pixel(x, y, Rgba([225, 225, 225, 255]));
        }
    }

    image
}

fn build_sidebar_document_source(width: u32, height: u32) -> RgbaImage {
    let mut image = RgbaImage::from_pixel(width, height, Rgba([249, 249, 249, 255]));
    let sidebar_end = (width / 5).max(16);
    let body_left = sidebar_end + 10;
    let body_right = width.saturating_sub(12);

    for y in 0..height {
        for x in 0..sidebar_end {
            let shade = if ((y / 18) + (x / 6)) % 2 == 0 {
                228
            } else {
                238
            };
            image.put_pixel(x, y, Rgba([shade, shade, shade, 255]));
        }
    }

    for y in (10..height).step_by(12) {
        let ragged_right = body_right.saturating_sub((y % 17) / 3);
        for x in body_left..ragged_right {
            let shade = 28 + ((x + y * 3) % 22) as u8;
            image.put_pixel(x, y, Rgba([shade, shade, shade, 255]));
        }
    }

    for y in (28..height).step_by(56) {
        for line_y in y..(y + 4).min(height) {
            for x in body_left..body_right.saturating_sub(18) {
                image.put_pixel(x, line_y, Rgba([70, 92, 136, 255]));
            }
        }
    }

    for y in (44..height).step_by(48) {
        for x in body_left.saturating_sub(4)..body_right {
            image.put_pixel(x, y, Rgba([228, 228, 228, 255]));
        }
    }

    image
}

fn build_striped_source(width: u32, height: u32) -> RgbaImage {
    let mut image = RgbaImage::from_pixel(width, height, Rgba([240, 240, 240, 255]));
    for y in (0..height).step_by(8) {
        for x in 0..width {
            let shade = if (y / 8) % 2 == 0 { 60 } else { 140 };
            let varied = shade + ((x * 5 + y * 3) % 20) as u8;
            image.put_pixel(x, y, Rgba([varied, varied, varied, 255]));
        }
    }
    image
}

fn build_scrollbar_source(width: u32, height: u32) -> RgbaImage {
    let right_start = width.saturating_sub(24);
    let mut image = build_document_like_source(width, height);
    for y in 0..height {
        for x in right_start..width {
            let v = if ((y / 4) + (x / 4)) % 2 == 0 {
                200u8
            } else {
                180u8
            };
            image.put_pixel(x, y, Rgba([v, v, v, 255]));
        }
    }
    image
}

#[test]
fn scrollbar_margin_excludes_right_region() {
    let src = build_scrollbar_source(120, 160);
    let first = crop(&src, 0, 80);
    let first_gray = imageops::grayscale(&first);
    let band = detect_text_body_band(&gray_map(&first_gray));
    assert!(band.is_some(), "text body band should be detected");
    if let Some(b) = band {
        assert!(b.right < 115, "scrollbar margin should exclude right ~1.2%");
    }
}

#[test]
fn overlap_detection_rejects_different_widths() {
    let a = RgbaImage::from_pixel(48, 100, Rgba([128, 128, 128, 255]));
    let b = RgbaImage::from_pixel(64, 100, Rgba([128, 128, 128, 255]));
    assert_eq!(detect_vertical_overlap(&frame(&a), &frame(&b), None), None);
}

#[test]
fn overlap_detection_rejects_no_overlap() {
    let source = build_source(48, 200);
    let first = crop(&source, 0, 100);
    let second = crop(&source, 120, 100);
    assert_eq!(detect_vertical_overlap(&frame(&first), &frame(&second), None), None);
}

#[test]
fn overlap_detection_handles_maximal_overlap() {
    let source = build_source(48, 200);
    let first = crop(&source, 0, 160);
    let second = crop(&source, 1, 160);
    let result = detect_vertical_overlap(&frame(&first), &frame(&second), None);
    assert!(result.is_some());
    assert!(result.unwrap() > 150);
}

#[test]
fn overlap_detection_handles_varied_scroll_offset() {
    let source = build_source(48, 200);
    let first = crop(&source, 0, 100);
    let second = crop(&source, 10, 100);
    assert_eq!(detect_vertical_overlap(&frame(&first), &frame(&second), None), Some(90));
}

#[test]
fn overlap_detection_handles_striped_content() {
    let source = build_striped_source(48, 160);
    let first = crop(&source, 0, 80);
    let second = crop(&source, 12, 80);
    assert_eq!(detect_vertical_overlap(&frame(&first), &frame(&second), None), Some(68));
}

#[test]
fn overlap_detection_rejects_uniform_different_colors() {
    let a = RgbaImage::from_pixel(48, 100, Rgba([200, 200, 200, 255]));
    let b = RgbaImage::from_pixel(48, 100, Rgba([100, 100, 100, 255]));
    assert_eq!(detect_vertical_overlap(&frame(&a), &frame(&b), None), None);
}

#[test]
fn stitching_handles_single_frame() {
    let image = build_source(40, 50);
    let stitched = stitch_vertical(&[frame(&image)], &[]).unwrap();
    assert_eq!(stitched, frame(&image));
}

#[test]
fn stitching_rejects_frame_width_mismatch() {
    let a = RgbaImage::from_pixel(40, 50, Rgba([128, 128, 128, 255]));
    let b = RgbaImage::from_pixel(48, 50, Rgba([128, 128, 128, 255]));
    assert!(stitch_vertical(&[frame(&a), frame(&b)], &[10]).is_err());
}

#[test]
fn stitching_rejects_invalid_overlap_count() {
    let a = RgbaImage::from_pixel(40, 50, Rgba([128, 128, 128, 255]));
    let b = RgbaImage::from_pixel(40, 50, Rgba([128, 128, 128, 255]));
    assert!(stitch_vertical(&[frame(&a), frame(&b)], &[]).is_err());
}

#[test]
fn stitching_rejects_empty_frames() {
    assert!(stitch_vertical(&[], &[]).is_err());
}

#[test]
fn detect_text_body_band_returns_none_for_uniform() {
    let uniform = RgbaImage::from_pixel(64, 64, Rgba([255, 255, 255, 255]));
    let gray = imageops::grayscale(&uniform);
    assert!(detect_text_body_band(&gray_map(&gray)).is_none());
}
