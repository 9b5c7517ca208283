use scrollshot::band::{crop_gray_to_band, normalized_band, HorizontalBand};
use scrollshot::difference::{
    sampled_column_difference, sampled_difference, sampled_feature_difference,
    sampled_row_difference,
};
use scrollshot::edges::{
    count_static_edge_rows, crop_static_edges, detect_static_edges, static_edge_has_content,
    StaticEdges,
};
use scrollshot::features::{feature_map_from_gradients, to_feature_map_from_gray};
use scrollshot::matching::{
    best_alternative_score, candidate_from_scores, candidate_template_heights,
    collect_match_candidates, find_peak, match_overlap_candidate, match_search_range,
    refine_template_match, select_match_candidate, MatchCandidate,
};
use scrollshot::math::{count_samples, product_le, sort_ascending, Ratio};
use scrollshot::overlap::{
    choose_focus_band, coarse_overlap_prediction, detect_overlap_from_maps, detect_overlap_inner,
    predict_from_small_maps, select_overlap,
};
use scrollshot::raster::{Frame, GrayMap};
use scrollshot::score::{leads_by, reaches_three_quarters};
use scrollshot::text_band::{
    detect_body_band, find_text_body_band, looks_like_text, text_band_at_level,
};

fn bits(score: f32) -> u32 {
    score.to_bits()
}

fn candidate(overlap: u32, score: f32, alternative: Option<f32>, height: u32) -> MatchCandidate {
    MatchCandidate {
        overlap,
        score: bits(score),
        alternative_score: alternative.map(bits),
        template_height: height,
    }
}

fn gray(width: u32, height: u32, value: fn(u32, u32) -> u8) -> GrayMap {
    let mut data = Vec::new();
    for y in 0..height {
        for x in 0..width {
            data.push(value(x, y));
        }
    }
    GrayMap { width, height, data }
}

fn colour(width: u32, height: u32, value: fn(u32, u32) -> [u8; 3]) -> Frame {
    let mut data = Vec::new();
    for y in 0..height {
        for x in 0..width {
            data.extend_from_slice(&value(x, y));
            data.push(255);
        }
    }
    Frame { width, height, data }
}

fn noise(x: u32, y: u32) -> u8 {
    let mut seed = x.wrapping_mul(2_654_435_761) ^ y.wrapping_mul(2_246_822_519);
    seed ^= seed >> 13;
    seed = seed.wrapping_mul(3_266_489_917);
    (seed >> 24) as u8
}

fn below(map: &GrayMap, rows: u32) -> GrayMap {
    map.crop_rows(rows, map.height - rows)
}

#[test]
fn template_heights_are_multiples_of_the_smallest_overlap() {
    assert_eq!(candidate_template_heights(12, 100), vec![12, 24, 36, 60, 96]);
    assert_eq!(candidate_template_heights(12, 59), vec![12, 24, 36]);
    assert_eq!(candidate_template_heights(3, 40), vec![3, 6, 9, 12, 15, 24]);
    assert_eq!(candidate_template_heights(3, 11), vec![3, 6, 9]);
    assert_eq!(candidate_template_heights(4, 40), vec![4, 8, 12, 20, 32]);
    assert_eq!(candidate_template_heights(20, 10), Vec::<u32>::new());
    assert_eq!(
        candidate_template_heights(2_000_000_000, u32::MAX),
        vec![2_000_000_000, 4_000_000_000, u32::MAX, u32::MAX, u32::MAX]
    );
}

#[test]
fn search_covers_the_bounds_or_the_neighbourhood_of_a_prediction() {
    assert_eq!(match_search_range(20, 12, 100, None), Some((0, 80)));
    assert_eq!(match_search_range(12, 30, 100, None), Some((18, 88)));
    assert_eq!(match_search_range(101, 12, 100, None), None);
    assert_eq!(match_search_range(20, 60, 50, None), None);
    assert_eq!(match_search_range(20, 12, 100, Some(60)), Some((16, 64)));
    assert_eq!(match_search_range(20, 12, 100, Some(5)), Some((0, 24)));
    assert_eq!(match_search_range(20, 12, 100, Some(4000)), Some((0, 80)));
    assert_eq!(match_search_range(20, 12, 1000, Some(400)), Some((320, 440)));
    assert_eq!(match_search_range(20, 12, 1000, Some(170)), Some((124, 176)));
}

#[test]
fn the_first_best_row_is_the_peak() {
    let scores = vec![3, 9, 4, 9, 1];
    assert_eq!(find_peak(&scores), 1);
    assert_eq!(refine_template_match(&scores, 1), 9);
    assert_eq!(refine_template_match(&scores, 2), 9);
    assert_eq!(refine_template_match(&scores, 0), 3);
    assert_eq!(refine_template_match(&scores, 4), 1);
}

#[test]
fn alternatives_lie_four_rows_away() {
    let scores = vec![5, 6, 7, 20, 8, 9, 10, 11];
    assert_eq!(best_alternative_score(&scores, 3), Some(11));
    assert_eq!(best_alternative_score(&scores[0..7].to_vec(), 3), None);
    assert_eq!(best_alternative_score(&scores, 7), Some(20));
}

#[test]
fn scores_make_a_candidate_within_bounds() {
    let scores: Vec<u32> = [0.1f32, 0.2, 0.9, 0.3, 0.2, 0.1, 0.4].iter().map(|s| bits(*s)).collect();
    let found = candidate_from_scores(&scores, 10, 20, 12, 100).unwrap();
    assert_eq!(found, candidate(32, 0.9, Some(0.4), 20));
    assert_eq!(candidate_from_scores(&scores, 10, 20, 33, 100), None);
    assert_eq!(candidate_from_scores(&scores, 10, 20, 12, 31), None);
}

#[test]
fn thresholds_on_scores_are_met_at_the_bound() {
    assert!(reaches_three_quarters(bits(0.75)));
    assert!(!reaches_three_quarters(bits(0.75) - 1));
    assert!(reaches_three_quarters(bits(1.0)));
    assert!(!reaches_three_quarters(bits(0.0)));
    assert!(leads_by(bits(0.875), bits(0.5), 250));
    assert!(leads_by(bits(0.9), bits(0.89), 5));
    assert!(!leads_by(bits(0.9), bits(0.896), 5));
    assert!(!leads_by(bits(0.9), bits(0.9), 2));
    assert!(!leads_by(bits(0.9), bits(0.95), 2));
}

#[test]
fn a_candidate_is_trusted_only_with_a_clear_lead() {
    assert_eq!(select_match_candidate(&vec![]), None);
    let low = candidate(40, 0.74, None, 20);
    assert_eq!(select_match_candidate(&vec![low]), None);
    let alone = candidate(40, 0.76, None, 20);
    assert_eq!(select_match_candidate(&vec![alone]), Some(alone));
    let close = candidate(40, 0.9, Some(0.897), 20);
    assert_eq!(select_match_candidate(&vec![close]), None);
    let clear = candidate(40, 0.9, Some(0.89), 20);
    assert_eq!(select_match_candidate(&vec![low, clear]), Some(clear));
    let rival = candidate(45, 0.899, None, 30);
    assert_eq!(select_match_candidate(&vec![clear, rival]), None);
    let neighbour = candidate(44, 0.899, None, 30);
    assert_eq!(select_match_candidate(&vec![clear, neighbour]), Some(clear));
    let weak_rival = candidate(60, 0.89, None, 30);
    assert_eq!(select_match_candidate(&vec![clear, weak_rival]), Some(clear));
}

#[test]
fn of_equal_scores_the_higher_template_counts() {
    let low = candidate(40, 0.9, None, 20);
    let high = candidate(41, 0.9, None, 30);
    assert_eq!(select_match_candidate(&vec![low, high]), Some(high));
    assert_eq!(select_match_candidate(&vec![high, low]), Some(high));
}

#[test]
fn a_template_is_found_where_it_shows_again() {
    let page = gray(40, 160, noise);
    let previous = page.crop_rows(0, 100);
    let current = page.crop_rows(37, 100);
    let found = match_overlap_candidate(&previous, &current, 20, 12, 99, None).unwrap();
    assert_eq!(found.overlap, 63);
    assert_eq!(found.template_height, 20);
    assert!(found.score > bits(0.999));
    assert!(found.alternative_score.unwrap() < bits(0.95));
    assert_eq!(match_overlap_candidate(&previous, &current, 101, 12, 99, None), None);

    let heights = candidate_template_heights(12, 60);
    let all = collect_match_candidates(&previous, &current, &heights, 12, 99, None);
    let seen: Vec<(u32, u32)> = all.iter().map(|c| (c.template_height, c.overlap)).collect();
    assert_eq!(seen, vec![(12, 63), (24, 63), (36, 63), (60, 63)]);
}

#[test]
fn gradients_are_put_on_a_fixed_scale() {
    let gradients = vec![0, 1, 2, 3, 512, 1024, 1025, 65535];
    let (map, steep) = feature_map_from_gradients(4, 2, &gradients);
    assert_eq!(map.data, vec![0, 0, 0, 1, 128, 255, 255, 255]);
    assert_eq!((map.width, map.height), (4, 2));
    assert!(steep);
    let (blank, steep) = feature_map_from_gradients(2, 1, &vec![0, 0]);
    assert_eq!(blank.data, vec![0, 0]);
    assert!(!steep);
}

#[test]
fn an_edge_in_the_image_is_a_feature() {
    let step = gray(6, 4, |x, _| if x < 3 { 0 } else { 100 });
    let (map, steep) = to_feature_map_from_gray(&step, None);
    assert!(steep);
    assert_eq!(map.data[0..6], [0, 0, 100, 100, 0, 0]);
    let spot = gray(3, 3, |x, y| if x == 2 && y == 2 { 255 } else { 0 });
    let (map, _) = to_feature_map_from_gray(&spot, None);
    assert_eq!(map.data, vec![0, 0, 0, 0, 90, 201, 0, 201, 255]);
    let (_, steep) = to_feature_map_from_gray(&gray(5, 4, |_, _| 77), None);
    assert!(!steep);
    let flat = HorizontalBand { left: 0, right: 2 };
    let (blank, steep) = to_feature_map_from_gray(&step, Some(flat));
    assert!(!steep);
    assert_eq!((blank.width, blank.height), (2, 4));
    assert_eq!(blank.data, vec![0; 8]);
}

#[test]
fn small_copies_predict_the_overlap() {
    let page = gray(40, 700, |x, y| noise(x / 8, y / 8));
    let previous = page.crop_rows(0, 360);
    let current = page.crop_rows(160, 360);
    let predicted = coarse_overlap_prediction(&previous, &current, 18, 358).unwrap();
    assert!(predicted.abs_diff(200) <= 4);
    assert_eq!(
        coarse_overlap_prediction(&page.crop_rows(0, 180), &page.crop_rows(8, 180), 12, 179),
        None
    );
    let small = gray(20, 90, noise);
    let scrolled = gray(20, 90, |x, y| noise(x, y + 40));
    assert_eq!(predict_from_small_maps(&small, &scrolled, 4, 359, 18, 357), Some(199));
    assert_eq!(predict_from_small_maps(&small, &scrolled, 4, 359, 18, 16), None);
}

#[test]
fn maps_show_the_overlap_of_frames() {
    let page = colour(40, 400, |x, y| [noise(x, y), noise(x + 50, y), noise(x, y + 500)]);
    let previous = page.crop_rows(0, 240);
    let current = page.crop_rows(90, 240);
    let map = gray(40, 400, noise);
    let previous_map = map.crop_rows(0, 240);
    let current_map = map.crop_rows(90, 240);
    let found = detect_overlap_from_maps(
        &previous, &current, &previous_map, &current_map, true, 12, 238, None,
    );
    assert_eq!(found, Some(150));
    let elsewhere = page.crop_rows(100, 240);
    let found = detect_overlap_from_maps(
        &previous, &elsewhere, &previous_map, &current_map, true, 12, 238, None,
    );
    assert_eq!(found, None);
    assert_eq!(detect_overlap_inner(&previous, &current), Some(150));
    assert_eq!(detect_overlap_inner(&previous, &page.crop_rows(0, 239)), None);
}

#[test]
fn frames_and_features_have_to_bear_an_overlap_out() {
    let page = colour(10, 60, |x, y| [noise(x, y); 3]);
    let map = gray(10, 60, noise);
    let previous = page.crop_rows(0, 40);
    let current = page.crop_rows(20, 40);
    let previous_map = map.crop_rows(0, 40);
    let current_map = map.crop_rows(20, 40);
    let right = vec![candidate(20, 0.9, None, 12)];
    let wrong = vec![candidate(24, 0.9, None, 12)];
    let check = |found: &Vec<MatchCandidate>, features: bool| {
        select_overlap(found, &previous, &current, &previous_map, &current_map, features, None)
    };
    assert_eq!(check(&right, true), Some(20));
    assert_eq!(check(&right, false), Some(20));
    assert_eq!(check(&wrong, true), None);
    assert_eq!(check(&wrong, false), None);
    assert_eq!(check(&vec![], true), None);
}

#[test]
fn frames_too_low_or_without_columns_have_no_overlap() {
    let low = colour(20, 12, |x, y| [noise(x, y); 3]);
    assert_eq!(detect_overlap_inner(&low, &low), None);
    let empty = Frame { width: 0, height: 200, data: vec![] };
    assert_eq!(detect_overlap_inner(&empty, &empty), None);
}

#[test]
fn the_focus_band_stops_short_of_a_scroll_bar() {
    let band = |left, right| Some(HorizontalBand { left, right });
    assert_eq!(choose_focus_band(None, 1000), band(0, 988));
    assert_eq!(choose_focus_band(None, 4000), band(0, 3976));
    assert_eq!(choose_focus_band(None, 48), band(0, 48));
    assert_eq!(choose_focus_band(None, 0), None);
    assert_eq!(choose_focus_band(band(100, 995), 1000), band(100, 988));
    assert_eq!(choose_focus_band(band(100, 500), 1000), band(100, 500));
    assert_eq!(choose_focus_band(band(990, 1000), 1000), band(0, 988));
}

#[test]
fn bands_are_clipped_to_the_image() {
    let band = HorizontalBand { left: 2, right: 9 };
    assert_eq!(band.width(), 7);
    assert_eq!(HorizontalBand { left: 9, right: 2 }.width(), 0);
    let clipped = Some(HorizontalBand { left: 2, right: 5 });
    assert_eq!(normalized_band(Some(band), 5), clipped);
    assert_eq!(normalized_band(clipped, 5), clipped);
    assert_eq!(normalized_band(Some(band), 2), None);
    assert_eq!(normalized_band(None, 5), None);
    let image = gray(5, 2, |x, y| (10 * y + x) as u8);
    assert_eq!(crop_gray_to_band(&image, Some(band)).data, vec![2, 3, 4, 12, 13, 14]);
    assert_eq!(crop_gray_to_band(&image, None), image);
}

#[test]
fn differences_are_means_over_samples() {
    let a = colour(4, 4, |_, _| [10, 20, 30]);
    let b = colour(4, 4, |x, y| if x == 2 && y == 2 { [16, 17, 30] } else { [10, 20, 30] });
    let mean = sampled_difference(&a, &b, 0, 0, 4, 2, None);
    assert_eq!((mean.num, mean.den), (9, 4));
    let band = Some(HorizontalBand { left: 1, right: 4 });
    assert_eq!(sampled_difference(&a, &b, 0, 0, 4, 2, band).num, 0);
    assert_eq!(sampled_difference(&a, &b, 0, 0, 0, 2, None).den, 0);
    let narrow = colour(3, 4, |x, y| if x == 2 && y == 2 { [16, 17, 30] } else { [10, 20, 30] });
    let inside = Some(HorizontalBand { left: 0, right: 3 });
    assert_eq!(sampled_difference(&a, &narrow, 0, 0, 4, 2, inside).num, 9);
    let row = sampled_row_difference(&a, &b, 2, 2);
    assert_eq!((row.num, row.den), (9, 2));
    assert_eq!(sampled_row_difference(&a, &colour(3, 4, |_, _| [0, 0, 0]), 0, 0).den, 0);
    let column = sampled_column_difference(&a, &b, 2, 0, 4);
    assert_eq!((column.num, column.den), (9, 2));
    assert_eq!(sampled_difference(&b, &b, 0, 0, 4, 1, None).num, 0);
    assert_eq!(
        sampled_difference(&a, &b, 0, 0, 4, 1, None).num,
        sampled_difference(&b, &a, 0, 0, 4, 1, None).num
    );
    let share = sampled_feature_difference(
        &gray(2, 2, |_, _| 40),
        &gray(2, 2, |_, _| 30),
        0,
        0,
        2,
        1,
    );
    assert_eq!((share.num, share.den), (40, 160));
    assert_eq!(
        sampled_feature_difference(&gray(2, 2, |_, _| 0), &gray(2, 2, |_, _| 0), 0, 0, 2, 1).den,
        0
    );
    assert_eq!(
        sampled_feature_difference(&gray(2, 2, |_, _| 1), &gray(3, 2, |_, _| 1), 0, 0, 2, 1).den,
        0
    );
    assert_eq!(
        sampled_feature_difference(&gray(2, 2, |_, _| 1), &gray(3, 2, |_, _| 1), 7, 9, 50, 1).den,
        0
    );
}

#[test]
fn ratios_are_compared_exactly() {
    assert!(Ratio { num: 46, den: 3 }.exceeds(15, 1));
    assert!(Ratio { num: 31, den: 2 }.exceeds_by(&Ratio { num: 9, den: 3 }, 12));
    assert!(!Ratio { num: 30, den: 2 }.exceeds_by(&Ratio { num: 9, den: 3 }, 12));
    assert!(!Ratio { num: 23, den: 2 }.exceeds_by(&Ratio { num: 0, den: 3 }, 12));
    let high = Ratio { num: u128::MAX, den: u64::MAX as u128 };
    assert!(high.exceeds_by(&Ratio { num: u128::MAX - 1, den: u64::MAX as u128 }, 0));
    assert!(!high.exceeds_by(&high, 0));
    assert!(!Ratio { num: 45, den: 3 }.exceeds(15, 1));
    assert!(Ratio { num: 0, den: 0 }.exceeds(u64::MAX, 1));
    assert!(!Ratio { num: u128::MAX, den: u128::MAX }.exceeds(1, 1));
    assert!(product_le(u128::MAX, 3, u128::MAX, 3));
    assert!(!product_le(u128::MAX, 4, u128::MAX, 3));
    assert_eq!(count_samples(7, 2), 4);
    assert_eq!(count_samples(0, 2), 0);
    assert_eq!(sort_ascending(&vec![5, 1, 4, 1]), vec![1, 1, 4, 5]);
}

#[test]
fn rows_that_stay_the_same_are_static_edges() {
    let page = |shift: u32| {
        let mut data = Vec::new();
        for y in 0..200u32 {
            for x in 0..20u32 {
                let value = if y < 20 || y >= 180 { noise(x, y) } else { noise(x, y + shift) };
                data.extend_from_slice(&[value, value, value, 255]);
            }
        }
        Frame { width: 20, height: 200, data }
    };
    let (a, b) = (page(0), page(60));
    let edges = detect_static_edges(&[&a, &b]);
    assert_eq!(edges, StaticEdges { top: 20, bottom: 20 });
    assert_eq!(detect_static_edges(&[&a]), StaticEdges::default());
    assert_eq!(detect_static_edges(&[]), StaticEdges::default());
    assert_eq!(count_static_edge_rows(&[&a, &b], 10, false), 10);
    assert_eq!(count_static_edge_rows(&[&a, &b], 40, true), 20);
    assert!(static_edge_has_content(&a, 20, false));
    assert!(!static_edge_has_content(&colour(20, 40, |_, _| [250, 250, 250]), 20, false));
    assert!(static_edge_has_content(&colour(20, 40, |_, _| [200, 200, 200]), 20, true));
    let cut = crop_static_edges(&a, edges);
    assert_eq!(cut, a.crop_rows(20, 160));
}

#[test]
fn a_page_of_text_has_a_band() {
    let page = gray(200, 120, |x, y| {
        if x >= 60 && x < 140 && y % 12 < 3 && noise(x, y) > 60 { 30 } else { 250 }
    });
    let band = find_text_body_band(&page).unwrap();
    assert!(band.left >= 45 && band.left <= 60);
    assert!(band.right >= 140 && band.right <= 155);
    assert_eq!(text_band_at_level(&page, 100), Some(band));
    assert_eq!(text_band_at_level(&page, 10), None);
    assert_eq!(find_text_body_band(&gray(200, 120, |_, _| 20)), None);
    assert!(looks_like_text(&gray(40, 40, |_, y| if y % 10 == 0 { 255 } else { 0 })));
    assert!(!looks_like_text(&gray(40, 40, |_, _| 0)));
    assert!(looks_like_text(&gray(40, 1, |x, _| if x % 10 == 0 { 255 } else { 0 })));
    assert!(!looks_like_text(&gray(40, 40, |_, _| 255)));
    assert_eq!(detect_body_band(&gray(100, 10, |_, _| 0)), None);
}

#[test]
fn images_are_cut_by_rows() {
    let map = gray(3, 5, |x, y| (10 * y + x) as u8);
    assert_eq!(below(&map, 3).data, vec![30, 31, 32, 40, 41, 42]);
    assert_eq!(map.value(2, 4), 42);
    assert_eq!(map.duplicate(), map);
    assert_eq!(map.crop_rows(0, 1).pad_columns(1, 6).data, vec![0, 0, 1, 2, 0, 0]);
    assert_eq!(map.crop_columns(1, 2).data, vec![1, 11, 21, 31, 41]);
    let frame = colour(2, 3, |x, y| [x as u8, y as u8, 7]);
    assert_eq!(frame.channel(1, 2, 0), 1);
    assert_eq!(frame.channel(1, 2, 1), 2);
    assert_eq!(frame.channel(1, 2, 3), 255);
    assert_eq!(frame.crop_rows(1, 1).data, vec![0, 1, 7, 255, 1, 1, 7, 255]);
    assert!(Frame::from_raw(2, 2, vec![0; 15]).is_none());
    assert!(Frame::from_raw(2, 2, vec![0; 17]).is_none());
    assert!(Frame::from_raw(2, 2, vec![0; 16]).is_some());
}
