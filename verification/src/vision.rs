//! The image operations that come from the `image` and `imageproc` crates, and the parallel
//! evaluation that comes from `rayon`.

use crate::raster::{Frame, GrayMap, Raster};
use rayon::iter::IntoParallelRefIterator;
use rayon::iter::ParallelIterator;
use vstd::prelude::*;

verus! {

/// Brightness of a colour, rounded down.
pub open spec fn luma(red: u8, green: u8, blue: u8) -> u8 {
    ((2126 * red + 7152 * green + 722 * blue) / 10000) as u8
}

/// The gray image of a colour image.
pub open spec fn grayscale_of(image: Raster) -> Raster {
    Raster {
        width: image.width,
        height: image.height,
        data: Seq::new(
            image.height * image.width,
            |i: int| luma(image.data[i * 4], image.data[i * 4 + 1], image.data[i * 4 + 2]),
        ),
    }
}

/// `image::imageops::grayscale`: an image of the same size, in which each pixel is the weighted
/// sum of red, green and blue with the weights 0.2126, 0.7152 and 0.0722, rounded down. The
/// opacity is dropped.
#[verifier::external_body]
pub(crate) fn grayscale(frame: &Frame) -> (gray: GrayMap)
    requires
        frame.wf(),
    ensures
        gray.wf(),
        gray@ == grayscale_of(frame@),
{
    let image = image::RgbaImage::from_raw(frame.width, frame.height, frame.data.clone()).unwrap();
    let gray = image::imageops::grayscale(&image);
    GrayMap { width: gray.width(), height: gray.height(), data: gray.into_raw() }
}

/// The index, or the nearest one below `count`.
pub open spec fn nearest_index(i: int, count: nat) -> int {
    if i < 0 {
        0
    } else if i >= count {
        count - 1
    } else {
        i
    }
}

/// The brightness at a place in or around a gray image. Around it, the border goes on.
pub open spec fn brightness(image: Raster, x: int, y: int) -> int {
    image.gray(nearest_index(x, image.width), nearest_index(y, image.height)) as int
}

/// How much brighter the right neighbours of a pixel are than the left ones, the middle row
/// counted twice.
pub open spec fn slope_across(image: Raster, x: int, y: int) -> int {
    (brightness(image, x + 1, y - 1) - brightness(image, x - 1, y - 1)) + 2 * (brightness(
        image,
        x + 1,
        y,
    ) - brightness(image, x - 1, y)) + (brightness(image, x + 1, y + 1) - brightness(
        image,
        x - 1,
        y + 1,
    ))
}

/// How much brighter the neighbours below a pixel are than those above it, the middle column
/// counted twice.
pub open spec fn slope_down(image: Raster, x: int, y: int) -> int {
    (brightness(image, x - 1, y + 1) - brightness(image, x - 1, y - 1)) + 2 * (brightness(
        image,
        x,
        y + 1,
    ) - brightness(image, x, y - 1)) + (brightness(image, x + 1, y + 1) - brightness(
        image,
        x + 1,
        y - 1,
    ))
}

/// How steep a gray image is at a pixel: the length of the two slopes together, rounded down.
pub open spec fn sobel_magnitude(image: Raster, x: int, y: int) -> u16 {
    let across = slope_across(image, x, y);
    let down = slope_down(image, x, y);
    crate::math::whole_root((across * across + down * down) as nat) as u16
}

/// How steep a gray image is at each pixel, row after row.
pub open spec fn sobel_magnitudes(image: Raster) -> Seq<u16> {
    Seq::new(
        image.height * image.width,
        |i: int| sobel_magnitude(image, i % (image.width as int), i / (image.width as int)),
    )
}

/// `imageproc::gradients::sobel_gradients`: one gradient magnitude for each pixel, row after row.
/// The two slopes come from the Sobel filters over the nine pixels around it, with the border
/// continued, and the magnitude is the square root of the sum of their squares, rounded down. The
/// root is taken in single precision, which holds these sums exactly and rounds none of their
/// roots up to a whole number.
#[verifier::external_body]
pub(crate) fn sobel_gradients(gray: &GrayMap) -> (magnitudes: Vec<u16>)
    requires
        gray.wf(),
    ensures
        magnitudes@ == sobel_magnitudes(gray@),
        magnitudes@.len() == gray@.data.len(),
{
    let image = image::GrayImage::from_raw(gray.width, gray.height, gray.data.clone()).unwrap();
    imageproc::gradients::sobel_gradients(&image).into_raw()
}

/// No brightness occurs so often that its occurrences, weighted by it, leave 32 bits.
pub open spec fn level_is_computable(data: Seq<u8>) -> bool {
    &&& data.len() <= u32::MAX
    &&& forall|value: u8| #[trigger] data.to_multiset().count(value) * value <= u32::MAX
}

/// What `imageproc::contrast::otsu_level` gives for a gray image of this size and these bytes.
pub uninterp spec fn otsu_threshold(width: nat, height: nat, data: Seq<u8>) -> u8;

/// `imageproc::contrast::otsu_level`: the brightness that separates dark from bright pixels best.
/// It weighs a histogram in 32 bits, so the weights have to fit.
#[verifier::external_body]
pub(crate) fn otsu_level(gray: &GrayMap) -> (level: u8)
    requires
        gray.wf(),
        level_is_computable(gray@.data),
    ensures
        level == otsu_threshold(gray@.width, gray@.height, gray@.data),
{
    let image = image::GrayImage::from_raw(gray.width, gray.height, gray.data.clone()).unwrap();
    imageproc::contrast::otsu_level(&image)
}

/// Ink marks: full where a pixel is no brighter than `level`, zero elsewhere.
pub open spec fn ink_marks(image: Raster, level: u8) -> Raster {
    Raster {
        width: image.width,
        height: image.height,
        data: image.data.map_values(|value: u8| if value > level { 0u8 } else { 255u8 }),
    }
}

/// `imageproc::contrast::threshold` with `ThresholdType::BinaryInverted`: 0 for each pixel above
/// the level, 255 for each other.
#[verifier::external_body]
pub(crate) fn threshold_inverted(gray: &GrayMap, level: u8) -> (marks: GrayMap)
    requires
        gray.wf(),
    ensures
        marks.wf(),
        marks@ == ink_marks(gray@, level),
{
    let image = image::GrayImage::from_raw(gray.width, gray.height, gray.data.clone()).unwrap();
    let kind = imageproc::contrast::ThresholdType::BinaryInverted;
    let marks = imageproc::contrast::threshold(&image, level, kind);
    GrayMap { width: marks.width(), height: marks.height(), data: marks.into_raw() }
}

/// What `image::imageops::resize` with the nearest-neighbour filter gives for a gray image of this
/// size and these bytes, and a new size.
pub uninterp spec fn nearest_samples(
    width: nat,
    height: nat,
    data: Seq<u8>,
    new_width: nat,
    new_height: nat,
) -> Seq<u8>;

/// The gray image, resized.
pub open spec fn resized(image: Raster, new_width: nat, new_height: nat) -> Raster {
    Raster {
        width: new_width,
        height: new_height,
        data: nearest_samples(image.width, image.height, image.data, new_width, new_height),
    }
}

/// `image::imageops::resize` with `FilterType::Nearest`: an image of the new size, sampled from
/// the old one.
#[verifier::external_body]
pub(crate) fn resize_nearest(gray: &GrayMap, new_width: u32, new_height: u32) -> (small: GrayMap)
    requires
        gray.wf(),
        0 < gray.width,
        0 < gray.height,
        0 < new_width,
        0 < new_height,
    ensures
        small.wf(),
        small.width == new_width,
        small.height == new_height,
        small@.data == nearest_samples(
            gray@.width,
            gray@.height,
            gray@.data,
            new_width as nat,
            new_height as nat,
        ),
{
    let image = image::GrayImage::from_raw(gray.width, gray.height, gray.data.clone()).unwrap();
    let filter = image::imageops::FilterType::Nearest;
    let small = image::imageops::resize(&image, new_width, new_height, filter);
    GrayMap { width: small.width(), height: small.height(), data: small.into_raw() }
}

/// Each score is a finite number that is not negative, in the IEEE 754 single precision encoding.
pub open spec fn are_scores(scores: Seq<u32>) -> bool {
    forall|i: int| 0 <= i < scores.len() ==> #[trigger] scores[i] < 0x7f80_0000
}

/// What `imageproc::template_matching::match_template` with normalised cross correlation gives for
/// a region and a template of one width: the encodings of the scores, top row first.
pub uninterp spec fn correlation_scores(
    width: nat,
    region_height: nat,
    region: Seq<u8>,
    template_height: nat,
    template: Seq<u8>,
) -> Seq<u32>;

/// `imageproc::template_matching::match_template` with
/// `MatchTemplateMethod::CrossCorrelationNormalized`: one score for each row at which the template
/// fits into the region. A score is a quotient of sums of products of bytes, so it is finite and
/// not negative; it is handed out as its IEEE 754 encoding.
#[verifier::external_body]
pub(crate) fn match_template(region: &GrayMap, template: &GrayMap) -> (scores: Vec<u32>)
    requires
        region.wf(),
        template.wf(),
        0 < region.width,
        region.width == template.width,
        0 < template.height <= region.height,
    ensures
        scores@ == correlation_scores(
            region@.width,
            region@.height,
            region@.data,
            template@.height,
            template@.data,
        ),
        scores@.len() == region.height - template.height + 1,
        are_scores(scores@),
{
    let image = image::GrayImage::from_raw(region.width, region.height, region.data.clone());
    let part = image::GrayImage::from_raw(template.width, template.height, template.data.clone());
    let method = imageproc::template_matching::MatchTemplateMethod::CrossCorrelationNormalized;
    let response = imageproc::template_matching::match_template(
        &image.unwrap(),
        &part.unwrap(),
        method,
    );
    response.into_raw().iter().map(|score| score.to_bits()).collect()
}

/// The values that are there, in order.
pub open spec fn kept<T>(found: Seq<Option<T>>) -> Seq<T>
    decreases found.len(),
{
    if found.len() == 0 {
        Seq::empty()
    } else {
        match found.last() {
            Some(value) => kept(found.drop_last()).push(value),
            None => kept(found.drop_last()),
        }
    }
}

/// What holds of every value found holds of every value kept.
pub proof fn lemma_kept<T>(found: Seq<Option<T>>, holds: spec_fn(T) -> bool)
    requires
        forall|i: int| 0 <= i < found.len() ==> (#[trigger] found[i] matches Some(v) ==> holds(v)),
    ensures
        forall|i: int| 0 <= i < kept(found).len() ==> holds(#[trigger] kept(found)[i]),
    decreases found.len(),
{
    if found.len() > 0 {
        let before = found.drop_last();
        assert(found.last() == found[found.len() - 1]);
        assert forall|i: int| 0 <= i < before.len() implies (#[trigger] before[i] matches Some(v)
            ==> holds(v)) by {
            assert(before[i] == found[i]);
        }
        lemma_kept(before, holds);
        assert forall|i: int| 0 <= i < kept(found).len() implies holds(
            #[trigger] kept(found)[i],
        ) by {
            if i < kept(before).len() {
                assert(kept(found)[i] == kept(before)[i]);
            }
        }
    }
}

/// `rayon::join`: runs both closures, possibly in parallel, and gives back both results.
pub assume_specification<A, B, RA, RB>[ rayon::join::<A, B, RA, RB> ](
    oper_a: A,
    oper_b: B,
) -> (results: (RA, RB)) where
    A: FnOnce() -> RA + Send,
    B: FnOnce() -> RB + Send,
    RA: Send,
    RB: Send,

    requires
        call_requires(oper_a, ()),
        call_requires(oper_b, ()),
    ensures
        call_ensures(oper_a, (), results.0),
        call_ensures(oper_b, (), results.1),
;

/// The closure may give `found[i]` for each `items[i]`.
pub open spec fn finds<T, F: Fn(u32) -> Option<T>>(
    find: F,
    items: Seq<u32>,
    found: Seq<Option<T>>,
) -> bool {
    &&& found.len() == items.len()
    &&& forall|i: int|
        0 <= i < items.len() ==> call_ensures(find, (items[i],), #[trigger] found[i])
}

/// The values are what the closure finds, in the order of the items.
pub open spec fn is_filter_map<T, F: Fn(u32) -> Option<T>>(
    find: F,
    items: Seq<u32>,
    values: Seq<T>,
) -> bool {
    exists|found: Seq<Option<T>>| #[trigger] finds(find, items, found) && values == kept(found)
}

/// `rayon`'s parallel `filter_map` over a vector: applies the closure to each item, and keeps what
/// it finds in the order of the items.
#[verifier::external_body]
pub(crate) fn filter_map_parallel<T: Send, F>(items: &Vec<u32>, find: F) -> (values: Vec<T>)
    where F: Fn(u32) -> Option<T> + Sync + Send
    requires
        forall|i: int| 0 <= i < items@.len() ==> call_requires(find, (#[trigger] items@[i],)),
    ensures
        is_filter_map(find, items@, values@),
{
    items.par_iter().copied().filter_map(find).collect()
}

} // verus!
