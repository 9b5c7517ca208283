//! Feature maps: how steep the brightness of an image is at each pixel, on one fixed scale for all
//! images.

use crate::band::{crop_gray_to_band, HorizontalBand};
use crate::raster::{GrayMap, Raster};
use crate::vision::sobel_gradients;
use vstd::prelude::*;

verus! {

/// A gradient on the fixed scale, on which 1024 is the largest byte: rounded to the nearest
/// number, up from a half.
pub open spec fn feature_value(magnitude: u16) -> u8 {
    let scaled = (magnitude * 255 + 512) / 1024;
    if scaled < 255 {
        scaled as u8
    } else {
        255
    }
}

/// Some gradient is not flat.
pub open spec fn has_gradient(magnitudes: Seq<u16>) -> bool {
    exists|i: int| 0 <= i < magnitudes.len() && #[trigger] magnitudes[i] > 0
}

/// The feature map for given gradients. Flat gradients make a blank map, all features of which
/// are zero.
pub open spec fn feature_map_given(width: nat, height: nat, magnitudes: Seq<u16>) -> Raster {
    Raster { width, height, data: magnitudes.map_values(|g: u16| feature_value(g)) }
}

/// The gradients of a band of a gray image.
pub open spec fn band_magnitudes(
    gray: Raster,
    band: Option<HorizontalBand>,
    width: u32,
) -> Seq<u16> {
    let cut = crate::band::banded(gray, band, width);
    crate::vision::sobel_magnitudes(cut)
}

/// The feature map of a band of a gray image.
pub open spec fn feature_map(gray: Raster, band: Option<HorizontalBand>, width: u32) -> Raster {
    let cut = crate::band::banded(gray, band, width);
    feature_map_given(cut.width, cut.height, band_magnitudes(gray, band, width))
}

/// All pixels of a gray image are equally bright.
pub open spec fn is_flat(image: Raster) -> bool {
    forall|x: int, y: int|
        0 <= x < image.width && 0 <= y < image.height ==> #[trigger] image.gray(x, y)
            == image.gray(0, 0)
}

/// A flat image has no gradient.
pub proof fn flat_images_have_no_gradient(image: Raster)
    requires
        is_flat(image),
    ensures
        !has_gradient(crate::vision::sobel_magnitudes(image)),
{
    let magnitudes = crate::vision::sobel_magnitudes(image);
    let width = image.width as int;
    let height = image.height as int;
    assert forall|i: int| 0 <= i < magnitudes.len() implies #[trigger] magnitudes[i] == 0 by {
        assert(0 < width && 0 < height) by (nonlinear_arith)
            requires
                0 <= i < height * width,
                0 <= width,
                0 <= height,
        ;
        let x = i % width;
        let y = i / width;
        assert forall|a: int, b: int| #[trigger]
            crate::vision::brightness(image, a, b) == image.gray(0, 0) by {
            let column = crate::vision::nearest_index(a, image.width);
            let row = crate::vision::nearest_index(b, image.height);
            assert(image.gray(column, row) == image.gray(0, 0));
        }
        assert(crate::vision::slope_across(image, x, y) == 0);
        assert(crate::vision::slope_down(image, x, y) == 0);
        assert(crate::math::whole_root(0) == 0);
        assert(magnitudes[i] == crate::vision::sobel_magnitude(image, x, y));
    }
}

/// A map without a gradient is blank.
pub proof fn flat_images_have_blank_maps(width: nat, height: nat, magnitudes: Seq<u16>)
    requires
        !has_gradient(magnitudes),
    ensures
        forall|i: int|
            0 <= i < magnitudes.len() ==> #[trigger] feature_map_given(
                width,
                height,
                magnitudes,
            ).data[i] == 0,
{
    assert forall|i: int| 0 <= i < magnitudes.len() implies #[trigger] feature_map_given(
        width,
        height,
        magnitudes,
    ).data[i] == 0 by {
        assert(magnitudes[i] == 0);
    }
}

/// The scale is the same for all images: a gradient that is as steep as another has a feature that
/// is as large, wherever either of them lies.
pub proof fn steeper_is_no_smaller(a: u16, b: u16)
    requires
        a <= b,
    ensures
        feature_value(a) <= feature_value(b),
{
}

/// Puts gradients on the fixed scale, and says whether any of them is not flat.
pub fn feature_map_from_gradients(width: u32, height: u32, magnitudes: &Vec<u16>) -> (map: (
    GrayMap,
    bool,
))
    requires
        magnitudes@.len() == height * width,
    ensures
        map.0.wf(),
        map.0@ == feature_map_given(width as nat, height as nat, magnitudes@),
        map.1 == has_gradient(magnitudes@),
{
    let mut data: Vec<u8> = Vec::new();
    let mut steep: bool = false;
    let mut i: usize = 0;
    while i < magnitudes.len()
        invariant
            i <= magnitudes@.len(),
            data@.len() == i,
            forall|j: int| 0 <= j < i ==> #[trigger] data@[j] == feature_value(magnitudes@[j]),
            steep ==> has_gradient(magnitudes@),
            !steep ==> forall|j: int| 0 <= j < i ==> #[trigger] magnitudes@[j] == 0,
        decreases magnitudes.len() - i,
    {
        let magnitude: u16 = magnitudes[i];
        let scaled: u32 = (magnitude as u32 * 255 + 512) / 1024;
        if magnitude > 0 {
            steep = true;
        }
        data.push(
            if scaled < 255 {
                scaled as u8
            } else {
                255
            },
        );
        i += 1;
    }
    assert(data@ =~= magnitudes@.map_values(|g: u16| feature_value(g)));
    (GrayMap { width, height, data }, steep)
}

/// Makes the feature map of a band of a gray image, and says whether it has any feature.
pub fn to_feature_map_from_gray(grayscale: &GrayMap, band: Option<HorizontalBand>) -> (map: (
    GrayMap,
    bool,
))
    requires
        grayscale.wf(),
    ensures
        map.0.wf(),
        map.0@ == feature_map(grayscale@, band, grayscale.width),
        map.1 == has_gradient(band_magnitudes(grayscale@, band, grayscale.width)),
{
    let cut: GrayMap = crop_gray_to_band(grayscale, band);
    let magnitudes: Vec<u16> = sobel_gradients(&cut);
    feature_map_from_gradients(cut.width, cut.height, &magnitudes)
}

} // verus!
