//! The features of an image, in terms of its gradients.

use crate::band::HorizontalBand;
use crate::raster::Raster;
use vstd::prelude::*;

verus! {

/// A feature is its gradient in two hundred and fifty-fifths of 1024, rounded to the nearest one, up
/// from a half. All gradients from 1024 on make the largest feature.
pub proof fn features_are_in_proportion(magnitude: u16)
    ensures
        magnitude <= 1024 ==> -512 < 1024 * crate::features::feature_value(magnitude) - 255
            * magnitude <= 512,
        magnitude >= 1024 ==> crate::features::feature_value(magnitude) == 255,
{
}

/// Each pixel of a band has one feature, in its place, made of its gradient alone.
pub proof fn each_pixel_has_its_feature(
    gray: Raster,
    band: HorizontalBand,
    width: u32,
    x: int,
    y: int,
)
    requires
        gray.is_gray(),
        gray.width == width,
        band.left < band.right <= width,
        0 <= x < band.right - band.left,
        0 <= y < gray.height,
    ensures
        ({
            let cut = gray.gray_columns(band.left as int, band.right as int);
            let map = crate::features::feature_map(gray, Some(band), width);
            &&& cut.gray(x, y) == gray.gray(band.left + x, y)
            &&& map.width == band.right - band.left
            &&& map.height == gray.height
            &&& map.data.len() == map.height * map.width
            &&& map.gray(x, y) == crate::features::feature_value(
                crate::vision::sobel_magnitude(cut, x, y),
            )
        }),
{
    let cut = gray.gray_columns(band.left as int, band.right as int);
    crate::raster::lemma_gray_columns(gray, band.left as int, band.right as int);
    let w = cut.width as int;
    crate::raster::lemma_place(y, cut.height as int, x, w);
    vstd::arithmetic::div_mod::lemma_fundamental_div_mod_converse(y * w + x, w, y, x);
}

/// Without a band the features are those of the whole image.
pub proof fn without_a_band_all_pixels_have_features(gray: Raster, width: u32, x: int, y: int)
    requires
        gray.is_gray(),
        gray.width == width,
        0 <= x < gray.width,
        0 <= y < gray.height,
    ensures
        ({
            let map = crate::features::feature_map(gray, None, width);
            &&& map.width == gray.width
            &&& map.height == gray.height
            &&& map.gray(x, y) == crate::features::feature_value(
                crate::vision::sobel_magnitude(gray, x, y),
            )
        }),
{
    let w = gray.width as int;
    crate::raster::lemma_place(y, gray.height as int, x, w);
    vstd::arithmetic::div_mod::lemma_fundamental_div_mod_converse(y * w + x, w, y, x);
}

/// A band has features where one of its pixels has a gradient.
pub proof fn one_gradient_makes_a_feature(
    gray: Raster,
    band: HorizontalBand,
    width: u32,
    x: int,
    y: int,
)
    requires
        gray.is_gray(),
        gray.width == width,
        band.left < band.right <= width,
        0 <= x < band.right - band.left,
        0 <= y < gray.height,
        crate::vision::sobel_magnitude(
            gray.gray_columns(band.left as int, band.right as int),
            x,
            y,
        ) > 0,
    ensures
        crate::features::has_gradient(crate::features::band_magnitudes(gray, Some(band), width)),
{
    let cut = gray.gray_columns(band.left as int, band.right as int);
    let w = cut.width as int;
    crate::raster::lemma_place(y, cut.height as int, x, w);
    vstd::arithmetic::div_mod::lemma_fundamental_div_mod_converse(y * w + x, w, y, x);
    let magnitudes = crate::features::band_magnitudes(gray, Some(band), width);
    assert(magnitudes[y * w + x] > 0);
}

} // verus!
