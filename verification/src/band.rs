//! Column ranges of an image.

use crate::raster::{GrayMap, Raster};
use vstd::prelude::*;

verus! {

/// The columns from `left` up to, not counting, `right`.
#[derive(Clone, Copy, Debug, PartialEq, Eq, Structural)]
pub struct HorizontalBand {
    pub left: u32,
    pub right: u32,
}

/// The part of a band that lies in an image of this width, unless it is empty.
pub open spec fn clipped(band: Option<HorizontalBand>, width: u32) -> Option<HorizontalBand> {
    match band {
        None => None,
        Some(band) => {
            let left = if band.left < width { band.left } else { width };
            let right = if band.right < width { band.right } else { width };
            if left < right {
                Some(HorizontalBand { left, right })
            } else {
                None
            }
        },
    }
}

/// The clipped band, or all columns where there is none.
pub open spec fn clipped_or_all(band: Option<HorizontalBand>, width: u32) -> HorizontalBand {
    match clipped(band, width) {
        Some(band) => band,
        None => HorizontalBand { left: 0, right: width },
    }
}

/// The columns of the clipped band, or the whole image where there is none.
pub open spec fn banded(image: Raster, band: Option<HorizontalBand>, width: u32) -> Raster {
    match clipped(band, width) {
        Some(band) => image.gray_columns(band.left as int, band.right as int),
        None => image,
    }
}

/// A clipped band lies inside the image, is not empty, and clipping it again leaves it as it is.
pub proof fn clipping_settles(band: Option<HorizontalBand>, width: u32)
    ensures
        clipped(band, width) matches Some(b) ==> b.left < b.right <= width,
        clipped(clipped(band, width), width) == clipped(band, width),
{
}

impl HorizontalBand {
    /// How many columns the band covers.
    pub fn width(self) -> (columns: u32)
        ensures
            columns == if self.right > self.left {
                self.right - self.left
            } else {
                0
            },
    {
        self.right.saturating_sub(self.left)
    }
}

/// Clips a band to the width of an image.
pub fn normalized_band(band: Option<HorizontalBand>, width: u32) -> (normalized: Option<
    HorizontalBand,
>)
    ensures
        normalized == clipped(band, width),
{
    let band: HorizontalBand = band?;
    let left: u32 = if band.left < width {
        band.left
    } else {
        width
    };
    let right: u32 = if band.right < width {
        band.right
    } else {
        width
    };
    if left < right {
        Some(HorizontalBand { left, right })
    } else {
        None
    }
}

/// Cuts out the columns of a band. Without a band the image stays whole.
pub fn crop_gray_to_band(image: &GrayMap, band: Option<HorizontalBand>) -> (cut: GrayMap)
    requires
        image.wf(),
    ensures
        cut.wf(),
        cut@ == banded(image@, band, image.width),
        cut.height == image.height,
{
    match normalized_band(band, image.width) {
        None => image.duplicate(),
        Some(band) => image.crop_columns(band.left, band.right),
    }
}

} // verus!
