//! Which part of which screen to capture, and what a capture has to look like.

use crate::error::{AppError, AppResult};
use crate::raster::Frame;
use crate::screen_rect::ScreenRect;
use vstd::prelude::*;

verus! {

/// A monitor, by its upper left corner on the screen and its size.
#[derive(Clone, Copy, Debug, PartialEq, Eq, Structural)]
pub struct MonitorArea {
    pub left: i32,
    pub top: i32,
    pub width: u32,
    pub height: u32,
}

impl MonitorArea {
    /// The right and lower ends are coordinates.
    pub open spec fn wf(self) -> bool {
        &&& self.left + self.width <= i32::MAX
        &&& self.top + self.height <= i32::MAX
    }

    /// The rectangle starts no further from the corner of the monitor than a coordinate can tell.
    pub open spec fn is_in_reach(self, rect: ScreenRect) -> bool {
        &&& i32::MIN <= rect.left - self.left <= i32::MAX
        &&& i32::MIN <= rect.top - self.top <= i32::MAX
    }

    /// The rectangle starts on the monitor or to the right of it or below.
    pub open spec fn starts_before(self, rect: ScreenRect) -> bool {
        self.left <= rect.left && self.top <= rect.top
    }

    /// The right and lower ends of the rectangle lie on the monitor.
    pub open spec fn ends_after(self, rect: ScreenRect) -> bool {
        &&& rect.left + rect.width <= self.left + self.width
        &&& rect.top + rect.height <= self.top + self.height
    }
}

/// A part of one monitor, counted from its upper left corner.
#[derive(Clone, Copy, Debug, PartialEq, Eq, Structural)]
pub struct XcapScreenCapture {
    pub offset_x: u32,
    pub offset_y: u32,
    pub width: u32,
    pub height: u32,
}

/// A part of the screen that may span monitors.
#[derive(Clone, Copy, Debug, PartialEq, Eq, Structural)]
pub struct GdiScreenCapture {
    pub rect: ScreenRect,
}

/// How to capture a rectangle.
#[derive(Clone, Copy, Debug, PartialEq, Eq, Structural)]
pub enum ScreenCapture {
    /// From one monitor.
    Xcap(XcapScreenCapture),
    /// From the screen.
    Gdi(GdiScreenCapture),
}

/// A distance as an unsigned number, a negative one counted down from two to the thirty-second.
pub open spec fn wrapped(distance: int) -> u32 {
    if distance >= 0 {
        distance as u32
    } else {
        (distance + 0x1_0000_0000) as u32
    }
}

/// Makes a distance an unsigned number.
fn wrap_offset(distance: i32) -> (offset: u32)
    ensures
        offset == wrapped(distance as int),
{
    if distance >= 0 {
        distance as u32
    } else {
        (distance as i64 + 0x1_0000_0000) as u32
    }
}

impl XcapScreenCapture {
    /// The part of the monitor that a rectangle takes, where it ends on it.
    pub fn try_new(rect: ScreenRect, monitor: MonitorArea) -> (capture: Option<XcapScreenCapture>)
        requires
            rect.wf(),
            monitor.wf(),
            monitor.is_in_reach(rect),
        ensures
            capture is Some <==> monitor.ends_after(rect),
            capture matches Some(part) ==> {
                &&& part.offset_x == wrapped(rect.left - monitor.left)
                &&& part.offset_y == wrapped(rect.top - monitor.top)
                &&& part.width == rect.width
                &&& part.height == rect.height
                &&& monitor.starts_before(rect) ==> part.offset_x + part.width <= monitor.width
                    && part.offset_y + part.height <= monitor.height
            },
    {
        let monitor_right: i64 = monitor.left as i64 + monitor.width as i64;
        let monitor_bottom: i64 = monitor.top as i64 + monitor.height as i64;
        if rect.right() as i64 > monitor_right || rect.bottom() as i64 > monitor_bottom {
            return None;
        }
        Some(
            XcapScreenCapture {
                offset_x: wrap_offset(rect.left - monitor.left),
                offset_y: wrap_offset(rect.top - monitor.top),
                width: rect.width as u32,
                height: rect.height as u32,
            },
        )
    }
}

impl GdiScreenCapture {
    /// Captures a rectangle of the screen.
    pub fn new(rect: ScreenRect) -> (capture: GdiScreenCapture)
        ensures
            capture.rect == rect,
    {
        GdiScreenCapture { rect }
    }

    /// How many bytes the pixels of the rectangle take.
    pub fn buffer_len(&self) -> (bytes: usize)
        requires
            self.rect.wf(),
            self.rect.height * (self.rect.width * 4) <= usize::MAX,
        ensures
            bytes == self.rect.height * (self.rect.width * 4),
    {
        let row: u64 = self.rect.width as u64 * 4;
        assert(self.rect.height * row <= 0x7fff_ffff * (0x7fff_ffff * 4)) by (nonlinear_arith)
            requires
                0 <= self.rect.height <= 0x7fff_ffff,
                0 <= row <= 0x7fff_ffff * 4,
        ;
        (self.rect.height as u64 * row) as usize
    }
}

impl ScreenCapture {
    /// Captures from the monitor on which the rectangle starts, where it also ends there, and from
    /// the screen otherwise.
    pub fn new(rect: ScreenRect, monitor: MonitorArea) -> (capture: ScreenCapture)
        requires
            rect.wf(),
            monitor.wf(),
            monitor.is_in_reach(rect),
        ensures
            monitor.ends_after(rect) ==> capture == ScreenCapture::Xcap(
                XcapScreenCapture {
                    offset_x: wrapped(rect.left - monitor.left),
                    offset_y: wrapped(rect.top - monitor.top),
                    width: rect.width as u32,
                    height: rect.height as u32,
                },
            ),
            !monitor.ends_after(rect) ==> capture == ScreenCapture::Gdi(GdiScreenCapture { rect }),
    {
        match XcapScreenCapture::try_new(rect, monitor) {
            Some(part) => ScreenCapture::Xcap(part),
            None => ScreenCapture::Gdi(GdiScreenCapture::new(rect)),
        }
    }
}

/// Refuses a capture without pixels.
pub fn require_pixels(frame: Frame) -> (captured: AppResult<Frame>)
    ensures
        frame.width == 0 || frame.height == 0 ==> captured matches Err(AppError::EmptyCapture),
        frame.width > 0 && frame.height > 0 ==> (captured matches Ok(same) && same
            == frame),
{
    if frame.width == 0 || frame.height == 0 {
        return Err(AppError::EmptyCapture);
    }
    Ok(frame)
}

/// Blue, green, red and anything made red, green, blue and opaque, in each pixel.
pub open spec fn opaque_rgba(bgra: Seq<u8>) -> Seq<u8> {
    Seq::new(
        bgra.len(),
        |i: int|
            if i % 4 == 0 {
                bgra[i + 2]
            } else if i % 4 == 2 {
                bgra[i - 2]
            } else if i % 4 == 3 {
                255
            } else {
                bgra[i]
            },
    )
}

/// Swapping red and blue twice restores them, and leaves opaque pixels as they were.
pub proof fn swapping_twice_restores_colours(bgra: Seq<u8>)
    requires
        bgra.len() % 4 == 0,
    ensures
        opaque_rgba(opaque_rgba(bgra)).len() == bgra.len(),
        forall|i: int|
            0 <= i < bgra.len() && (i % 4 != 3 || bgra[i] == 255) ==> #[trigger] opaque_rgba(
                opaque_rgba(bgra),
            )[i] == bgra[i],
{
}

/// Makes a frame of the bytes that the screen hands out, blue first, unless nothing was copied.
pub fn frame_from_bgra(width: u32, height: u32, pixels: Vec<u8>, copied: i32) -> (captured:
    AppResult<Frame>)
    ensures
        copied == 0 ==> (captured matches Err(AppError::Message(words)) && words@
            == "GetDIBits returned no pixels"@),
        copied != 0 && pixels@.len() != height * (width * 4) ==> captured matches Err(
            AppError::EmptyCapture,
        ),
        copied != 0 && pixels@.len() == height * (width * 4) ==> (captured matches Ok(frame)
            && frame.wf() && frame.width == width && frame.height == height && frame.data@
            == opaque_rgba(pixels@)),
{
    if copied == 0 {
        return Err(AppError::Message("GetDIBits returned no pixels".to_owned()));
    }
    match Frame::from_raw(width, height, pixels) {
        None => Err(AppError::EmptyCapture),
        Some(frame) => {
            proof {
                assert(height * (width * 4) == (height * width) * 4) by (nonlinear_arith);
            }
            Ok(Frame { width, height, data: swap_red_and_blue(frame.data) })
        },
    }
}

/// Swaps the first and third byte of each pixel, and makes the fourth full.
fn swap_red_and_blue(pixels: Vec<u8>) -> (swapped: Vec<u8>)
    requires
        pixels@.len() % 4 == 0,
    ensures
        swapped@ == opaque_rgba(pixels@),
{
    let mut swapped: Vec<u8> = Vec::new();
    let mut i: usize = 0;
    while i < pixels.len()
        invariant
            i <= pixels@.len(),
            i % 4 == 0,
            pixels@.len() % 4 == 0,
            swapped@.len() == i,
            forall|j: int| 0 <= j < i ==> #[trigger] swapped@[j] == opaque_rgba(pixels@)[j],
        decreases pixels.len() - i,
    {
        swapped.push(pixels[i + 2]);
        swapped.push(pixels[i + 1]);
        swapped.push(pixels[i]);
        swapped.push(255);
        i += 4;
    }
    assert(swapped@ =~= opaque_rgba(pixels@));
    swapped
}

} // verus!
