//! Points and rectangles on the screen.

use vstd::prelude::*;

verus! {

/// A point on the screen.
#[derive(Clone, Copy, Debug, PartialEq, Eq, Structural)]
pub struct Point {
    pub x: i32,
    pub y: i32,
}

/// A rectangle on the screen, by its upper left corner and its size.
#[derive(Clone, Copy, Debug, PartialEq, Eq, Structural)]
pub struct ScreenRect {
    pub left: i32,
    pub top: i32,
    pub width: i32,
    pub height: i32,
}

/// The smaller of two coordinates.
pub open spec fn least(a: i32, b: i32) -> i32 {
    if a < b {
        a
    } else {
        b
    }
}

/// The larger of two coordinates.
pub open spec fn greatest(a: i32, b: i32) -> i32 {
    if a < b {
        b
    } else {
        a
    }
}

/// The points lie no further apart than a coordinate can tell.
pub open spec fn are_in_reach(a: Point, b: Point) -> bool {
    &&& greatest(a.x, b.x) - least(a.x, b.x) <= i32::MAX
    &&& greatest(a.y, b.y) - least(a.y, b.y) <= i32::MAX
}

/// The rectangle between two opposite corners, unless it is empty.
pub open spec fn between(a: Point, b: Point) -> Option<ScreenRect> {
    if a.x == b.x || a.y == b.y {
        None
    } else {
        Some(
            ScreenRect {
                left: least(a.x, b.x),
                top: least(a.y, b.y),
                width: (greatest(a.x, b.x) - least(a.x, b.x)) as i32,
                height: (greatest(a.y, b.y) - least(a.y, b.y)) as i32,
            },
        )
    }
}

/// Half of a length, rounded towards zero.
pub open spec fn half(length: i32) -> int {
    if length >= 0 {
        length as int / 2
    } else {
        -(-length as int / 2)
    }
}

impl ScreenRect {
    /// The rectangle is not empty, and its right and lower ends are coordinates.
    pub open spec fn wf(self) -> bool {
        &&& 0 < self.width
        &&& 0 < self.height
        &&& self.left + self.width <= i32::MAX
        &&& self.top + self.height <= i32::MAX
    }

    /// The point lies in the rectangle. The right and lower ends do not belong to it.
    pub open spec fn holds(self, point: Point) -> bool {
        &&& self.left <= point.x < self.left + self.width
        &&& self.top <= point.y < self.top + self.height
    }

    /// The rectangle between two opposite corners, whichever they are, unless it is empty.
    pub fn from_points(a: Point, b: Point) -> (rect: Option<ScreenRect>)
        requires
            are_in_reach(a, b),
        ensures
            rect == between(a, b),
            rect matches Some(r) ==> r.wf(),
    {
        let left: i32 = if a.x < b.x {
            a.x
        } else {
            b.x
        };
        let top: i32 = if a.y < b.y {
            a.y
        } else {
            b.y
        };
        let right: i32 = if a.x < b.x {
            b.x
        } else {
            a.x
        };
        let bottom: i32 = if a.y < b.y {
            b.y
        } else {
            a.y
        };
        let width: i32 = right - left;
        let height: i32 = bottom - top;
        if width > 0 && height > 0 {
            Some(ScreenRect { left, top, width, height })
        } else {
            None
        }
    }

    /// The middle of the rectangle.
    pub fn center(&self) -> (point: Point)
        requires
            i32::MIN <= self.left + half(self.width) <= i32::MAX,
            i32::MIN <= self.top + half(self.height) <= i32::MAX,
        ensures
            point.x == self.left + half(self.width),
            point.y == self.top + half(self.height),
    {
        Point { x: self.left + halved(self.width), y: self.top + halved(self.height) }
    }

    /// The first column to the right of the rectangle.
    pub fn right(&self) -> (x: i32)
        requires
            i32::MIN <= self.left + self.width <= i32::MAX,
        ensures
            x == self.left + self.width,
    {
        self.left + self.width
    }

    /// The first row below the rectangle.
    pub fn bottom(&self) -> (y: i32)
        requires
            i32::MIN <= self.top + self.height <= i32::MAX,
        ensures
            y == self.top + self.height,
    {
        self.top + self.height
    }
}

/// Halves a length, rounding towards zero.
fn halved(length: i32) -> (part: i32)
    ensures
        part == half(length),
{
    let wide: i64 = length as i64;
    if wide >= 0 {
        (wide / 2) as i32
    } else {
        (-((-wide) / 2)) as i32
    }
}

/// Which corner comes first makes no difference.
pub proof fn corners_can_be_swapped(a: Point, b: Point)
    ensures
        between(a, b) == between(b, a),
        are_in_reach(a, b) == are_in_reach(b, a),
{
}

/// A rectangle is the one between its own corners.
pub proof fn rectangle_between_its_corners(rect: ScreenRect)
    requires
        rect.wf(),
    ensures
        between(
            Point { x: rect.left, y: rect.top },
            Point { x: (rect.left + rect.width) as i32, y: (rect.top + rect.height) as i32 },
        ) == Some(rect),
{
}

/// The middle of a rectangle lies in it.
pub proof fn center_lies_inside(rect: ScreenRect)
    requires
        rect.wf(),
    ensures
        rect.holds(
            Point {
                x: (rect.left + half(rect.width)) as i32,
                y: (rect.top + half(rect.height)) as i32,
            },
        ),
{
}

} // verus!
