//! Rectangles on the screen, by the points in them.

use crate::capture::MonitorArea;
use crate::region::{OverlayEffect, OverlayEvent, OverlayPhase, OverlayState};
use crate::screen_rect::{Point, ScreenRect};
use vstd::prelude::*;

verus! {

/// The rectangle between two corners holds the points between them: from the lower coordinate on,
/// up to the higher one, in both directions. It is there where it holds a point.
pub proof fn a_rectangle_holds_what_lies_between(a: Point, b: Point, point: Point)
    requires
        crate::screen_rect::are_in_reach(a, b),
    ensures
        crate::screen_rect::between(a, b) is Some <==> a.x != b.x && a.y != b.y,
        crate::screen_rect::between(a, b) matches Some(rect) ==> (rect.holds(point) <==> {
            &&& a.x <= point.x < b.x || b.x <= point.x < a.x
            &&& a.y <= point.y < b.y || b.y <= point.y < a.y
        }),
{
}

/// Any two opposite corners make the same rectangle.
pub proof fn the_other_corners_make_the_same_rectangle(a: Point, b: Point)
    ensures
        crate::screen_rect::between(a, b) == crate::screen_rect::between(
            Point { x: b.x, y: a.y },
            Point { x: a.x, y: b.y },
        ),
{
}

/// The right end lies as far from the left end as the rectangle is wide, and the lower end as far
/// from the upper one as it is high.
pub proof fn a_rectangle_is_as_large_as_its_corners_are_apart(a: Point, b: Point)
    requires
        crate::screen_rect::are_in_reach(a, b),
    ensures
        crate::screen_rect::between(a, b) matches Some(rect) ==> {
            &&& rect.width == a.x - b.x || rect.width == b.x - a.x
            &&& rect.height == a.y - b.y || rect.height == b.y - a.y
            &&& rect.width > 0
            &&& rect.height > 0
            &&& rect.left == a.x || rect.left == b.x
            &&& rect.top == a.y || rect.top == b.y
            &&& rect.left <= a.x && rect.left <= b.x
            &&& rect.top <= a.y && rect.top <= b.y
        },
{
}

/// A half and itself make the length, or miss one of it, and no half is further from zero than its
/// length.
pub proof fn two_halves_make_a_length(length: i32)
    ensures
        length >= 0 ==> 0 <= length - 2 * crate::screen_rect::half(length) <= 1,
        length <= 0 ==> -1 <= length - 2 * crate::screen_rect::half(length) <= 0,
{
}

/// A rectangle ends on a monitor where none of its points lies to the right of the monitor or below
/// it.
pub proof fn a_rectangle_ends_where_its_points_end(rect: ScreenRect, monitor: MonitorArea)
    requires
        rect.wf(),
        monitor.wf(),
    ensures
        monitor.ends_after(rect) <==> forall|point: Point| #[trigger]
            rect.holds(point) ==> point.x < monitor.left + monitor.width && point.y < monitor.top
                + monitor.height,
        monitor.ends_after(rect) && monitor.starts_before(rect) <==> forall|point: Point| #[trigger]
            rect.holds(point) ==> {
                &&& monitor.left <= point.x < monitor.left + monitor.width
                &&& monitor.top <= point.y < monitor.top + monitor.height
            },
{
    let first = Point { x: rect.left, y: rect.top };
    let last = Point {
        x: (rect.left + rect.width - 1) as i32,
        y: (rect.top + rect.height - 1) as i32,
    };
    assert(rect.holds(first));
    assert(rect.holds(last));
}

/// An offset that is not negative is kept, and a negative one is off by a whole turn of the
/// unsigned numbers.
pub proof fn offsets_turn_over(distance: int)
    requires
        i32::MIN <= distance <= i32::MAX,
    ensures
        crate::capture::wrapped(distance) == distance || crate::capture::wrapped(distance)
            == distance + 0x1_0000_0000,
{
}

/// Each pixel keeps its place and its green. Its red and its blue change places, and it becomes
/// opaque.
pub proof fn pixels_swap_red_and_blue(bgra: Seq<u8>, pixel: int)
    requires
        0 <= pixel,
        pixel * 4 + 4 <= bgra.len(),
    ensures
        ({
            let rgba = crate::capture::opaque_rgba(bgra);
            &&& rgba.len() == bgra.len()
            &&& rgba[pixel * 4] == bgra[pixel * 4 + 2]
            &&& rgba[pixel * 4 + 1] == bgra[pixel * 4 + 1]
            &&& rgba[pixel * 4 + 2] == bgra[pixel * 4]
            &&& rgba[pixel * 4 + 3] == 255
        }),
{
}

/// Without a known cursor position, pressing and moving change nothing.
pub proof fn unknown_positions_are_ignored(state: OverlayState)
    ensures
        state.after(OverlayEvent::ButtonDown(None)) == (state, OverlayEffect::Ignore),
        state.after(OverlayEvent::MouseMove(None)) == (state, OverlayEffect::Ignore),
{
}

/// Without a button held down, moving and letting go change nothing.
pub proof fn only_a_held_button_draws(state: OverlayState, point: Option<Point>)
    requires
        !state.dragging,
    ensures
        state.after(OverlayEvent::MouseMove(point)) == (state, OverlayEffect::Ignore),
        state.after(OverlayEvent::ButtonUp(point)) == (state, OverlayEffect::Ignore),
{
}

/// Pressing the button while drawing starts a new rectangle at the cursor, whatever was drawn, and
/// moving draws it from there to wherever the cursor is.
pub proof fn rectangles_follow_the_cursor(state: OverlayState, from: Point, via: Point, to: Point)
    requires
        state.phase == OverlayPhase::Drawing,
    ensures
        ({
            let pressed = state.after(OverlayEvent::ButtonDown(Some(from)));
            let passed = pressed.0.after(OverlayEvent::MouseMove(Some(via)));
            let moved = passed.0.after(OverlayEvent::MouseMove(Some(to)));
            &&& pressed.1 == OverlayEffect::GrabAndRedraw
            &&& pressed.0.drawn() is None
            &&& pressed.0.dragging
            &&& moved.1 == OverlayEffect::Redraw
            &&& moved.0.drawn() == crate::screen_rect::between(from, to)
            &&& moved.0.dragging
            &&& moved.0.phase == OverlayPhase::Drawing
            &&& moved.0.scroll_point == state.scroll_point
        }),
{
}

/// Letting go ends the rectangle at the cursor, or where it was last seen. A rectangle is kept and
/// waits for a click. An empty one is not, and can be drawn again.
pub proof fn letting_go_ends_the_rectangle(state: OverlayState, point: Option<Point>)
    requires
        state.wf(),
        state.dragging,
    ensures
        ({
            let end = match point {
                Some(p) => p,
                None => state.current->0,
            };
            let dropped = state.after(OverlayEvent::ButtonUp(point));
            let rect = crate::screen_rect::between(state.start->0, end);
            &&& dropped.1 == OverlayEffect::ReleaseAndRedraw
            &&& !dropped.0.dragging
            &&& dropped.0.drawn() == rect
            &&& dropped.0.phase == OverlayPhase::AwaitingStartClick <==> rect is Some
            &&& dropped.0.scroll_point == state.scroll_point
        }),
{
}

/// A rectangle that waits for a click stays as it is, whatever happens. Only a click in it is taken:
/// it sets the point at which to scroll, and closes the overlay.
pub proof fn waiting_rectangles_stay(state: OverlayState, event: OverlayEvent, point: Point)
    requires
        state.wf(),
        state.phase == OverlayPhase::AwaitingStartClick,
    ensures
        state.after(event).0.drawn() == state.drawn(),
        state.after(event).0.phase == OverlayPhase::AwaitingStartClick,
        ({
            let clicked = state.after(OverlayEvent::ButtonDown(Some(point)));
            if state.drawn()->0.holds(point) {
                &&& clicked.0.scroll_point == Some(point)
                &&& clicked.1 == OverlayEffect::Quit
                &&& clicked.0.cancelled == state.cancelled
            } else {
                clicked == (state, OverlayEffect::Ignore)
            }
        }),
{
}

/// Dismissing the overlay lets the mouse go and closes it, and keeps all but that it was cancelled.
pub proof fn dismissing_closes_the_overlay(state: OverlayState)
    ensures
        ({
            let dismissed = state.after(OverlayEvent::Dismiss);
            &&& dismissed.1 == OverlayEffect::ReleaseAndQuit
            &&& dismissed.0.cancelled
            &&& dismissed.0.start == state.start
            &&& dismissed.0.current == state.current
            &&& dismissed.0.scroll_point == state.scroll_point
            &&& dismissed.0.dragging == state.dragging
            &&& dismissed.0.phase == state.phase
        }),
{
}

} // verus!
