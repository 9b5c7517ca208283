//! Selecting the region to capture: drag a rectangle, then click inside it.

use crate::error::{AppError, AppResult};
use crate::screen_rect::{Point, ScreenRect};
use vstd::prelude::*;

verus! {

/// A rectangle by its four sides.
#[derive(Clone, Copy, Debug, PartialEq, Eq, Structural)]
pub struct Bounds {
    pub left: i32,
    pub top: i32,
    pub right: i32,
    pub bottom: i32,
}

/// What was selected: the region, and the point in it at which to scroll.
#[derive(Clone, Copy, Debug, PartialEq, Eq, Structural)]
pub struct RegionSelection {
    pub rect: ScreenRect,
    pub scroll_point: Point,
}

/// What the next click means.
#[derive(Clone, Copy, Debug, PartialEq, Eq, Structural)]
pub enum OverlayPhase {
    /// It starts a rectangle.
    Drawing,
    /// It starts the capture.
    AwaitingStartClick,
}

/// What happens to the overlay. Where the cursor is may be unknown.
#[derive(Clone, Copy, Debug, PartialEq, Eq)]
pub enum OverlayEvent {
    /// The left button goes down.
    ButtonDown(Option<Point>),
    /// The mouse moves.
    MouseMove(Option<Point>),
    /// The left button goes up.
    ButtonUp(Option<Point>),
    /// The escape key is pressed, or the overlay is closed.
    Dismiss,
}

/// What the overlay has to do.
#[derive(Clone, Copy, Debug, PartialEq, Eq, Structural)]
pub enum OverlayEffect {
    /// Nothing.
    Ignore,
    /// Hold on to the mouse, and paint anew.
    GrabAndRedraw,
    /// Paint anew.
    Redraw,
    /// Let the mouse go, and paint anew.
    ReleaseAndRedraw,
    /// Close.
    Quit,
    /// Let the mouse go, and close.
    ReleaseAndQuit,
}

/// Where a selection stands.
#[derive(Clone, Copy, Debug)]
pub struct OverlayState {
    pub bounds: Bounds,
    pub start: Option<Point>,
    pub current: Option<Point>,
    pub scroll_point: Option<Point>,
    pub cancelled: bool,
    pub dragging: bool,
    pub phase: OverlayPhase,
}

/// The cursor position that comes with an event.
pub open spec fn cursor(event: OverlayEvent) -> Option<Point> {
    match event {
        OverlayEvent::ButtonDown(point) => point,
        OverlayEvent::MouseMove(point) => point,
        OverlayEvent::ButtonUp(point) => point,
        OverlayEvent::Dismiss => None,
    }
}

impl OverlayState {
    /// The rectangle that is drawn.
    pub open spec fn drawn(self) -> Option<ScreenRect> {
        match (self.start, self.current) {
            (Some(start), Some(current)) => crate::screen_rect::between(start, current),
            _ => None,
        }
    }

    /// A rectangle has two corners in reach of each other. There is one before the click that
    /// starts the capture, and that click lies in it.
    pub open spec fn wf(self) -> bool {
        &&& self.start is Some <==> self.current is Some
        &&& (self.start, self.current) matches (
            Some(start),
            Some(current),
        ) ==> crate::screen_rect::are_in_reach(start, current)
        &&& self.dragging ==> self.start is Some && self.phase == OverlayPhase::Drawing
        &&& self.phase == OverlayPhase::AwaitingStartClick ==> self.drawn() is Some
        &&& self.scroll_point matches Some(point) ==> self.phase == OverlayPhase::AwaitingStartClick
            && self.drawn()->0.holds(point)
    }

    /// The state after an event, and what has to be done.
    pub open spec fn after(self, event: OverlayEvent) -> (OverlayState, OverlayEffect) {
        match event {
            OverlayEvent::ButtonDown(None) => (self, OverlayEffect::Ignore),
            OverlayEvent::ButtonDown(Some(point)) => match self.phase {
                OverlayPhase::Drawing => (
                    OverlayState {
                        dragging: true,
                        start: Some(point),
                        current: Some(point),
                        ..self
                    },
                    OverlayEffect::GrabAndRedraw,
                ),
                OverlayPhase::AwaitingStartClick => if self.drawn() is Some
                    && self.drawn()->0.holds(point) {
                    (
                        OverlayState { scroll_point: Some(point), ..self },
                        OverlayEffect::Quit,
                    )
                } else {
                    (self, OverlayEffect::Ignore)
                },
            },
            OverlayEvent::MouseMove(point) => if self.dragging && point is Some {
                (OverlayState { current: point, ..self }, OverlayEffect::Redraw)
            } else {
                (self, OverlayEffect::Ignore)
            },
            OverlayEvent::ButtonUp(point) => if self.dragging {
                let dropped = OverlayState {
                    dragging: false,
                    current: if point is Some {
                        point
                    } else {
                        self.current
                    },
                    ..self
                };
                (
                    OverlayState {
                        phase: if dropped.drawn() is Some {
                            OverlayPhase::AwaitingStartClick
                        } else {
                            self.phase
                        },
                        ..dropped
                    },
                    OverlayEffect::ReleaseAndRedraw,
                )
            } else {
                (self, OverlayEffect::Ignore)
            },
            OverlayEvent::Dismiss => (
                OverlayState { cancelled: true, ..self },
                OverlayEffect::ReleaseAndQuit,
            ),
        }
    }

    /// A selection that has not begun.
    pub fn new(bounds: Bounds) -> (state: OverlayState)
        ensures
            state.wf(),
            state == (OverlayState {
                bounds,
                start: None,
                current: None,
                scroll_point: None,
                cancelled: false,
                dragging: false,
                phase: OverlayPhase::Drawing,
            }),
    {
        OverlayState {
            bounds,
            start: None,
            current: None,
            scroll_point: None,
            cancelled: false,
            dragging: false,
            phase: OverlayPhase::Drawing,
        }
    }

    /// The rectangle that is drawn, unless it is empty.
    pub fn selection(&self) -> (rect: Option<ScreenRect>)
        requires
            self.wf(),
        ensures
            rect == self.drawn(),
            rect matches Some(r) ==> r.wf(),
    {
        ScreenRect::from_points(self.start?, self.current?)
    }

    /// The rectangle that is drawn, counted from the upper left corner of the overlay.
    pub fn client_selection_rect(&self) -> (rect: Option<Bounds>)
        requires
            self.wf(),
            self.drawn() matches Some(r) ==> {
                &&& i32::MIN <= r.left - self.bounds.left
                &&& r.left + r.width - self.bounds.left <= i32::MAX
                &&& i32::MIN <= r.top - self.bounds.top
                &&& r.top + r.height - self.bounds.top <= i32::MAX
            },
        ensures
            rect is Some <==> self.drawn() is Some,
            (rect, self.drawn()) matches (Some(b), Some(r)) ==> {
                &&& b.left == r.left - self.bounds.left
                &&& b.top == r.top - self.bounds.top
                &&& b.right == r.left + r.width - self.bounds.left
                &&& b.bottom == r.top + r.height - self.bounds.top
            },
    {
        let rect: ScreenRect = self.selection()?;
        Some(
            Bounds {
                left: rect.left - self.bounds.left,
                top: rect.top - self.bounds.top,
                right: rect.right() - self.bounds.left,
                bottom: rect.bottom() - self.bounds.top,
            },
        )
    }

    /// Whether a point lies in the rectangle that is drawn.
    pub fn point_in_selection(&self, point: Point) -> (inside: bool)
        requires
            self.wf(),
        ensures
            inside == (self.drawn() is Some && self.drawn()->0.holds(point)),
    {
        match self.selection() {
            Some(rect) => point.x >= rect.left && point.x < rect.right() && point.y >= rect.top
                && point.y < rect.bottom(),
            None => false,
        }
    }

    /// Takes in an event, and says what has to be done.
    pub fn handle(&mut self, event: OverlayEvent) -> (effect: OverlayEffect)
        requires
            old(self).wf(),
            old(self).dragging && !(event is ButtonDown) && cursor(event) is Some
                ==> crate::screen_rect::are_in_reach(old(self).start->0, cursor(event)->0),
        ensures
            final(self).wf(),
            (*final(self), effect) == old(self).after(event),
    {
        match event {
            OverlayEvent::ButtonDown(None) => OverlayEffect::Ignore,
            OverlayEvent::ButtonDown(Some(point)) => match self.phase {
                OverlayPhase::Drawing => {
                    self.dragging = true;
                    self.start = Some(point);
                    self.current = Some(point);
                    OverlayEffect::GrabAndRedraw
                },
                OverlayPhase::AwaitingStartClick => {
                    if self.point_in_selection(point) {
                        self.scroll_point = Some(point);
                        OverlayEffect::Quit
                    } else {
                        OverlayEffect::Ignore
                    }
                },
            },
            OverlayEvent::MouseMove(point) => {
                if self.dragging && point.is_some() {
                    self.current = point;
                    OverlayEffect::Redraw
                } else {
                    OverlayEffect::Ignore
                }
            },
            OverlayEvent::ButtonUp(point) => {
                if !self.dragging {
                    return OverlayEffect::Ignore;
                }
                self.dragging = false;
                if point.is_some() {
                    self.current = point;
                }
                if self.selection().is_some() {
                    self.phase = OverlayPhase::AwaitingStartClick;
                }
                OverlayEffect::ReleaseAndRedraw
            },
            OverlayEvent::Dismiss => {
                self.cancelled = true;
                OverlayEffect::ReleaseAndQuit
            },
        }
    }
}

/// What a finished selection selects: nothing where it was cancelled, or where no rectangle was
/// drawn and clicked.
pub fn select_capture_region(state: &OverlayState) -> (selected: AppResult<RegionSelection>)
    requires
        state.wf(),
    ensures
        state.cancelled ==> (selected matches Err(AppError::Message(words)) && words@
            == "Region selection was cancelled"@),
        !state.cancelled && !(state.drawn() is Some && state.scroll_point is Some) ==> (
        selected matches Err(AppError::Message(words)) && words@
            == "Selected region is too small"@),
        !state.cancelled && state.drawn() is Some && state.scroll_point is Some ==> (
        selected matches Ok(region) && region.rect == state.drawn()->0 && region.scroll_point
            == state.scroll_point->0),
        selected matches Ok(region) ==> region.rect.wf() && region.rect.holds(region.scroll_point),
{
    if state.cancelled {
        return Err(AppError::Message("Region selection was cancelled".to_owned()));
    }
    match (state.selection(), state.scroll_point) {
        (Some(rect), Some(scroll_point)) => Ok(RegionSelection { rect, scroll_point }),
        _ => Err(AppError::Message("Selected region is too small".to_owned())),
    }
}

/// The bounds of the screen, from its upper left corner and its size.
pub fn screen_bounds(left: i32, top: i32, width: i32, height: i32) -> (bounds: Bounds)
    requires
        i32::MIN <= left + width <= i32::MAX,
        i32::MIN <= top + height <= i32::MAX,
    ensures
        bounds == (Bounds {
            left,
            top,
            right: (left + width) as i32,
            bottom: (top + height) as i32,
        }),
{
    Bounds { left, top, right: left + width, bottom: top + height }
}

/// How wide bounds are.
pub fn rect_width(rect: Bounds) -> (width: i32)
    requires
        i32::MIN <= rect.right - rect.left <= i32::MAX,
    ensures
        width == rect.right - rect.left,
{
    rect.right - rect.left
}

/// How high bounds are.
pub fn rect_height(rect: Bounds) -> (height: i32)
    requires
        i32::MIN <= rect.bottom - rect.top <= i32::MAX,
    ensures
        height == rect.bottom - rect.top,
{
    rect.bottom - rect.top
}

/// Only dismissing cancels a selection, and nothing undoes it.
pub proof fn only_dismissing_cancels(state: OverlayState, event: OverlayEvent)
    ensures
        state.after(event).0.cancelled <==> state.cancelled || event == OverlayEvent::Dismiss,
        state.after(event).0.bounds == state.bounds,
{
}

/// Dragging from one point to another and clicking inside selects the rectangle between them, and
/// the click.
pub proof fn drag_and_click_select(state: OverlayState, from: Point, to: Point, click: Point)
    requires
        state.wf(),
        state.phase == OverlayPhase::Drawing,
        crate::screen_rect::between(from, to) matches Some(rect) && rect.holds(click),
    ensures
        ({
            let pressed = state.after(OverlayEvent::ButtonDown(Some(from))).0;
            let dropped = pressed.after(OverlayEvent::ButtonUp(Some(to))).0;
            let clicked = dropped.after(OverlayEvent::ButtonDown(Some(click)));
            &&& dropped.phase == OverlayPhase::AwaitingStartClick
            &&& clicked.1 == OverlayEffect::Quit
            &&& clicked.0.drawn() == crate::screen_rect::between(from, to)
            &&& clicked.0.scroll_point == Some(click)
            &&& clicked.0.cancelled == state.cancelled
        }),
{
}

} // verus!
