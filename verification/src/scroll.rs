//! Scrolling the page with the mouse.

use crate::error::AppError;
use vstd::prelude::*;
use vstd::string::*;

verus! {

/// After the click that gives the page the focus, it gets so many milliseconds.
pub const FOCUS_SETTLE_MS: u64 = 80;

/// Stands for the mouse.
#[derive(Clone, Copy, Debug)]
pub struct ScrollController;

/// What is asked of the mouse.
#[derive(Clone, Copy, Debug, PartialEq, Eq, Structural)]
pub enum InputStep {
    /// To be there.
    Init,
    /// To move.
    MoveMouse,
    /// To click.
    Click,
    /// To scroll.
    Scroll,
}

impl InputStep {
    /// How a failure of the step begins.
    pub open spec fn failure(self) -> Seq<char> {
        match self {
            InputStep::Init => "enigo init failed: "@,
            InputStep::MoveMouse => "move_mouse failed: "@,
            InputStep::Click => "button click failed: "@,
            InputStep::Scroll => "scroll failed: "@,
        }
    }

    /// The error for a step that failed, with the reason.
    pub fn failed(self, reason: &str) -> (error: AppError)
        ensures
            error matches AppError::Message(words) && words@ == self.failure() + reason@,
    {
        let mut words: String = match self {
            InputStep::Init => "enigo init failed: ".to_owned(),
            InputStep::MoveMouse => "move_mouse failed: ".to_owned(),
            InputStep::Click => "button click failed: ".to_owned(),
            InputStep::Scroll => "scroll failed: ".to_owned(),
        };
        words.append(reason);
        AppError::Message(words)
    }
}

impl ScrollController {
    /// The mouse.
    pub fn new() -> (controller: ScrollController)
        ensures
            controller == ScrollController,
    {
        ScrollController
    }
}

} // verus!
