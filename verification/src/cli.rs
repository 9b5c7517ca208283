//! What can be chosen on the command line.

use crate::session::ScrollSettings;
use vstd::prelude::*;

verus! {

/// At most so many scroll steps, unless told otherwise.
pub const DEFAULT_MAX_SCROLLS: usize = 8000;

/// So many milliseconds to settle, unless told otherwise.
pub const DEFAULT_SETTLE_MS: u64 = 250;

/// So many notches for each scroll step, unless told otherwise.
pub const DEFAULT_WHEEL_NOTCHES: i32 = 3;

/// The choices.
#[derive(Debug)]
pub struct Cli {
    /// Capture a visible window with this text in its title, and not the one in the foreground.
    pub title: Option<String>,
    /// Drag out the region to capture.
    pub select_region: bool,
    /// Where the image is written.
    pub output: String,
    /// How many scroll steps there are at most.
    pub max_scrolls: usize,
    /// How long the page settles after each step, in milliseconds.
    pub settle_ms: u64,
    /// How many notches each step takes.
    pub wheel_notches: i32,
}

impl Default for Cli {
    fn default() -> (cli: Cli)
        ensures
            cli.title is None,
            !cli.select_region,
            cli.output@ == "scrollshot.png"@,
            cli.max_scrolls == 8000,
            cli.settle_ms == 250,
            cli.wheel_notches == 3,
            cli.wf(),
    {
        Cli {
            title: None,
            select_region: false,
            output: "scrollshot.png".to_owned(),
            max_scrolls: DEFAULT_MAX_SCROLLS,
            settle_ms: DEFAULT_SETTLE_MS,
            wheel_notches: DEFAULT_WHEEL_NOTCHES,
        }
    }
}

impl Cli {
    /// Each step takes a notch at least.
    pub open spec fn wf(&self) -> bool {
        self.wheel_notches >= 1
    }

    /// Whether each step takes a notch at least.
    pub fn is_valid(&self) -> (valid: bool)
        ensures
            valid == self.wf(),
    {
        self.wheel_notches >= 1
    }

    /// How the page is to be scrolled.
    pub fn scroll_settings(&self) -> (settings: ScrollSettings)
        ensures
            settings.max_scrolls == self.max_scrolls,
            settings.settle_ms == self.settle_ms,
            settings.wheel_notches == self.wheel_notches,
    {
        ScrollSettings {
            max_scrolls: self.max_scrolls,
            settle_ms: self.settle_ms,
            wheel_notches: self.wheel_notches,
        }
    }
}

} // verus!
