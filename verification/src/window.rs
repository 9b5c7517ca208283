//! The window to capture: found by its title, or the one in the foreground.

use crate::error::{AppError, AppResult};
use crate::screen_rect::{Point, ScreenRect};
use vstd::prelude::*;
use vstd::string::*;

verus! {

/// A window, by its handle and its title.
#[derive(Debug)]
pub struct TargetWindow {
    pub hwnd: isize,
    pub title: String,
}

/// A window among all windows.
#[derive(Debug)]
pub struct WindowInfo {
    pub hwnd: isize,
    pub visible: bool,
    pub title: String,
}

/// What `str::to_lowercase` makes of a text.
pub uninterp spec fn lowercase(text: Seq<char>) -> Seq<char>;

/// `str::to_lowercase`: the text in lower case.
#[verifier::external_body]
fn to_lowercase(text: &str) -> (lower: String)
    ensures
        lower@ == lowercase(text@),
{
    text.to_lowercase()
}

/// The part occurs in the text, in one piece.
pub open spec fn occurs_in(part: Seq<char>, text: Seq<char>) -> bool {
    exists|at: int| is_at(part, text, at)
}

/// The part occurs in the text at this place.
pub open spec fn is_at(part: Seq<char>, text: Seq<char>, at: int) -> bool {
    &&& 0 <= at
    &&& at + part.len() <= text.len()
    &&& text.subrange(at, at + part.len()) == part
}

/// `str::contains`: whether one text occurs in another.
#[verifier::external_body]
fn contains_text(text: &str, part: &str) -> (found: bool)
    ensures
        found == occurs_in(part@, text@),
{
    text.contains(part)
}

/// What `String::from_utf16_lossy` makes of code units.
pub uninterp spec fn utf16_text(units: Seq<u16>) -> Seq<char>;

/// `String::from_utf16_lossy`: the text of UTF-16 code units.
#[verifier::external_body]
fn from_utf16_lossy(units: &[u16]) -> (text: String)
    ensures
        text@ == utf16_text(units@),
{
    String::from_utf16_lossy(units)
}

/// A visible window with a title in which the text occurs, whatever the case.
pub open spec fn is_match(window: WindowInfo, filter: Seq<char>) -> bool {
    &&& window.visible
    &&& window.title@.len() > 0
    &&& occurs_in(lowercase(filter), lowercase(window.title@))
}

/// The first window that matches.
pub open spec fn first_match(windows: Seq<WindowInfo>, filter: Seq<char>, i: int) -> bool {
    &&& 0 <= i < windows.len()
    &&& is_match(windows[i], filter)
    &&& forall|j: int| 0 <= j < i ==> !is_match(#[trigger] windows[j], filter)
}

/// Only one window is the first that matches.
pub proof fn first_match_is_unique(windows: Seq<WindowInfo>, filter: Seq<char>, a: int, b: int)
    requires
        first_match(windows, filter, a),
        first_match(windows, filter, b),
    ensures
        a == b,
{
    if a < b {
        assert(!is_match(windows[a], filter));
    } else if b < a {
        assert(!is_match(windows[b], filter));
    }
}

/// Whether a title in lower case holds a text in lower case.
pub fn title_matches(visible: bool, title: &str, lower_title: &str, needle: &str) -> (matched: bool)
    ensures
        matched == (visible && title@.len() > 0 && occurs_in(needle@, lower_title@)),
{
    visible && !title.is_empty() && contains_text(lower_title, needle)
}

/// Finds the first visible window with a title in which the text occurs, whatever the case.
pub fn find_by_title(filter: &str, windows: &Vec<WindowInfo>) -> (found: AppResult<TargetWindow>)
    ensures
        match found {
            Ok(target) => exists|i: int| #[trigger]
                first_match(windows@, filter@, i) && target.hwnd == windows@[i].hwnd
                    && target.title@ == windows@[i].title@,
            Err(error) => (error matches AppError::WindowNotFound(title) && title@ == filter@)
                && forall|i: int|
                0 <= i < windows@.len() ==> !is_match(#[trigger] windows@[i], filter@),
        },
{
    let needle: String = to_lowercase(filter);
    let mut i: usize = 0;
    while i < windows.len()
        invariant
            i <= windows@.len(),
            needle@ == lowercase(filter@),
            forall|j: int| 0 <= j < i ==> !is_match(#[trigger] windows@[j], filter@),
        decreases windows.len() - i,
    {
        let window: &WindowInfo = &windows[i];
        let lower: String = to_lowercase(window.title.as_str());
        if title_matches(window.visible, window.title.as_str(), lower.as_str(), needle.as_str()) {
            assert(first_match(windows@, filter@, i as int));
            return Ok(TargetWindow { hwnd: window.hwnd, title: window.title.clone() });
        }
        i += 1;
    }
    Err(AppError::WindowNotFound(filter.to_owned()))
}

/// The window in the foreground, unless there is none.
pub fn from_foreground_window(hwnd: isize, title: String) -> (found: AppResult<TargetWindow>)
    ensures
        hwnd == 0 ==> found matches Err(AppError::NoForegroundWindow),
        hwnd != 0 ==> (found matches Ok(target) && target.hwnd == hwnd && target.title == title),
{
    if hwnd == 0 {
        return Err(AppError::NoForegroundWindow);
    }
    Ok(TargetWindow { hwnd, title })
}

/// A rectangle on the screen from two corners of a window, unless it is empty.
pub fn client_rect_in_screen_space(top_left: Point, bottom_right: Point) -> (area: AppResult<
    ScreenRect,
>)
    requires
        i32::MIN <= bottom_right.x - top_left.x <= i32::MAX,
        i32::MIN <= bottom_right.y - top_left.y <= i32::MAX,
    ensures
        bottom_right.x <= top_left.x || bottom_right.y <= top_left.y ==> (area matches Err(
            AppError::Message(words),
        ) && words@ == "Target window has an empty client area"@),
        bottom_right.x > top_left.x && bottom_right.y > top_left.y ==> (area matches Ok(rect)
            && rect.wf() && Some(rect) == crate::screen_rect::between(top_left, bottom_right)),
{
    let width: i32 = bottom_right.x - top_left.x;
    let height: i32 = bottom_right.y - top_left.y;
    if width <= 0 || height <= 0 {
        return Err(AppError::Message("Target window has an empty client area".to_owned()));
    }
    Ok(ScreenRect { left: top_left.x, top: top_left.y, width, height })
}

/// The title of a window, from how long it is said to be and how much of it was written.
pub fn window_title(len: i32, units: &Vec<u16>, written: i32) -> (title: String)
    requires
        len > 0 ==> 0 <= written <= units@.len(),
    ensures
        len <= 0 ==> title@.len() == 0,
        len > 0 ==> title@ == utf16_text(units@.take(written as int)),
{
    if len <= 0 {
        return String::new();
    }
    let written_units: &[u16] = &units.as_slice()[0..written as usize];
    assert(written_units@ =~= units@.take(written as int));
    from_utf16_lossy(written_units)
}

impl TargetWindow {
    /// The window with a title, or without one the window in the foreground.
    pub fn resolve(
        title_filter: Option<&str>,
        windows: &Vec<WindowInfo>,
        foreground: isize,
        foreground_title: String,
    ) -> (found: AppResult<TargetWindow>)
        ensures
            match (title_filter, found) {
                (Some(filter), Ok(target)) => exists|i: int| #[trigger]
                    first_match(windows@, filter@, i) && target.hwnd == windows@[i].hwnd
                        && target.title@ == windows@[i].title@,
                (Some(filter), Err(error)) => (error matches AppError::WindowNotFound(title)
                    && title@ == filter@) && forall|i: int|
                    0 <= i < windows@.len() ==> !is_match(#[trigger] windows@[i], filter@),
                (None, Ok(target)) => foreground != 0 && target.hwnd == foreground && target.title
                    == foreground_title,
                (None, Err(error)) => foreground == 0 && error == AppError::NoForegroundWindow,
            },
    {
        match title_filter {
            Some(filter) => find_by_title(filter, windows),
            None => from_foreground_window(foreground, foreground_title),
        }
    }

    /// Checks that the window has come to the foreground.
    pub fn activate(&self, active: isize) -> (activated: AppResult<()>)
        ensures
            activated is Ok <==> active == self.hwnd,
            activated matches Err(error) ==> (error matches AppError::Message(words) && words@
                == "Failed to bring '"@ + self.title@ + "' to the foreground"@),
    {
        if active != self.hwnd {
            let mut words: String = "Failed to bring '".to_owned();
            words.append(self.title.as_str());
            words.append("' to the foreground");
            return Err(AppError::Message(words));
        }
        Ok(())
    }
}

} // verus!
