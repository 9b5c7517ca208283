//! What can go wrong, and how it is told.

use vstd::prelude::*;
use vstd::string::*;

verus! {

/// What the functions of the library return.
pub type AppResult<T> = Result<T, AppError>;

/// The reasons for which a capture ends without an image.
#[derive(Debug)]
pub enum AppError {
    /// The operating system refused a call.
    Windows(String),
    /// The screen capture backend failed.
    XCap(String),
    /// Anything else, in words.
    Message(String),
    /// No window has the focus.
    NoForegroundWindow,
    /// No visible window has a title with this text in it.
    WindowNotFound(String),
    /// A capture came without pixels.
    EmptyCapture,
    /// A frame came in another size than the one before it.
    FrameSizeChanged {
        expected_width: u32,
        expected_height: u32,
        actual_width: u32,
        actual_height: u32,
    },
    /// Nothing showed how far the page moved.
    OverlapNotFound,
    /// Frames and overlaps do not go together.
    InvalidStitchState,
    /// The image could not be written.
    SaveImage { path: String, source: String },
}

/// `String::push`: puts a character behind the text.
pub assume_specification[ String::push ](text: &mut String, c: char)
    ensures
        final(text)@ == old(text)@.push(c),
;

/// The character of a digit.
pub open spec fn digit(value: nat) -> char {
    ('0' as nat + value) as char
}

/// A number in decimal digits, the first of them not zero unless it is the only one.
pub open spec fn decimal(value: nat) -> Seq<char>
    decreases value,
{
    if value < 10 {
        seq![digit(value)]
    } else {
        decimal(value / 10).push(digit(value % 10))
    }
}

/// A size in words.
pub open spec fn size_text(width: u32, height: u32) -> Seq<char> {
    decimal(width as nat) + "x"@ + decimal(height as nat)
}

/// Writes a number in decimal digits behind a text.
fn append_decimal(text: &mut String, value: u32)
    ensures
        final(text)@ == old(text)@ + decimal(value as nat),
    decreases value,
{
    let last: u8 = (value % 10) as u8;
    if value >= 10 {
        append_decimal(text, value / 10);
    }
    text.push((48 + last) as char);
    assert(text@ =~= old(text)@ + decimal(value as nat));
}

impl AppError {
    /// The words in which the error is told.
    pub open spec fn text(self) -> Seq<char> {
        match self {
            AppError::Windows(reason) => "Windows API error: "@ + reason@,
            AppError::XCap(reason) => "Screen capture backend error: "@ + reason@,
            AppError::Message(message) => message@,
            AppError::NoForegroundWindow => "No foreground window is available"@,
            AppError::WindowNotFound(title) => "No visible window matched title filter: "@
                + title@,
            AppError::EmptyCapture => "Captured frame is empty"@,
            AppError::FrameSizeChanged {
                expected_width,
                expected_height,
                actual_width,
                actual_height,
            } => "Frame dimensions changed during capture: expected "@ + size_text(
                expected_width,
                expected_height,
            ) + ", got "@ + size_text(actual_width, actual_height),
            AppError::OverlapNotFound =>
                "Unable to detect a stable overlap between consecutive frames"@,
            AppError::InvalidStitchState => "Frame count and overlap count are inconsistent"@,
            AppError::SaveImage { path, source } => "Failed to write image to "@ + path@ + ": "@
                + source@,
        }
    }

    /// Tells the error in words.
    pub fn message(&self) -> (words: String)
        ensures
            words@ == self.text(),
    {
        match self {
            AppError::Windows(reason) => joined("Windows API error: ", reason.as_str()),
            AppError::XCap(reason) => joined("Screen capture backend error: ", reason.as_str()),
            AppError::Message(message) => message.clone(),
            AppError::NoForegroundWindow => "No foreground window is available".to_owned(),
            AppError::WindowNotFound(title) => joined(
                "No visible window matched title filter: ",
                title.as_str(),
            ),
            AppError::EmptyCapture => "Captured frame is empty".to_owned(),
            AppError::FrameSizeChanged {
                expected_width,
                expected_height,
                actual_width,
                actual_height,
            } => {
                let mut words: String =
                    "Frame dimensions changed during capture: expected ".to_owned();
                append_decimal(&mut words, *expected_width);
                words.append("x");
                append_decimal(&mut words, *expected_height);
                words.append(", got ");
                append_decimal(&mut words, *actual_width);
                words.append("x");
                append_decimal(&mut words, *actual_height);
                assert(words@ =~= self.text());
                words
            },
            AppError::OverlapNotFound => {
                "Unable to detect a stable overlap between consecutive frames".to_owned()
            },
            AppError::InvalidStitchState => {
                "Frame count and overlap count are inconsistent".to_owned()
            },
            AppError::SaveImage { path, source } => {
                let mut words: String = joined("Failed to write image to ", path.as_str());
                words.append(": ");
                words.append(source.as_str());
                words
            },
        }
    }
}

/// One text behind another.
fn joined(first: &str, second: &str) -> (both: String)
    ensures
        both@ == first@ + second@,
{
    let mut both: String = first.to_owned();
    both.append(second);
    both
}

} // verus!
