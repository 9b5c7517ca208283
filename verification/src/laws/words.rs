//! Titles, and numbers in words.

use crate::error::AppError;
use crate::window::WindowInfo;
use vstd::prelude::*;

verus! {

/// A window is found by any piece of its title, whatever the case, and by nothing else.
pub proof fn windows_are_found_by_a_piece_of_their_title(
    window: WindowInfo,
    filter: Seq<char>,
    before: Seq<char>,
    after: Seq<char>,
)
    ensures
        window.visible && window.title@.len() > 0 && crate::window::lowercase(window.title@)
            == before + crate::window::lowercase(filter) + after ==> crate::window::is_match(
            window,
            filter,
        ),
        crate::window::is_match(window, filter) ==> exists|start: Seq<char>, end: Seq<char>|
            crate::window::lowercase(window.title@) == #[trigger] (start
                + crate::window::lowercase(filter) + end),
{
    let title = crate::window::lowercase(window.title@);
    let part = crate::window::lowercase(filter);
    if title == before + part + after {
        let at = before.len() as int;
        assert(title.subrange(at, at + part.len()) =~= part);
        assert(crate::window::is_at(part, title, at));
    }
    if crate::window::is_match(window, filter) {
        let at = choose|at: int| crate::window::is_at(part, title, at);
        let start = title.take(at);
        let end = title.skip(at + part.len());
        assert(title =~= (start + part) + end);
    }
}

/// A hidden window is never found, nor is one without a title.
pub proof fn hidden_windows_are_not_found(window: WindowInfo, filter: Seq<char>)
    requires
        !window.visible || window.title@.len() == 0,
    ensures
        !crate::window::is_match(window, filter),
{
}

/// Windows behind the first that matches have no say, and neither have windows that do not match
/// before it.
pub proof fn later_windows_have_no_say(
    windows: Seq<WindowInfo>,
    others: Seq<WindowInfo>,
    filter: Seq<char>,
    i: int,
)
    requires
        crate::window::first_match(windows, filter, i),
    ensures
        crate::window::first_match(windows + others, filter, i),
        (forall|j: int| 0 <= j < others.len() ==> !crate::window::is_match(#[trigger] others[j], filter))
            ==> crate::window::first_match(others + windows, filter, others.len() + i),
{
    assert forall|j: int| 0 <= j < i implies !crate::window::is_match(
        #[trigger] (windows + others)[j],
        filter,
    ) by {
        assert(!crate::window::is_match(windows[j], filter));
    }
    if forall|j: int| 0 <= j < others.len() ==> !crate::window::is_match(#[trigger] others[j], filter) {
        let all = others + windows;
        assert forall|j: int| 0 <= j < others.len() + i implies !crate::window::is_match(
            #[trigger] all[j],
            filter,
        ) by {
            if j < others.len() {
                assert(all[j] == others[j]);
            } else {
                assert(all[j] == windows[j - others.len()]);
            }
        }
    }
}

/// The number that decimal digits stand for.
pub open spec fn number_of(digits: Seq<char>) -> int
    decreases digits.len(),
{
    if digits.len() == 0 {
        0
    } else {
        10 * number_of(digits.drop_last()) + (digits.last() as int - '0' as int)
    }
}

/// A number is written in decimal digits that stand for it, and without a zero before it.
pub proof fn numbers_can_be_read_back(value: nat)
    ensures
        number_of(crate::error::decimal(value)) == value,
        crate::error::decimal(value).len() > 0,
        forall|i: int|
            0 <= i < crate::error::decimal(value).len() ==> '0'
                <= #[trigger] crate::error::decimal(value)[i] <= '9',
        value > 0 ==> crate::error::decimal(value)[0] != '0',
    decreases value,
{
    let digits = crate::error::decimal(value);
    if value < 10 {
        assert(digits.drop_last() =~= Seq::empty());
        assert(number_of(digits.drop_last()) == 0);
    } else {
        numbers_can_be_read_back(value / 10);
        let before = crate::error::decimal(value / 10);
        assert(digits.drop_last() =~= before);
        assert(digits[0] == before[0]);
        assert forall|i: int| 0 <= i < digits.len() implies '0' <= #[trigger] digits[i] <= '9' by {
            if i < before.len() {
                assert(digits[i] == before[i]);
            }
        }
    }
}

/// An error is told with the reason, the title or the path that it is about, at its end or before
/// the reason.
pub proof fn errors_name_their_reason(text: String, other: String)
    ensures
        text@.is_suffix_of(AppError::Windows(text).text()),
        text@.is_suffix_of(AppError::XCap(text).text()),
        AppError::Message(text).text() == text@,
        text@.is_suffix_of(AppError::WindowNotFound(text).text()),
        (text@ + ": "@ + other@).is_suffix_of(
            (AppError::SaveImage { path: text, source: other }).text(),
        ),
{
    let told = (AppError::SaveImage { path: text, source: other }).text();
    assert(told =~= "Failed to write image to "@ + (text@ + ": "@ + other@));
}

} // verus!
