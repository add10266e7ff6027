//! What the cleanup button and the icon-cache control show: their labels,
//! tooltips, colours and whether they can be pressed.

use vstd::prelude::*;
use crate::text::{str_chars, string_from_chars, string_push};

verus! {

/// Characters of a status line that fit on the cleanup button.
pub const BUTTON_STATUS_TRUNCATE_CHARS: usize = 24;

/// `text` cut to `max_chars` characters, with `…` after the cut.
pub open spec fn spec_truncate_chars(text: Seq<char>, max_chars: nat) -> Seq<char> {
    if text.len() <= max_chars {
        text
    } else {
        text.take(max_chars as int).push('…')
    }
}

/// `text` as it is when it has at most `max_chars` characters; else its first
/// `max_chars` characters followed by `…`.
pub fn truncate_chars(text: &str, max_chars: usize) -> (r: String)
    ensures
        r@ == spec_truncate_chars(text@, max_chars as nat),
{
    let chars = str_chars(text);
    if chars.len() <= max_chars {
        return string_from_chars(&chars);
    }
    let mut head: Vec<char> = Vec::new();
    let mut i: usize = 0;
    while i < max_chars
        invariant
            i <= max_chars < chars.len(),
            head@ == chars@.take(i as int),
        decreases max_chars - i,
    {
        head.push(chars[i]);
        assert(chars@.take(i + 1) == chars@.take(i as int).push(chars@[i as int]));
        i += 1;
    }
    let mut out = string_from_chars(&head);
    string_push(&mut out, '…');
    out
}

/// A text to show: a translation key, or text shown as it is.
#[derive(Debug, Clone)]
pub enum UiText {
    Key(&'static str),
    Plain(String),
}

/// The colour role of the cleanup button's text.
#[derive(Debug, Clone, Copy, PartialEq, Eq, Structural)]
pub enum ButtonTextColor {
    /// No area is selected: dimmed.
    Muted,
    /// The last run had errors.
    Danger,
    Primary,
}

/// How the cleanup button looks.
#[derive(Debug, Clone)]
pub struct CleanupButtonView {
    /// No memory area is selected, so the button cannot start a cleanup.
    pub disabled: bool,
    /// The last run's status is shown and it had errors.
    pub danger: bool,
    pub text_color: ButtonTextColor,
    /// A cleanup runs: a progress ring sits beside the label.
    pub show_progress: bool,
    pub label: UiText,
    pub tooltip: UiText,
}

/// The line that describes a running cleanup: its current step, or the
/// "preparing" text before the first step.
pub open spec fn spec_step_text(step: Seq<char>, preparing: Seq<char>) -> Seq<char> {
    if step.len() == 0 {
        preparing
    } else {
        step
    }
}

/// The cleanup button for the page state: whether no area is selected,
/// whether a cleanup runs and its current `step`, the last run's `status`
/// and whether it had errors; `preparing` is the translated text shown
/// before the first step.
pub fn cleanup_button(
    areas_empty: bool,
    is_optimizing: bool,
    step: &str,
    status: &str,
    has_errors: bool,
    preparing: &str,
) -> (r: CleanupButtonView)
    ensures
        r.disabled == areas_empty,
        r.danger == (status@.len() > 0 && has_errors),
        r.text_color == (if areas_empty {
            ButtonTextColor::Muted
        } else if status@.len() > 0 && has_errors {
            ButtonTextColor::Danger
        } else {
            ButtonTextColor::Primary
        }),
        r.show_progress == is_optimizing,
        is_optimizing ==> (r.label matches UiText::Plain(s) && s@ == spec_truncate_chars(
            spec_step_text(step@, preparing@),
            BUTTON_STATUS_TRUNCATE_CHARS as nat,
        )),
        !is_optimizing && status@.len() > 0 ==> (r.label matches UiText::Plain(s) && s@
            == spec_truncate_chars(status@, BUTTON_STATUS_TRUNCATE_CHARS as nat)),
        !is_optimizing && status@.len() == 0 ==> (r.label matches UiText::Key(k) && k@ == "button.cleanup"@),
        areas_empty ==> (r.tooltip matches UiText::Key(k) && k@ == "tooltip.select_areas"@),
        !areas_empty && is_optimizing ==> (r.tooltip matches UiText::Plain(s) && s@ == spec_step_text(
            step@,
            preparing@,
        )),
        !areas_empty && !is_optimizing && status@.len() == 0 ==> (r.tooltip matches UiText::Key(k) && k@
            == "tooltip.start_cleanup"@),
        !areas_empty && !is_optimizing && status@.len() > 0 ==> (r.tooltip matches UiText::Plain(s) && s@
            == status@),
{
    let danger = !status.is_empty() && has_errors;
    let text_color = if areas_empty {
        ButtonTextColor::Muted
    } else if danger {
        ButtonTextColor::Danger
    } else {
        ButtonTextColor::Primary
    };
    let step_text: &str = if step.is_empty() {
        preparing
    } else {
        step
    };
    let label = if is_optimizing {
        UiText::Plain(truncate_chars(step_text, BUTTON_STATUS_TRUNCATE_CHARS))
    } else if !status.is_empty() {
        UiText::Plain(truncate_chars(status, BUTTON_STATUS_TRUNCATE_CHARS))
    } else {
        UiText::Key("button.cleanup")
    };
    let tooltip = if areas_empty {
        UiText::Key("tooltip.select_areas")
    } else if is_optimizing {
        UiText::Plain(step_text.to_owned())
    } else if status.is_empty() {
        UiText::Key("tooltip.start_cleanup")
    } else {
        UiText::Plain(status.to_owned())
    };
    CleanupButtonView { disabled: areas_empty, danger, text_color, show_progress: is_optimizing, label, tooltip }
}

/// The icon-cache control's tooltip: "refreshing" during a refresh, the last
/// refresh's status when there is one, else what the control does.
pub fn icon_cache_tooltip(is_refreshing: bool, status: &str) -> (r: UiText)
    ensures
        is_refreshing ==> (r matches UiText::Key(k) && k@ == "icon_cache.refreshing"@),
        !is_refreshing && status@.len() == 0 ==> (r matches UiText::Key(k) && k@ == "icon_cache.tooltip"@),
        !is_refreshing && status@.len() > 0 ==> (r matches UiText::Plain(s) && s@ == status@),
{
    if is_refreshing {
        UiText::Key("icon_cache.refreshing")
    } else if status.is_empty() {
        UiText::Key("icon_cache.tooltip")
    } else {
        UiText::Plain(status.to_owned())
    }
}

} // verus!
