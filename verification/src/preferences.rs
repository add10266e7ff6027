//! Choices the settings page offers and how its controls act on them: the
//! close action, the hotkey recorder, the auto-cleanup threshold and language
//! menus.

use vstd::prelude::*;
use crate::hotkey::{HotkeyBinding, spec_format_chord};
use crate::text::{decimal_chars, push_chars, spec_ascii_lower, spec_decimal_digits, str_chars, string_push};

verus! {

/// What closing the main window does.
#[derive(Debug, Clone, Copy, PartialEq, Eq, Structural)]
pub enum CloseAction {
    ReturnToTray,
    ExitApp,
}

pub fn resolve_close_action(close_to_notification_area: bool) -> (r: CloseAction)
    ensures
        r == (if close_to_notification_area {
            CloseAction::ReturnToTray
        } else {
            CloseAction::ExitApp
        }),
{
    if close_to_notification_area {
        CloseAction::ReturnToTray
    } else {
        CloseAction::ExitApp
    }
}

/// What a key press does to the hotkey recorder.
#[derive(Debug, Clone)]
pub enum HotkeyKeyOutcome {
    /// The recorder is not running; the key is not for it.
    NotRecording,
    /// Escape: recording stops and the chord stays as it was.
    Cancelled,
    /// The key does not make a chord (a lone modifier, an unsupported key, no
    /// modifier); recording goes on.
    Ignored,
    /// This chord replaces the setting and recording stops.
    Recorded(String),
}

/// The recorder's response to a key press with the given modifiers.
pub fn record_hotkey_key(
    recording: bool,
    key: &str,
    control: bool,
    alt: bool,
    shift: bool,
    platform: bool,
) -> (r: HotkeyKeyOutcome)
    ensures
        !recording ==> r is NotRecording,
        recording && spec_ascii_lower(key@) == "escape"@ ==> r is Cancelled,
        recording && spec_ascii_lower(key@) != "escape"@ ==> match spec_format_chord(
            control,
            alt,
            shift,
            platform,
            key@,
        ) {
            None => r is Ignored,
            Some(chord) => r matches HotkeyKeyOutcome::Recorded(c) && c@ == chord,
        },
{
    if !recording {
        return HotkeyKeyOutcome::NotRecording;
    }
    let chars = str_chars(key);
    let escape = ['e', 's', 'c', 'a', 'p', 'e'];
    if crate::text::lower_equals(&chars, 0, chars.len(), &escape) {
        assert(chars@.subrange(0, chars@.len() as int) =~= key@);
        assert(escape@ =~= "escape"@) by {
            reveal_strlit("escape");
        }
        return HotkeyKeyOutcome::Cancelled;
    }
    assert(chars@.subrange(0, chars@.len() as int) =~= key@);
    assert(escape@ =~= "escape"@) by {
        reveal_strlit("escape");
    }
    match HotkeyBinding::format_chord(control, alt, shift, platform, key) {
        None => HotkeyKeyOutcome::Ignored,
        Some(chord) => HotkeyKeyOutcome::Recorded(chord),
    }
}

/// The thresholds the auto-cleanup menu offers, in percent; 0 turns the
/// threshold trigger off.
pub fn auto_cleanup_threshold_options() -> (r: Vec<u32>)
    ensures
        r@ == seq![0u32, 70, 75, 80, 85, 90, 95],
{
    let mut v: Vec<u32> = Vec::new();
    v.push(0);
    v.push(70);
    v.push(75);
    v.push(80);
    v.push(85);
    v.push(90);
    v.push(95);
    v
}

/// A threshold as shown: `N%`, or `None` for 0, which the menu words as "off".
pub fn format_threshold_value(value: u32) -> (r: Option<String>)
    ensures
        value == 0 ==> r is None,
        value != 0 ==> (r matches Some(s) && s@ == spec_decimal_digits(value as nat).push('%')),
{
    if value == 0 {
        return None;
    }
    let mut out = String::new();
    let digits = decimal_chars(value as u64);
    push_chars(&mut out, &digits);
    string_push(&mut out, '%');
    Some(out)
}

/// The auto-cleanup status line: its translation key, and for the threshold
/// line the threshold as shown (`N%`), which the text takes as its argument.
pub fn auto_cleanup_description(enabled: bool, threshold: u32) -> (r: (&'static str, Option<String>))
    ensures
        !enabled ==> r.0@ == "settings.auto_cleanup_status_disabled"@ && r.1 is None,
        enabled && threshold == 0 ==> r.0@ == "settings.auto_cleanup_status_low_memory"@ && r.1 is None,
        enabled && threshold != 0 ==> r.0@ == "settings.auto_cleanup_status_threshold"@ && (r.1 matches Some(
            s,
        ) && s@ == spec_decimal_digits(threshold as nat).push('%')),
{
    if !enabled {
        ("settings.auto_cleanup_status_disabled", None)
    } else if threshold == 0 {
        ("settings.auto_cleanup_status_low_memory", None)
    } else {
        ("settings.auto_cleanup_status_threshold", format_threshold_value(threshold))
    }
}

/// The language menu: each setting value with the translation key of its label.
pub fn language_options() -> (r: Vec<(&'static str, &'static str)>)
    ensures
        r@.len() == 3,
        r@[0].0@ == "auto"@ && r@[0].1@ == "settings.language_auto"@,
        r@[1].0@ == "zh-CN"@ && r@[1].1@ == "settings.language_zh"@,
        r@[2].0@ == "en"@ && r@[2].1@ == "settings.language_en"@,
{
    let mut v: Vec<(&'static str, &'static str)> = Vec::new();
    v.push(("auto", "settings.language_auto"));
    v.push(("zh-CN", "settings.language_zh"));
    v.push(("en", "settings.language_en"));
    v
}

} // verus!
