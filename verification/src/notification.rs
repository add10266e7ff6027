//! Toast notification text.

use vstd::prelude::*;
use crate::text::{push_str, str_chars, string_push};

verus! {

/// The AppUserModelID toasts are shown under.
pub const APP_USER_MODEL_ID: &'static str = "MemoryCleaner.App";

/// The XML escape of one character.
pub open spec fn spec_xml_escape_char(c: char) -> Seq<char> {
    if c == '&' {
        "&amp;"@
    } else if c == '<' {
        "&lt;"@
    } else if c == '>' {
        "&gt;"@
    } else if c == '"' {
        "&quot;"@
    } else if c == '\'' {
        "&apos;"@
    } else {
        seq![c]
    }
}

/// `s` with `&`, `<`, `>`, `"` and `'` written as XML entities.
pub open spec fn spec_escape_xml(s: Seq<char>) -> Seq<char>
    decreases s.len(),
{
    if s.len() == 0 {
        seq![]
    } else {
        spec_escape_xml(s.drop_last()) + spec_xml_escape_char(s.last())
    }
}

/// Escape text for a toast's XML.
pub fn escape_xml(text: &str) -> (r: String)
    ensures
        r@ == spec_escape_xml(text@),
{
    let chars = str_chars(text);
    let mut out = String::new();
    let mut i: usize = 0;
    while i < chars.len()
        invariant
            i <= chars.len(),
            chars@ == text@,
            out@ == spec_escape_xml(chars@.take(i as int)),
        decreases chars.len() - i,
    {
        assert(chars@.take(i + 1).drop_last() =~= chars@.take(i as int));
        assert(chars@.take(i + 1).last() == chars@[i as int]);
        let c = chars[i];
        if c == '&' {
            push_str(&mut out, "&amp;");
        } else if c == '<' {
            push_str(&mut out, "&lt;");
        } else if c == '>' {
            push_str(&mut out, "&gt;");
        } else if c == '"' {
            push_str(&mut out, "&quot;");
        } else if c == '\'' {
            push_str(&mut out, "&apos;");
        } else {
            string_push(&mut out, c);
            assert(out@ =~= spec_escape_xml(chars@.take(i as int)) + seq![c]);
        }
        i += 1;
    }
    assert(chars@.take(chars.len() as int) =~= chars@);
    out
}

/// The toast for `title` and `body`: the two-line text template, both
/// lines XML-escaped.
pub open spec fn spec_toast_xml(title: Seq<char>, body: Seq<char>) -> Seq<char> {
    "<toast><visual><binding template=\"ToastText02\"><text id=\"1\">"@ + spec_escape_xml(title)
        + "</text><text id=\"2\">"@ + spec_escape_xml(body) + "</text></binding></visual></toast>"@
}

/// The XML of a toast showing `title` over `body`.
pub fn toast_xml(title: &str, body: &str) -> (r: String)
    ensures
        r@ == spec_toast_xml(title@, body@),
{
    let mut out = String::new();
    assert(out@ =~= Seq::<char>::empty());
    push_str(&mut out, "<toast><visual><binding template=\"ToastText02\"><text id=\"1\">");
    let t = escape_xml(title);
    push_str(&mut out, t.as_str());
    push_str(&mut out, "</text><text id=\"2\">");
    let b = escape_xml(body);
    push_str(&mut out, b.as_str());
    push_str(&mut out, "</text></binding></visual></toast>");
    out
}

/// Whether a finished cleanup is announced: notifications are on, and the run
/// left a status that is not the "select at least one area" hint.
pub fn announce_cleanup_result(notifications_enabled: bool, status: &str, select_areas_text: &str) -> (r: bool)
    ensures
        r == (notifications_enabled && status@.len() > 0 && status@ != select_areas_text@),
{
    notifications_enabled && !status.is_empty() && !crate::text::str_eq(status, select_areas_text)
}

} // verus!
