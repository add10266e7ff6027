//! The application locale: choosing it from the system language, and the
//! locale-dependent list separator.

use vstd::prelude::*;
use crate::settings::Settings;
use crate::text::str_eq;

verus! {

/// "zh-CN" for any Chinese UI language (primary language 0x04), else "en".
pub open spec fn spec_locale_from_lang_id(lang_id: u16) -> Seq<char> {
    if lang_id & 0x3FF == 0x04 {
        "zh-CN"@
    } else {
        "en"@
    }
}

/// Maps a Windows UI language ID to a supported app locale.
pub fn locale_from_lang_id(lang_id: u16) -> (r: &'static str)
    ensures
        r@ == spec_locale_from_lang_id(lang_id),
{
    if lang_id & 0x3FF == 0x04 {
        "zh-CN"
    } else {
        "en"
    }
}

pub open spec fn spec_list_separator(locale: Seq<char>) -> Seq<char> {
    if locale == "en"@ {
        ", "@
    } else {
        "、"@
    }
}

/// The separator between list items in `locale`: a comma for English, the
/// ideographic enumeration comma otherwise.
pub fn list_separator_for(locale: &str) -> (r: &'static str)
    ensures
        r@ == spec_list_separator(locale@),
{
    if str_eq(locale, "en") {
        ", "
    } else {
        "、"
    }
}

/// Wraps `rust_i18n::locale`: the locale that translations currently use.
/// It reads process-global state, so nothing is stated of it.
#[verifier::external_body]
fn active_locale() -> (r: String) {
    rust_i18n::locale().to_string()
}

/// Wraps `rust_i18n::set_locale`, which makes `locale` the one translations use.
/// It writes process-global state, so nothing is stated of it.
#[verifier::external_body]
fn set_active_locale(locale: &str) {
    rust_i18n::set_locale(locale)
}

/// Returns the list separator for the active locale.
pub fn list_separator() -> (r: &'static str)
    ensures
        exists|locale: Seq<char>| r@ == spec_list_separator(locale),
{
    let locale = active_locale();
    list_separator_for(locale.as_str())
}

/// Applies the effective locale from settings to the global i18n state and
/// returns the locale it set.
pub fn apply(settings: &Settings, system_ui_lang_id: u16) -> (r: &'static str)
    ensures
        r@ == (if settings.language@ == "zh-CN"@ {
            "zh-CN"@
        } else if settings.language@ == "en"@ {
            "en"@
        } else {
            spec_locale_from_lang_id(system_ui_lang_id)
        }),
{
    let locale = settings.effective_locale(system_ui_lang_id);
    set_active_locale(locale);
    locale
}

} // verus!
