//! User settings: defaults, the normalisation applied after loading, and the
//! edits the settings page makes.

use vstd::prelude::*;
use vstd::multiset::Multiset;
use crate::hotkey::{
    DEFAULT_CLEANUP_HOTKEY, HotkeyBinding, MOD_ALT, MOD_CONTROL, MOD_NOREPEAT, lemma_recorded_chord_parses,
    spec_alt_word, spec_chord_names, spec_chord_text, spec_ctrl_word, spec_is_modifier_key,
    spec_key_token, spec_parse_chord, spec_recorded_modifiers,
};
use crate::locale::{locale_from_lang_id, spec_locale_from_lang_id};
use crate::optimize::{
    ALL_AREAS_BITS, DEFAULT_AREAS_BITS, MemoryAreas, STANDBY_LIST_BIT,
    STANDBY_LIST_LOW_PRIORITY_BIT,
};
use crate::process::{normalize_process_name, spec_ends_with_exe, spec_normalize_process_name, spec_squash};
use crate::text::{
    lemma_lex_asymmetric, lemma_lex_irreflexive, lemma_lex_total, lemma_lex_transitive,
    lemma_lt_le_trans, lex_lt, spec_ascii_lower, spec_ascii_lower_char, spec_is_whitespace, spec_lex_le,
    spec_lex_lt, spec_trim, str_chars, str_eq,
};

verus! {

broadcast use vstd::seq_lib::group_to_multiset_ensures;

pub struct Settings {
    pub always_on_top: bool,
    /// Launch silently to the notification area through a highest-privilege logon task.
    pub run_at_startup: bool,
    pub close_to_notification_area: bool,
    pub memory_areas: u32,
    /// Show a Windows toast when memory cleanup completes.
    pub show_optimization_notifications: bool,
    /// UI language: "auto", "zh-CN", or "en".
    pub language: String,
    /// Write debug output to `App.log` next to the executable.
    pub debug_logging: bool,
    /// Enable the global cleanup hotkey.
    pub cleanup_hotkey_enabled: bool,
    /// Hotkey chord, e.g. `Ctrl+Alt+C`. Empty disables registration.
    pub cleanup_hotkey: String,
    /// Process base names excluded from Working Set cleanup (lowercase, no `.exe`).
    pub excluded_processes: Vec<String>,
    /// Enable cleanup when Windows reports low physical memory.
    pub auto_cleanup_enabled: bool,
    /// Physical memory usage percent (0–100) that triggers automatic cleanup.
    /// `0` disables the threshold trigger.
    pub auto_cleanup_threshold: u32,
    /// Minutes between scheduled automatic cleanups. `0` disables the interval trigger.
    pub auto_cleanup_interval_minutes: u32,
}

impl Clone for Settings {
    fn clone(&self) -> (r: Self)
        ensures
            r.always_on_top == self.always_on_top,
            r.run_at_startup == self.run_at_startup,
            r.close_to_notification_area == self.close_to_notification_area,
            r.memory_areas == self.memory_areas,
            r.show_optimization_notifications == self.show_optimization_notifications,
            r.language@ == self.language@,
            r.debug_logging == self.debug_logging,
            r.cleanup_hotkey_enabled == self.cleanup_hotkey_enabled,
            r.cleanup_hotkey@ == self.cleanup_hotkey@,
            r.excluded_processes@.len() == self.excluded_processes@.len(),
            forall|i: int|
                0 <= i < self.excluded_processes@.len() ==> (#[trigger] r.excluded_processes@[i])@
                    == self.excluded_processes@[i]@,
            r.auto_cleanup_enabled == self.auto_cleanup_enabled,
            r.auto_cleanup_threshold == self.auto_cleanup_threshold,
            r.auto_cleanup_interval_minutes == self.auto_cleanup_interval_minutes,
    {
        let mut excluded: Vec<String> = Vec::new();
        let mut i: usize = 0;
        while i < self.excluded_processes.len()
            invariant
                i <= self.excluded_processes.len(),
                excluded@.len() == i,
                forall|j: int| 0 <= j < i ==> (#[trigger] excluded@[j])@ == self.excluded_processes@[j]@,
            decreases self.excluded_processes.len() - i,
        {
            excluded.push(self.excluded_processes[i].clone());
            i += 1;
        }
        Settings {
            always_on_top: self.always_on_top,
            run_at_startup: self.run_at_startup,
            close_to_notification_area: self.close_to_notification_area,
            memory_areas: self.memory_areas,
            show_optimization_notifications: self.show_optimization_notifications,
            language: self.language.clone(),
            debug_logging: self.debug_logging,
            cleanup_hotkey_enabled: self.cleanup_hotkey_enabled,
            cleanup_hotkey: self.cleanup_hotkey.clone(),
            excluded_processes: excluded,
            auto_cleanup_enabled: self.auto_cleanup_enabled,
            auto_cleanup_threshold: self.auto_cleanup_threshold,
            auto_cleanup_interval_minutes: self.auto_cleanup_interval_minutes,
        }
    }
}

/// The documented defaults.
pub open spec fn spec_is_default(s: Settings) -> bool {
    &&& !s.always_on_top
    &&& !s.run_at_startup
    &&& s.close_to_notification_area
    &&& s.show_optimization_notifications
    &&& s.memory_areas == DEFAULT_AREAS_BITS
    &&& s.language@ == "auto"@
    &&& !s.debug_logging
    &&& s.cleanup_hotkey_enabled
    &&& s.cleanup_hotkey@ == DEFAULT_CLEANUP_HOTKEY@
    &&& s.excluded_processes@.len() == 0
    &&& !s.auto_cleanup_enabled
    &&& s.auto_cleanup_threshold == 0
    &&& s.auto_cleanup_interval_minutes == 0
}

impl Default for Settings {
    fn default() -> (r: Self)
        ensures
            spec_is_default(r),
    {
        Settings {
            always_on_top: false,
            run_at_startup: false,
            close_to_notification_area: true,
            show_optimization_notifications: true,
            memory_areas: DEFAULT_AREAS_BITS,
            language: "auto".to_owned(),
            debug_logging: false,
            cleanup_hotkey_enabled: true,
            cleanup_hotkey: DEFAULT_CLEANUP_HOTKEY.to_owned(),
            excluded_processes: Vec::new(),
            auto_cleanup_enabled: false,
            auto_cleanup_threshold: 0,
            auto_cleanup_interval_minutes: 0,
        }
    }
}

/// Both Standby List variants selected.
pub open spec fn spec_both_standby(bits: u32) -> bool {
    bits & STANDBY_LIST_BIT == STANDBY_LIST_BIT && bits & STANDBY_LIST_LOW_PRIORITY_BIT
        == STANDBY_LIST_LOW_PRIORITY_BIT
}

/// The areas the settings select: defined bits only, and the low-priority
/// Standby List dropped when the plain one is also selected.
pub open spec fn spec_selected_areas(bits: u32) -> u32 {
    let a = bits & ALL_AREAS_BITS;
    if spec_both_standby(a) {
        a & !STANDBY_LIST_LOW_PRIORITY_BIT
    } else {
        a
    }
}

pub open spec fn spec_is_supported_language(language: Seq<char>) -> bool {
    language == "auto"@ || language == "zh-CN"@ || language == "en"@
}

/// The value `normalize_memory_areas` leaves.
pub open spec fn spec_normalized_area_bits(bits: u32) -> u32 {
    if spec_both_standby(bits & ALL_AREAS_BITS) {
        spec_selected_areas(bits)
    } else {
        bits
    }
}

/// Strictly increasing, hence without duplicates.
pub open spec fn spec_strictly_sorted(s: Seq<String>) -> bool {
    forall|i: int, j: int| 0 <= i < j < s.len() ==> spec_lex_lt(s[i]@, s[j]@)
}

/// In `String` order.
pub open spec fn spec_sorted(s: Seq<String>) -> bool {
    forall|i: int, j: int| 0 <= i < j < s.len() ==> spec_lex_le(s[i]@, s[j]@)
}

/// `after` holds the strings of `before` and one more string of contents
/// `name`, sorted.
pub open spec fn spec_excluded_after_add(before: Seq<String>, after: Seq<String>, name: Seq<char>) -> bool {
    &&& spec_sorted(after)
    &&& exists|n: String| n@ == name && after.to_multiset() == before.to_multiset().insert(n)
}

pub open spec fn spec_has_name(s: Seq<String>, name: Seq<char>) -> bool {
    exists|i: int| 0 <= i < s.len() && #[trigger] s[i]@ == name
}

/// The contents of the strings of `s`.
pub open spec fn spec_name_set(s: Seq<String>) -> Set<Seq<char>> {
    Set::new(|name: Seq<char>| spec_has_name(s, name))
}

/// `name` is the normalised, non-empty form of one of `raw`.
pub open spec fn spec_is_normalized_entry(raw: Seq<Seq<char>>, name: Seq<char>) -> bool {
    name.len() > 0 && exists|k: int|
        0 <= k < raw.len() && spec_normalize_process_name(#[trigger] raw[k]) == name
}

/// `r` is `raw` normalised, with empty names dropped, sorted and deduplicated.
pub open spec fn spec_normalized_list(raw: Seq<Seq<char>>, r: Seq<Seq<char>>) -> bool {
    &&& forall|i: int, j: int| 0 <= i < j < r.len() ==> spec_lex_lt(r[i], r[j])
    &&& forall|i: int| 0 <= i < r.len() ==> spec_is_normalized_entry(raw, #[trigger] r[i])
    &&& forall|name: Seq<char>| spec_is_normalized_entry(raw, name) ==> r.contains(name)
}

fn string_lex_lt(a: &String, b: &String) -> (r: bool)
    ensures
        r == spec_lex_lt(a@, b@),
{
    let x = str_chars(a.as_str());
    let y = str_chars(b.as_str());
    lex_lt(&x, &y)
}

/// Insert `x` into a strictly sorted list unless a string equal to it is there.
fn insert_unique_sorted(v: &mut Vec<String>, x: String)
    requires
        spec_strictly_sorted(old(v)@),
    ensures
        spec_strictly_sorted(final(v)@),
        spec_name_set(final(v)@) == spec_name_set(old(v)@).insert(x@),
{
    let mut p: usize = 0;
    while p < v.len() && string_lex_lt(&v[p], &x)
        invariant
            p <= v.len(),
            v@ == old(v)@,
            forall|a: int| 0 <= a < p ==> spec_lex_lt((#[trigger] v@[a])@, x@),
        decreases v.len() - p,
    {
        p += 1;
    }
    if p < v.len() && str_eq(v[p].as_str(), x.as_str()) {
        assert(v@[p as int]@ == x@);
        assert(spec_has_name(v@, x@));
        assert(spec_name_set(v@) =~= spec_name_set(old(v)@).insert(x@));
        return;
    }
    let ghost old_v = v@;
    let ghost xv = x@;
    proof {
        if p < old_v.len() {
            lemma_lex_total(old_v[p as int]@, x@);
        }
        assert forall|j: int| p <= j < old_v.len() implies spec_lex_lt(x@, (#[trigger] old_v[j])@) by {
            if j > p {
                lemma_lex_transitive(x@, old_v[p as int]@, old_v[j]@);
            }
        }
    }
    v.insert(p, x);
    proof {
        assert forall|i: int, j: int| 0 <= i < j < v@.len() implies spec_lex_lt(v@[i]@, v@[j]@) by {
            if j == p {
                assert(v@[i] == old_v[i]);
            } else if i == p {
                assert(v@[j] == old_v[j - 1]);
            } else if i < p && j > p {
                assert(v@[i] == old_v[i]);
                assert(v@[j] == old_v[j - 1]);
                lemma_lex_transitive(old_v[i]@, xv, old_v[j - 1]@);
            } else if i < p {
                assert(v@[i] == old_v[i]);
                assert(v@[j] == old_v[j]);
            } else {
                assert(v@[i] == old_v[i - 1]);
                assert(v@[j] == old_v[j - 1]);
            }
        }
        assert(v@ == old_v.insert(p as int, x));
        assert(xv == x@);
        lemma_has_name_insert(old_v, p as int, x);
        assert forall|name: Seq<char>| spec_name_set(v@).contains(name) <==> spec_name_set(old_v).insert(xv).contains(name) by {
            assert(spec_has_name(v@, name) <==> (spec_has_name(old_v, name) || name == xv));
        }
        assert(spec_name_set(v@) =~= spec_name_set(old_v).insert(xv));
    }
}

proof fn lemma_has_name_insert(s: Seq<String>, p: int, x: String)
    requires
        0 <= p <= s.len(),
    ensures
        forall|name: Seq<char>|
            spec_has_name(s.insert(p, x), name) <==> (spec_has_name(s, name) || name == x@),
{
    let t = s.insert(p, x);
    assert forall|name: Seq<char>| spec_has_name(t, name) <==> (spec_has_name(s, name) || name == x@) by {
        if spec_has_name(t, name) {
            let i = choose|i: int| 0 <= i < t.len() && #[trigger] t[i]@ == name;
            if i < p {
                assert(s[i] == t[i]);
            } else if i > p {
                assert(s[i - 1] == t[i]);
            }
        }
        if spec_has_name(s, name) {
            let i = choose|i: int| 0 <= i < s.len() && #[trigger] s[i]@ == name;
            if i < p {
                assert(t[i] == s[i]);
            } else {
                assert(t[i + 1] == s[i]);
            }
        }
        if name == x@ {
            assert(t[p]@ == name);
        }
    }
}

/// Insert `x` into a sorted list after every string not greater than it.
fn insert_sorted(v: &mut Vec<String>, x: String)
    requires
        spec_sorted(old(v)@),
    ensures
        spec_sorted(final(v)@),
        final(v)@.to_multiset() == old(v)@.to_multiset().insert(x),
{
    let mut p: usize = 0;
    while p < v.len() && !string_lex_lt(&x, &v[p])
        invariant
            p <= v.len(),
            v@ == old(v)@,
            forall|a: int| 0 <= a < p ==> !spec_lex_lt(x@, (#[trigger] v@[a])@),
        decreases v.len() - p,
    {
        p += 1;
    }
    let ghost old_v = v@;
    proof {
        assert forall|j: int| p <= j < old_v.len() implies spec_lex_lt(x@, (#[trigger] old_v[j])@) by {
            if j > p {
                lemma_lt_le_trans(x@, old_v[p as int]@, old_v[j]@);
            }
        }
        assert forall|i: int| 0 <= i < p implies spec_lex_le((#[trigger] old_v[i])@, x@) by {
            lemma_lex_total(old_v[i]@, x@);
        }
    }
    v.insert(p, x);
    proof {
        vstd::seq_lib::to_multiset_insert(old_v, p as int, x);
        assert forall|i: int, j: int| 0 <= i < j < v@.len() implies spec_lex_le(v@[i]@, v@[j]@) by {
            if j == p {
                assert(v@[i] == old_v[i]);
            } else if i == p {
                assert(v@[j] == old_v[j - 1]);
            } else if i < p && j > p {
                assert(v@[i] == old_v[i]);
                assert(v@[j] == old_v[j - 1]);
            } else if i < p {
                assert(v@[i] == old_v[i]);
                assert(v@[j] == old_v[j]);
            } else {
                assert(v@[i] == old_v[i - 1]);
                assert(v@[j] == old_v[j - 1]);
            }
        }
    }
}

/// `v` in `String` order: same strings, sorted.
fn sort_strings(v: Vec<String>) -> (r: Vec<String>)
    ensures
        spec_sorted(r@),
        r@.to_multiset() == v@.to_multiset(),
{
    let mut rest = v;
    let mut out: Vec<String> = Vec::new();
    while rest.len() > 0
        invariant
            spec_sorted(out@),
            out@.to_multiset().add(rest@.to_multiset()) == v@.to_multiset(),
        decreases rest.len(),
    {
        let ghost before = rest@;
        let x = rest.pop().unwrap();
        proof {
            assert(before == rest@.push(x));
            vstd::seq_lib::to_multiset_build(rest@, x);
        }
        let ghost out_before = out@;
        insert_sorted(&mut out, x);
        assert(out@.to_multiset().add(rest@.to_multiset()) =~= out_before.to_multiset().add(
            before.to_multiset(),
        ));
    }
    assert(rest@.to_multiset() =~= Multiset::empty());
    assert(out@.to_multiset().add(Multiset::empty()) =~= out@.to_multiset());
    out
}

impl Settings {
    /// Reset a language outside "auto", "zh-CN" and "en" to "auto".
    pub fn normalize_language(&mut self)
        ensures
            final(self)@ == old(self)@.with_language(
                if spec_is_supported_language(old(self).language@) {
                    old(self).language@
                } else {
                    "auto"@
                },
            ),
    {
        if !(str_eq(self.language.as_str(), "auto") || str_eq(self.language.as_str(), "zh-CN")
            || str_eq(self.language.as_str(), "en")) {
            self.language = "auto".to_owned();
        }
    }

    /// Clamp the threshold to a usage percent.
    pub fn normalize_auto_cleanup(&mut self)
        ensures
            final(self)@ == old(self)@.with_threshold(
                if old(self).auto_cleanup_threshold > 100 {
                    100
                } else {
                    old(self).auto_cleanup_threshold
                },
            ),
    {
        if self.auto_cleanup_threshold > 100 {
            self.auto_cleanup_threshold = 100;
        }
    }

    /// Replace an enabled chord that does not parse with the default chord.
    pub fn normalize_cleanup_hotkey(&mut self)
        ensures
            final(self)@ == old(self)@.with_hotkey(
                if old(self).cleanup_hotkey_enabled && spec_parse_chord(old(self).cleanup_hotkey@)
                    is None {
                    DEFAULT_CLEANUP_HOTKEY@
                } else {
                    old(self).cleanup_hotkey@
                },
            ),
    {
        if !self.cleanup_hotkey_enabled {
            return;
        }
        if HotkeyBinding::parse(self.cleanup_hotkey.as_str()).is_none() {
            self.cleanup_hotkey = DEFAULT_CLEANUP_HOTKEY.to_owned();
        }
    }

    /// Drop the low-priority Standby List when both Standby List variants are selected.
    pub fn normalize_memory_areas(&mut self)
        ensures
            final(self)@ == old(self)@.with_areas(spec_normalized_area_bits(old(self).memory_areas)),
    {
        let mut areas = MemoryAreas::from_bits_truncate(self.memory_areas);
        if areas.contains(MemoryAreas::from_bits_truncate(STANDBY_LIST_BIT)) && areas.contains(
            MemoryAreas::from_bits_truncate(STANDBY_LIST_LOW_PRIORITY_BIT),
        ) {
            areas.remove(MemoryAreas::from_bits_truncate(STANDBY_LIST_LOW_PRIORITY_BIT));
            self.memory_areas = areas.bits();
        }
        proof {
            let b = old(self).memory_areas;
            assert(STANDBY_LIST_BIT & ALL_AREAS_BITS == STANDBY_LIST_BIT) by (bit_vector);
            assert(STANDBY_LIST_LOW_PRIORITY_BIT & ALL_AREAS_BITS == STANDBY_LIST_LOW_PRIORITY_BIT)
                by (bit_vector);
        }
    }

    /// Normalise the excluded names, drop empty ones, sort and deduplicate.
    pub fn normalize_excluded_processes(&mut self)
        ensures
            final(self)@ == old(self)@.with_excluded(final(self).excluded_processes@),
            spec_normalized_list(spec_views(old(self).excluded_processes@), spec_views(final(self).excluded_processes@)),
    {
        let ghost raw = self.excluded_processes@;
        let mut out: Vec<String> = Vec::new();
        let mut i: usize = 0;
        while i < self.excluded_processes.len()
            invariant
                i <= self.excluded_processes.len(),
                raw == self.excluded_processes@,
                spec_strictly_sorted(out@),
                forall|a: int|
                    0 <= a < out@.len() ==> (#[trigger] out@[a])@.len() > 0 && exists|k: int|
                        0 <= k < i && spec_normalize_process_name(#[trigger] raw[k]@) == out@[a]@,
                forall|k: int|
                    0 <= k < i && spec_normalize_process_name(#[trigger] raw[k]@).len() > 0
                        ==> spec_has_name(out@, spec_normalize_process_name(raw[k]@)),
            decreases self.excluded_processes.len() - i,
        {
            let n = normalize_process_name(self.excluded_processes[i].as_str());
            if !n.as_str().is_empty() {
                let ghost out_before = out@;
                let ghost nv = n@;
                insert_unique_sorted(&mut out, n);
                proof {
                    assert(spec_name_set(out@).contains(nv));
                    assert forall|a: int| 0 <= a < out@.len() implies (#[trigger] out@[a])@.len() > 0
                        && exists|k: int|
                        0 <= k < i + 1 && spec_normalize_process_name(#[trigger] raw[k]@)
                            == out@[a]@ by {
                        assert(spec_has_name(out@, out@[a]@));
                        assert(spec_name_set(out@).contains(out@[a]@));
                        if out@[a]@ != nv {
                            assert(spec_name_set(out_before).contains(out@[a]@));
                            let b = choose|b: int|
                                0 <= b < out_before.len() && #[trigger] out_before[b]@ == out@[a]@;
                            assert(out_before[b]@.len() > 0);
                        } else {
                            assert(spec_normalize_process_name(raw[i as int]@) == nv);
                        }
                    }
                    assert forall|k: int|
                        0 <= k < i + 1 && spec_normalize_process_name(#[trigger] raw[k]@).len() > 0
                            implies spec_has_name(out@, spec_normalize_process_name(raw[k]@)) by {
                        if k < i {
                            assert(spec_has_name(out_before, spec_normalize_process_name(raw[k]@)));
                            assert(spec_name_set(out_before).contains(spec_normalize_process_name(raw[k]@)));
                            assert(spec_name_set(out@).contains(spec_normalize_process_name(raw[k]@)));
                        } else {
                            assert(spec_name_set(out@).contains(nv));
                        }
                    }
                }
            }
            i += 1;
        }
        proof {
            let r = spec_views(out@);
            let rv = spec_views(raw);
            assert forall|name: Seq<char>| spec_is_normalized_entry(rv, name) implies r.contains(name) by {
                let k = choose|k: int| 0 <= k < rv.len() && spec_normalize_process_name(#[trigger] rv[k]) == name;
                assert(rv[k] == raw[k]@);
                assert(spec_has_name(out@, spec_normalize_process_name(raw[k]@)));
                let a = choose|a: int| 0 <= a < out@.len() && #[trigger] out@[a]@ == name;
                assert(r[a] == name);
            }
            assert forall|a: int| 0 <= a < r.len() implies spec_is_normalized_entry(rv, #[trigger] r[a]) by {
                assert(r[a] == out@[a]@);
                let k = choose|k: int|
                        0 <= k < raw.len() && spec_normalize_process_name(#[trigger] raw[k]@) == out@[a]@;
                assert(rv[k] == raw[k]@);
            }
        }
        self.excluded_processes = out;
    }

    /// Every normalisation applied after loading, in order: memory areas,
    /// language, cleanup hotkey, excluded processes, auto-cleanup threshold.
    pub fn normalize(&mut self)
        ensures
            spec_normalized_settings(old(self)@, final(self)@),
            spec_is_normalized(final(self)@),
    {
        let ghost before = self@;
        self.normalize_memory_areas();
        self.normalize_language();
        self.normalize_cleanup_hotkey();
        self.normalize_excluded_processes();
        self.normalize_auto_cleanup();
        proof {
            lemma_normalized_area_bits(before.memory_areas);
            lemma_default_hotkey_parses();
            reveal_strlit("auto");
            let v = self@;
            assert forall|i: int| 0 <= i < v.excluded_processes.len() implies (#[trigger] v.excluded_processes[i]).len() > 0 by {
                assert(spec_is_normalized_entry(before.excluded_processes, v.excluded_processes[i]));
            }
        }
    }

    /// The selected memory areas, with at most one Standby List variant.
    pub fn memory_areas(&self) -> (r: MemoryAreas)
        ensures
            r@ == spec_selected_areas(self.memory_areas),
            !spec_both_standby(r@),
    {
        let mut areas = MemoryAreas::from_bits_truncate(self.memory_areas);
        if areas.contains(MemoryAreas::from_bits_truncate(STANDBY_LIST_BIT)) && areas.contains(
            MemoryAreas::from_bits_truncate(STANDBY_LIST_LOW_PRIORITY_BIT),
        ) {
            areas.remove(MemoryAreas::from_bits_truncate(STANDBY_LIST_LOW_PRIORITY_BIT));
        }
        proof {
            assert(STANDBY_LIST_BIT & ALL_AREAS_BITS == STANDBY_LIST_BIT) by (bit_vector);
            assert(STANDBY_LIST_LOW_PRIORITY_BIT & ALL_AREAS_BITS == STANDBY_LIST_LOW_PRIORITY_BIT)
                by (bit_vector);
            let b = self.memory_areas;
            assert(!spec_both_standby(spec_selected_areas(b))) by (bit_vector);
        }
        areas
    }

    /// The locale to activate: the chosen language, or for "auto" the one
    /// matching the system UI language `system_ui_lang_id`.
    pub fn effective_locale(&self, system_ui_lang_id: u16) -> (r: &'static str)
        ensures
            r@ == (if self.language@ == "zh-CN"@ {
                "zh-CN"@
            } else if self.language@ == "en"@ {
                "en"@
            } else {
                spec_locale_from_lang_id(system_ui_lang_id)
            }),
    {
        if str_eq(self.language.as_str(), "zh-CN") {
            "zh-CN"
        } else if str_eq(self.language.as_str(), "en") {
            "en"
        } else {
            locale_from_lang_id(system_ui_lang_id)
        }
    }

    /// Select or deselect one memory area; selecting one Standby List variant
    /// deselects the other.
    pub fn set_memory_area(&mut self, area: MemoryAreas, enabled: bool)
        ensures
            final(self)@ == old(self)@.with_areas(
                spec_area_toggled(spec_selected_areas(old(self).memory_areas), area@, enabled),
            ),
    {
        let mut areas = self.memory_areas();
        if enabled {
            if area.bits() == STANDBY_LIST_BIT {
                areas.remove(MemoryAreas::from_bits_truncate(STANDBY_LIST_LOW_PRIORITY_BIT));
            } else if area.bits() == STANDBY_LIST_LOW_PRIORITY_BIT {
                areas.remove(MemoryAreas::from_bits_truncate(STANDBY_LIST_BIT));
            }
            areas.insert(area);
        } else {
            areas.remove(area);
        }
        proof {
            assert(STANDBY_LIST_BIT & ALL_AREAS_BITS == STANDBY_LIST_BIT) by (bit_vector);
            assert(STANDBY_LIST_LOW_PRIORITY_BIT & ALL_AREAS_BITS == STANDBY_LIST_LOW_PRIORITY_BIT)
                by (bit_vector);
        }
        self.memory_areas = areas.bits();
    }

    /// Add the normalised `name` to the excluded processes unless it is empty
    /// or already there; the list is then sorted. Returns whether it changed.
    pub fn add_excluded_process(&mut self, name: &str) -> (r: bool)
        ensures
            r == (spec_normalize_process_name(name@).len() > 0 && !spec_has_name(
                old(self).excluded_processes@,
                spec_normalize_process_name(name@),
            )),
            !r ==> final(self)@ == old(self)@,
            r ==> final(self)@ == old(self)@.with_excluded(final(self).excluded_processes@),
            r ==> spec_excluded_after_add(
                old(self).excluded_processes@,
                final(self).excluded_processes@,
                spec_normalize_process_name(name@),
            ),
            spec_normalize_process_name(name@).len() > 0 ==> spec_has_name(
                final(self).excluded_processes@,
                spec_normalize_process_name(name@),
            ),
            spec_is_normalized(old(self)@) ==> spec_is_normalized(final(self)@),
    {
        let n = normalize_process_name(name);
        if n.as_str().is_empty() {
            return false;
        }
        let mut k: usize = 0;
        while k < self.excluded_processes.len()
            invariant
                k <= self.excluded_processes.len(),
                self.excluded_processes@ == old(self).excluded_processes@,
                self@ == old(self)@,
                n@ == spec_normalize_process_name(name@),
                forall|j: int| 0 <= j < k ==> (#[trigger] self.excluded_processes@[j])@ != n@,
            decreases self.excluded_processes.len() - k,
        {
            if str_eq(self.excluded_processes[k].as_str(), n.as_str()) {
                assert(self.excluded_processes@[k as int]@ == n@);
                assert(spec_has_name(self.excluded_processes@, n@));
                return false;
            }
            k += 1;
        }
        let ghost nv = n;
        let mut list = Vec::new();
        std::mem::swap(&mut list, &mut self.excluded_processes);
        let ghost old_list = list@;
        list.push(n);
        proof {
            vstd::seq_lib::to_multiset_build(old_list, nv);
        }
        let ghost pushed = list@;
        self.excluded_processes = sort_strings(list);
        proof {
            assert(pushed[pushed.len() - 1] == nv);
            vstd::seq_lib::to_multiset_contains(pushed, nv);
            vstd::seq_lib::to_multiset_contains(self.excluded_processes@, nv);
            assert(self.excluded_processes@.contains(nv));
            let i = choose|i: int| 0 <= i < self.excluded_processes@.len() && self.excluded_processes@[i] == nv;
            assert(self.excluded_processes@[i]@ == nv@);
            if spec_is_normalized(old(self)@) {
                let ov = old(self).excluded_processes@;
                lemma_normalized_list(old(self)@);
                assert forall|a: int, b: int| 0 <= a < b < ov.len() implies spec_lex_lt(ov[a]@, ov[b]@) by {
                    assert(spec_views(ov)[a] == ov[a]@ && spec_views(ov)[b] == ov[b]@);
                }
                lemma_sorted_insert_strictly(ov, nv, self.excluded_processes@);
                let fv = self.excluded_processes@;
                assert forall|a: int| 0 <= a < spec_views(fv).len() implies (#[trigger] spec_views(fv)[a]).len() > 0 by {
                    let e = fv[a];
                    assert(fv.contains(e));
                    assert(fv.to_multiset().count(e) > 0);
                    assert(pushed.to_multiset().count(e) > 0);
                    assert(pushed.contains(e));
                    let m = choose|m: int| 0 <= m < pushed.len() && pushed[m] == e;
                    if m < ov.len() {
                        assert(spec_views(ov)[m] == ov[m]@);
                    }
                }
            }
        }
        true
    }

    /// Remove every excluded name equal to the normalised `name`.
    pub fn remove_excluded_process(&mut self, name: &str)
        ensures
            final(self)@ == old(self)@.with_excluded(final(self).excluded_processes@),
            spec_views(final(self).excluded_processes@) == spec_views(old(self).excluded_processes@).filter(
                |e: Seq<char>| e != spec_normalize_process_name(name@),
            ),
            !spec_views(final(self).excluded_processes@).contains(spec_normalize_process_name(name@)),
            spec_is_normalized(old(self)@) ==> spec_is_normalized(final(self)@),
    {
        let n = normalize_process_name(name);
        let ghost pred = |e: Seq<char>| e != spec_normalize_process_name(name@);
        let ghost orig = spec_views(self.excluded_processes@);
        let mut kept: Vec<String> = Vec::new();
        let mut i: usize = 0;
        while i < self.excluded_processes.len()
            invariant
                i <= self.excluded_processes.len(),
                orig == spec_views(self.excluded_processes@),
                n@ == spec_normalize_process_name(name@),
                pred == (|e: Seq<char>| e != spec_normalize_process_name(name@)),
                spec_views(kept@) == orig.take(i as int).filter(pred),
            decreases self.excluded_processes.len() - i,
        {
            assert(orig.take(i + 1).drop_last() =~= orig.take(i as int));
            assert(orig.take(i + 1).last() == self.excluded_processes@[i as int]@);
            reveal(Seq::filter);
            if !str_eq(self.excluded_processes[i].as_str(), n.as_str()) {
                let c = self.excluded_processes[i].clone();
                kept.push(c);
            }
            assert(spec_views(kept@) =~= orig.take(i + 1).filter(pred));
            i += 1;
        }
        assert(orig.take(orig.len() as int) =~= orig);
        proof {
            let f = orig.filter(pred);
            if f.contains(n@) {
                let i = choose|i: int| 0 <= i < f.len() && f[i] == n@;
                orig.lemma_filter_pred(pred, i);
            }
            if spec_is_normalized(old(self)@) {
                lemma_normalized_list(old(self)@);
                lemma_filter_strictly_increasing(orig, pred);
            }
        }
        self.excluded_processes = kept;
    }
}

/// The strings' contents.
pub open spec fn spec_views(s: Seq<String>) -> Seq<Seq<char>> {
    s.map_values(|x: String| x@)
}

/// Sequences holding the same elements still do after a map.
proof fn lemma_to_multiset_map<A, B>(a: Seq<A>, b: Seq<A>, f: spec_fn(A) -> B)
    requires
        a.to_multiset() == b.to_multiset(),
    ensures
        a.map_values(f).to_multiset() == b.map_values(f).to_multiset(),
    decreases a.len(),
{
    broadcast use vstd::multiset::group_multiset_axioms;

    if a.len() == 0 {
        assert(b.to_multiset().len() == 0);
        assert(a.map_values(f) =~= Seq::<B>::empty());
        assert(b.map_values(f) =~= Seq::<B>::empty());
    } else {
        let x = a.last();
        let a2 = a.drop_last();
        assert(a =~= a2.push(x));
        assert(a.to_multiset() == a2.to_multiset().insert(x));
        assert(a.to_multiset().count(x) > 0);
        assert(b.contains(x));
        let k = choose|k: int| 0 <= k < b.len() && b[k] == x;
        let b2 = b.remove(k);
        assert(b2.to_multiset() == b.to_multiset().remove(x));
        assert(a2.to_multiset() =~= b2.to_multiset());
        lemma_to_multiset_map(a2, b2, f);
        assert(a.map_values(f) =~= a2.map_values(f).push(f(x)));
        assert(b.map_values(f) =~= b2.map_values(f).insert(k, f(x)));
        vstd::seq_lib::to_multiset_insert(b2.map_values(f), k, f(x));
    }
}

/// The excluded names of normalised settings, spelled out.
pub proof fn lemma_normalized_list(s: SettingsView)
    requires
        spec_is_normalized(s),
    ensures
        forall|i: int, j: int|
            0 <= i < j < s.excluded_processes.len() ==> spec_lex_lt(
                #[trigger] s.excluded_processes[i],
                #[trigger] s.excluded_processes[j],
            ),
        forall|i: int| 0 <= i < s.excluded_processes.len() ==> (#[trigger] s.excluded_processes[i]).len() > 0,
{
}

/// Filtering a strictly increasing list of non-empty names keeps it so.
proof fn lemma_filter_strictly_increasing(s: Seq<Seq<char>>, p: spec_fn(Seq<char>) -> bool)
    requires
        forall|i: int, j: int| 0 <= i < j < s.len() ==> spec_lex_lt(s[i], s[j]),
        forall|i: int| 0 <= i < s.len() ==> (#[trigger] s[i]).len() > 0,
    ensures
        forall|i: int, j: int|
            0 <= i < j < s.filter(p).len() ==> spec_lex_lt(s.filter(p)[i], s.filter(p)[j]),
        forall|i: int| 0 <= i < s.filter(p).len() ==> (#[trigger] s.filter(p)[i]).len() > 0,
        forall|i: int|
            0 <= i < s.filter(p).len() ==> exists|m: int| 0 <= m < s.len() && s[m] == #[trigger] s.filter(p)[i],
    decreases s.len(),
{
    reveal(Seq::filter);
    if s.len() > 0 {
        let d = s.drop_last();
        lemma_filter_strictly_increasing(d, p);
        let fd = d.filter(p);
        let f = s.filter(p);
        assert forall|i: int| 0 <= i < fd.len() implies exists|m: int| 0 <= m < s.len() && s[m] == #[trigger] fd[i]
            && spec_lex_lt(fd[i], s.last()) by {
            let m = choose|m: int| 0 <= m < d.len() && d[m] == fd[i];
            assert(s[m] == d[m]);
        }
        if p(s.last()) {
            assert(f =~= fd.push(s.last()));
            assert forall|i: int, j: int| 0 <= i < j < f.len() implies spec_lex_lt(f[i], f[j]) by {
                if j == f.len() - 1 {
                    assert(f[i] == fd[i]);
                } else {
                    assert(f[i] == fd[i] && f[j] == fd[j]);
                }
            }
            assert forall|i: int| 0 <= i < f.len() implies exists|m: int| 0 <= m < s.len() && s[m]
                == #[trigger] f[i] by {
                if i == f.len() - 1 {
                    assert(s[s.len() - 1] == f[i]);
                } else {
                    assert(f[i] == fd[i]);
                }
            }
            assert forall|i: int| 0 <= i < f.len() implies (#[trigger] f[i]).len() > 0 by {
                if i == f.len() - 1 {
                    assert(s[s.len() - 1] == f[i]);
                } else {
                    assert(f[i] == fd[i]);
                }
            }
        } else {
            assert(f =~= fd);
        }
    }
}

/// A sorted list whose contents occur once each is strictly sorted.
proof fn lemma_sorted_distinct_strictly(s: Seq<String>)
    requires
        spec_sorted(s),
        spec_views(s).no_duplicates(),
    ensures
        spec_strictly_sorted(s),
{
    assert forall|i: int, j: int| 0 <= i < j < s.len() implies spec_lex_lt(s[i]@, s[j]@) by {
        assert(spec_views(s)[i] == s[i]@);
        assert(spec_views(s)[j] == s[j]@);
        assert(spec_views(s)[i] != spec_views(s)[j]);
        assert(spec_lex_le(s[i]@, s[j]@));
    }
}

/// Adding a name missing from a strictly sorted list, then sorting, gives a
/// strictly sorted list.
proof fn lemma_sorted_insert_strictly(old_list: Seq<String>, x: String, r: Seq<String>)
    requires
        spec_strictly_sorted(old_list),
        !spec_has_name(old_list, x@),
        spec_sorted(r),
        r.to_multiset() == old_list.to_multiset().insert(x),
    ensures
        spec_strictly_sorted(r),
{
    broadcast use vstd::multiset::group_multiset_axioms;

    let pushed = old_list.push(x);
    let f = |s: String| s@;
    assert(r.to_multiset() == pushed.to_multiset());
    lemma_to_multiset_map(r, pushed, f);
    let vp = spec_views(pushed);
    assert(vp =~= spec_views(old_list).push(x@));
    assert forall|i: int, j: int| 0 <= i < vp.len() && 0 <= j < vp.len() && i != j implies vp[i]
        != vp[j] by {
        if i < pushed.len() - 1 && j < pushed.len() - 1 {
            lemma_lex_irreflexive(old_list[i]@);
            lemma_lex_irreflexive(old_list[j]@);
            if i < j {
                assert(spec_lex_lt(old_list[i]@, old_list[j]@));
            } else {
                assert(spec_lex_lt(old_list[j]@, old_list[i]@));
            }
        } else if i == pushed.len() - 1 {
            assert(vp[j] == old_list[j]@);
        } else {
            assert(vp[i] == old_list[i]@);
        }
    }
    vp.lemma_multiset_has_no_duplicates();
    let vr = spec_views(r);
    assert(vr.to_multiset() == vp.to_multiset());
    vr.lemma_multiset_has_no_duplicates_conv();
    lemma_sorted_distinct_strictly(r);
}

/// What `normalize` makes of `before`.
pub open spec fn spec_normalized_settings(before: SettingsView, after: SettingsView) -> bool {
    &&& after.memory_areas == spec_normalized_area_bits(before.memory_areas)
    &&& after.language == (if spec_is_supported_language(before.language) {
        before.language
    } else {
        "auto"@
    })
    &&& after.cleanup_hotkey == (if before.cleanup_hotkey_enabled && spec_parse_chord(
        before.cleanup_hotkey,
    ) is None {
        DEFAULT_CLEANUP_HOTKEY@
    } else {
        before.cleanup_hotkey
    })
    &&& spec_normalized_list(before.excluded_processes, after.excluded_processes)
    &&& after.auto_cleanup_threshold == (if before.auto_cleanup_threshold > 100 {
        100
    } else {
        before.auto_cleanup_threshold
    })
    &&& after.always_on_top == before.always_on_top
    &&& after.run_at_startup == before.run_at_startup
    &&& after.close_to_notification_area == before.close_to_notification_area
    &&& after.show_optimization_notifications == before.show_optimization_notifications
    &&& after.debug_logging == before.debug_logging
    &&& after.cleanup_hotkey_enabled == before.cleanup_hotkey_enabled
    &&& after.auto_cleanup_enabled == before.auto_cleanup_enabled
    &&& after.auto_cleanup_interval_minutes == before.auto_cleanup_interval_minutes
}

/// What holds of settings once normalised: a supported language, a threshold
/// that is a percent, at most one Standby List variant, an enabled hotkey that
/// parses, and excluded names that are non-empty, sorted and distinct.
pub open spec fn spec_is_normalized(s: SettingsView) -> bool {
    &&& spec_is_supported_language(s.language)
    &&& s.auto_cleanup_threshold <= 100
    &&& !spec_both_standby(s.memory_areas & ALL_AREAS_BITS)
    &&& s.cleanup_hotkey_enabled ==> spec_parse_chord(s.cleanup_hotkey) is Some
    &&& forall|i: int, j: int|
        0 <= i < j < s.excluded_processes.len() ==> spec_lex_lt(s.excluded_processes[i], s.excluded_processes[j])
    &&& forall|i: int| 0 <= i < s.excluded_processes.len() ==> (#[trigger] s.excluded_processes[i]).len() > 0
}

proof fn lemma_normalized_area_bits(b: u32)
    ensures
        !spec_both_standby(spec_normalized_area_bits(b) & ALL_AREAS_BITS),
        spec_normalized_area_bits(spec_normalized_area_bits(b)) == spec_normalized_area_bits(b),
{
    assert(!spec_both_standby(spec_normalized_area_bits(b) & ALL_AREAS_BITS)) by (bit_vector);
    assert(spec_normalized_area_bits(spec_normalized_area_bits(b)) == spec_normalized_area_bits(b))
        by (bit_vector);
}

/// The default chord parses, to Ctrl+Alt and the C key.
pub proof fn lemma_default_hotkey_parses()
    ensures
        spec_parse_chord(DEFAULT_CLEANUP_HOTKEY@) == Some(
            HotkeyBinding { modifiers: MOD_CONTROL | MOD_ALT | MOD_NOREPEAT, virtual_key: 0x43 },
        ),
{
    reveal_strlit("Ctrl+Alt+C");
    let key = seq!['C'];
    assert(spec_trim(key) =~= key);
    assert(spec_ascii_lower(spec_trim(key)) =~= seq!['c']);
    assert(!spec_is_modifier_key(key));
    assert(spec_key_token(key) == Some('C'));
    lemma_recorded_chord_parses(true, true, false, false, key);
    let names = spec_chord_names(true, true, false, false);
    assert(names =~= seq![spec_ctrl_word(), spec_alt_word()]);
    assert(names.drop_last() =~= seq![spec_ctrl_word()]);
    assert(names.drop_last().drop_last() =~= Seq::<Seq<char>>::empty());
    reveal_with_fuel(crate::hotkey::spec_join_plus, 3);
    assert(crate::hotkey::spec_join_plus(names) =~= seq!['C', 't', 'r', 'l', '+', 'A', 'l', 't', '+']);
    assert(DEFAULT_CLEANUP_HOTKEY@ == "Ctrl+Alt+C"@);
    assert(spec_chord_text(true, true, false, false, 'C') =~= DEFAULT_CLEANUP_HOTKEY@);
    assert(spec_recorded_modifiers(true, true, false, false) == MOD_CONTROL | MOD_ALT) by (bit_vector);
}

proof fn lemma_squash_chars(s: Seq<char>)
    ensures
        forall|i: int|
            0 <= i < spec_squash(s).len() ==> !spec_is_whitespace(#[trigger] spec_squash(s)[i])
                && spec_ascii_lower_char(spec_squash(s)[i]) == spec_squash(s)[i],
    decreases s.len(),
{
    if s.len() > 0 {
        lemma_squash_chars(s.drop_last());
        let p = spec_squash(s.drop_last());
        let c = s.last();
        if !spec_is_whitespace(c) {
            let l = spec_ascii_lower_char(c);
            if 'A' <= c && c <= 'Z' {
                assert('a' <= l && l <= 'z');
            }
            assert(!spec_is_whitespace(l));
            assert(spec_ascii_lower_char(l) == l);
            assert forall|i: int| 0 <= i < spec_squash(s).len() implies !spec_is_whitespace(#[trigger] spec_squash(s)[i])
                && spec_ascii_lower_char(spec_squash(s)[i]) == spec_squash(s)[i] by {
                if i < p.len() {
                    assert(spec_squash(s)[i] == p[i]);
                } else {
                    assert(spec_squash(s)[i] == l);
                }
            }
        }
    }
}

proof fn lemma_squash_fixed(t: Seq<char>)
    requires
        forall|i: int| 0 <= i < t.len() ==> !spec_is_whitespace(#[trigger] t[i]) && spec_ascii_lower_char(t[i]) == t[i],
    ensures
        spec_squash(t) == t,
    decreases t.len(),
{
    if t.len() > 0 {
        lemma_squash_fixed(t.drop_last());
        assert(t.drop_last().push(t.last()) =~= t);
    }
}

/// A normalised name that does not end in `.exe` normalises to itself.
pub proof fn lemma_normalized_name_fixed(x: Seq<char>)
    requires
        !spec_ends_with_exe(spec_normalize_process_name(x)),
    ensures
        spec_normalize_process_name(spec_normalize_process_name(x)) == spec_normalize_process_name(x),
{
    let t = spec_squash(x);
    let n = spec_normalize_process_name(x);
    lemma_squash_chars(x);
    assert forall|i: int| 0 <= i < n.len() implies !spec_is_whitespace(#[trigger] n[i]) && spec_ascii_lower_char(n[i]) == n[i] by {
        assert(n[i] == t[i]);
    }
    lemma_squash_fixed(n);
}

/// Two strictly sorted lists with the same items are the same list.
pub proof fn lemma_strictly_sorted_unique(a: Seq<Seq<char>>, b: Seq<Seq<char>>)
    requires
        forall|i: int, j: int| 0 <= i < j < a.len() ==> spec_lex_lt(a[i], a[j]),
        forall|i: int, j: int| 0 <= i < j < b.len() ==> spec_lex_lt(b[i], b[j]),
        forall|x: Seq<char>| a.contains(x) <==> b.contains(x),
    ensures
        a == b,
    decreases a.len(),
{
    if a.len() == 0 {
        if b.len() > 0 {
            assert(b.contains(b[0]));
        }
        assert(a =~= b);
    } else {
        assert(a.contains(a[0]));
        assert(b.len() > 0);
        assert(b.contains(b[0]));
        let ja = choose|j: int| 0 <= j < b.len() && b[j] == a[0];
        let jb = choose|j: int| 0 <= j < a.len() && a[j] == b[0];
        if a[0] != b[0] {
            lemma_lex_total(a[0], b[0]);
            if spec_lex_lt(a[0], b[0]) {
                assert(ja > 0);
                assert(spec_lex_lt(b[0], b[ja]));
                lemma_lex_asymmetric(a[0], b[0]);
            } else {
                assert(jb > 0);
                assert(spec_lex_lt(a[0], a[jb]));
                lemma_lex_asymmetric(b[0], a[0]);
            }
        }
        let a1 = a.drop_first();
        let b1 = b.drop_first();
        assert forall|x: Seq<char>| a1.contains(x) <==> b1.contains(x) by {
            if a1.contains(x) {
                let i = choose|i: int| 0 <= i < a1.len() && a1[i] == x;
                assert(a[i + 1] == x);
                assert(spec_lex_lt(a[0], x));
                lemma_lex_irreflexive(x);
                assert(b.contains(x));
                let j = choose|j: int| 0 <= j < b.len() && b[j] == x;
                assert(j != 0);
                assert(b1[j - 1] == x);
            }
            if b1.contains(x) {
                let i = choose|i: int| 0 <= i < b1.len() && b1[i] == x;
                assert(b[i + 1] == x);
                assert(spec_lex_lt(b[0], x));
                lemma_lex_irreflexive(x);
                assert(a.contains(x));
                let j = choose|j: int| 0 <= j < a.len() && a[j] == x;
                assert(j != 0);
                assert(a1[j - 1] == x);
            }
        }
        lemma_strictly_sorted_unique(a1, b1);
        assert(a =~= seq![a[0]] + a1);
        assert(b =~= seq![b[0]] + b1);
    }
}

/// Normalising settings a second time changes nothing, unless an excluded name
/// still ends in `.exe` after the first pass (as `a.exe.exe` does).
pub proof fn lemma_normalize_idempotent(s0: SettingsView, s1: SettingsView, s2: SettingsView)
    requires
        spec_normalized_settings(s0, s1),
        spec_normalized_settings(s1, s2),
        forall|i: int| 0 <= i < s1.excluded_processes.len() ==> !spec_ends_with_exe(#[trigger] s1.excluded_processes[i]),
    ensures
        s2 == s1,
{
    lemma_normalized_area_bits(s0.memory_areas);
    lemma_default_hotkey_parses();
    reveal_strlit("auto");
    let once = s1.excluded_processes;
    let twice = s2.excluded_processes;
    let raw = s0.excluded_processes;
    assert forall|k: int| 0 <= k < once.len() implies spec_normalize_process_name(#[trigger] once[k]) == once[k] by {
        assert(spec_is_normalized_entry(raw, once[k]));
        let j = choose|j: int| 0 <= j < raw.len() && spec_normalize_process_name(#[trigger] raw[j]) == once[k];
        lemma_normalized_name_fixed(raw[j]);
    }
    assert forall|x: Seq<char>| once.contains(x) <==> twice.contains(x) by {
        if once.contains(x) {
            let k = choose|k: int| 0 <= k < once.len() && once[k] == x;
            assert(spec_is_normalized_entry(raw, once[k]));
            assert(spec_normalize_process_name(once[k]) == x);
            assert(spec_is_normalized_entry(once, x));
        }
        if twice.contains(x) {
            let i = choose|i: int| 0 <= i < twice.len() && twice[i] == x;
            assert(spec_is_normalized_entry(once, twice[i]));
            let k = choose|k: int| 0 <= k < once.len() && spec_normalize_process_name(#[trigger] once[k]) == x;
            assert(once[k] == x);
        }
    }
    lemma_strictly_sorted_unique(once, twice);
    assert(s2.language == s1.language);
    assert(s2.cleanup_hotkey == s1.cleanup_hotkey);
}

/// Selecting or deselecting a single memory area never leaves both Standby
/// List variants selected.
pub proof fn lemma_toggle_keeps_standby_exclusive(bits: u32, area: u32, enabled: bool)
    requires
        area == 1 || area == 2 || area == 4 || area == 8 || area == 16 || area == 32 || area == 64 || area
            == 128,
    ensures
        !spec_both_standby(spec_area_toggled(spec_selected_areas(bits), area, enabled)),
{
    assert(!spec_both_standby(spec_area_toggled(spec_selected_areas(bits), area, enabled))) by (bit_vector)
        requires
            area == 1 || area == 2 || area == 4 || area == 8 || area == 16 || area == 32 || area == 64
                || area == 128,
    ;
}

/// The area bits after selecting (`enabled`) or deselecting `area`.
pub open spec fn spec_area_toggled(areas: u32, area: u32, enabled: bool) -> u32 {
    if enabled {
        let base = if area == STANDBY_LIST_BIT {
            areas & !STANDBY_LIST_LOW_PRIORITY_BIT
        } else if area == STANDBY_LIST_LOW_PRIORITY_BIT {
            areas & !STANDBY_LIST_BIT
        } else {
            areas
        };
        base | area
    } else {
        areas & !area
    }
}

/// The fields of a `Settings`, as values.
pub struct SettingsView {
    pub always_on_top: bool,
    pub run_at_startup: bool,
    pub close_to_notification_area: bool,
    pub memory_areas: u32,
    pub show_optimization_notifications: bool,
    pub language: Seq<char>,
    pub debug_logging: bool,
    pub cleanup_hotkey_enabled: bool,
    pub cleanup_hotkey: Seq<char>,
    pub excluded_processes: Seq<Seq<char>>,
    pub auto_cleanup_enabled: bool,
    pub auto_cleanup_threshold: u32,
    pub auto_cleanup_interval_minutes: u32,
}

impl SettingsView {
    pub open spec fn with_language(self, language: Seq<char>) -> SettingsView {
        SettingsView { language, ..self }
    }

    pub open spec fn with_threshold(self, t: u32) -> SettingsView {
        SettingsView { auto_cleanup_threshold: t, ..self }
    }

    pub open spec fn with_hotkey(self, chord: Seq<char>) -> SettingsView {
        SettingsView { cleanup_hotkey: chord, ..self }
    }

    pub open spec fn with_areas(self, bits: u32) -> SettingsView {
        SettingsView { memory_areas: bits, ..self }
    }

    pub open spec fn with_excluded(self, list: Seq<String>) -> SettingsView {
        SettingsView { excluded_processes: spec_views(list), ..self }
    }
}

impl View for Settings {
    type V = SettingsView;

    open spec fn view(&self) -> SettingsView {
        SettingsView {
            always_on_top: self.always_on_top,
            run_at_startup: self.run_at_startup,
            close_to_notification_area: self.close_to_notification_area,
            memory_areas: self.memory_areas,
            show_optimization_notifications: self.show_optimization_notifications,
            language: self.language@,
            debug_logging: self.debug_logging,
            cleanup_hotkey_enabled: self.cleanup_hotkey_enabled,
            cleanup_hotkey: self.cleanup_hotkey@,
            excluded_processes: spec_views(self.excluded_processes@),
            auto_cleanup_enabled: self.auto_cleanup_enabled,
            auto_cleanup_threshold: self.auto_cleanup_threshold,
            auto_cleanup_interval_minutes: self.auto_cleanup_interval_minutes,
        }
    }
}

} // verus!
