//! The settings page as a state machine: each control's handler takes the
//! page state and the user's input, updates the state, and says what the
//! window carries out next (save the file, re-register the hotkey, restart the
//! auto-cleanup monitors, re-apply the locale or the log level).

use vstd::prelude::*;
use crate::hotkey::{spec_chord_keystroke, spec_format_chord, spec_parse_chord, HotkeyBinding};
use crate::optimize::{ALL_AREAS_BITS, MemoryAreas};
use crate::preferences::{record_hotkey_key, HotkeyKeyOutcome};
use crate::settings::{
    lemma_normalized_list, lemma_toggle_keeps_standby_exclusive, spec_area_toggled, spec_both_standby, spec_has_name,
    spec_is_normalized, spec_is_supported_language, spec_selected_areas, spec_views,
    spec_excluded_after_add, Settings, SettingsView,
};
use crate::process::spec_normalize_process_name;
use crate::text::{spec_ascii_lower, str_eq};

verus! {

/// What the window does after an edit.
#[derive(Debug, Clone, Copy, PartialEq, Eq, Structural)]
pub struct EditEffects {
    /// Queue a save of the settings file.
    pub save: bool,
    /// Bring the global hotkey registration in line with the settings.
    pub sync_hotkey: bool,
    /// Restart the low-memory and the threshold monitors.
    pub sync_auto_cleanup: bool,
    /// Restart the threshold monitor.
    pub sync_threshold: bool,
    /// Re-apply the locale and refresh what is shown in it.
    pub apply_locale: bool,
    /// Turn debug logging on or off as the settings now say.
    pub apply_debug_logging: bool,
}

pub open spec fn spec_effects(
    save: bool,
    sync_hotkey: bool,
    sync_auto_cleanup: bool,
    sync_threshold: bool,
    apply_locale: bool,
    apply_debug_logging: bool,
) -> EditEffects {
    EditEffects { save, sync_hotkey, sync_auto_cleanup, sync_threshold, apply_locale, apply_debug_logging }
}

/// Nothing to carry out.
pub open spec fn spec_no_effects() -> EditEffects {
    spec_effects(false, false, false, false, false, false)
}

/// Only a save.
pub open spec fn spec_save_only() -> EditEffects {
    spec_effects(true, false, false, false, false, false)
}

fn no_effects() -> (r: EditEffects)
    ensures
        r == spec_no_effects(),
{
    EditEffects {
        save: false,
        sync_hotkey: false,
        sync_auto_cleanup: false,
        sync_threshold: false,
        apply_locale: false,
        apply_debug_logging: false,
    }
}

fn save_only() -> (r: EditEffects)
    ensures
        r == spec_save_only(),
{
    EditEffects { save: true, ..no_effects() }
}

/// The state the settings page edits: the settings, whether a cleanup is
/// running (which locks the cleanup choices), and whether the hotkey recorder
/// is waiting for a chord.
pub struct SettingsEditor {
    pub settings: Settings,
    pub is_optimizing: bool,
    pub hotkey_recording: bool,
}

/// The editor's state, as values.
pub struct EditorView {
    pub settings: SettingsView,
    pub is_optimizing: bool,
    pub hotkey_recording: bool,
}

impl View for SettingsEditor {
    type V = EditorView;

    open spec fn view(&self) -> EditorView {
        EditorView {
            settings: self.settings@,
            is_optimizing: self.is_optimizing,
            hotkey_recording: self.hotkey_recording,
        }
    }
}

/// A single memory area.
pub open spec fn spec_single_area(area: u32) -> bool {
    area == 1 || area == 2 || area == 4 || area == 8 || area == 16 || area == 32 || area == 64 || area
        == 128
}

/// What the hotkey row shows.
#[derive(Debug, Clone)]
pub enum HotkeyDisplay {
    /// "Press a key combination…" while recording.
    Recording,
    /// The chord as keys, in keystroke notation (`ctrl-alt-c`).
    Keys(String),
    /// The chord as text, when it cannot be shown as keys.
    Text(String),
}

/// What the hotkey row shows for the recorder state and the chord.
pub fn cleanup_hotkey_display(recording: bool, chord: &str) -> (r: HotkeyDisplay)
    ensures
        recording ==> r is Recording,
        !recording ==> match spec_chord_keystroke(chord@) {
            Some(k) => r matches HotkeyDisplay::Keys(s) && s@ == k,
            None => r matches HotkeyDisplay::Text(s) && s@ == chord@,
        },
{
    if recording {
        return HotkeyDisplay::Recording;
    }
    match HotkeyBinding::chord_to_keystroke(chord) {
        Some(keys) => HotkeyDisplay::Keys(keys),
        None => HotkeyDisplay::Text(chord.to_owned()),
    }
}

/// The translation key of the language menu's label for the `language`
/// setting; a value the menu does not offer shows as "automatic".
pub fn language_label_key(language: &str) -> (r: &'static str)
    ensures
        r@ == (if language@ == "zh-CN"@ {
            "settings.language_zh"@
        } else if language@ == "en"@ {
            "settings.language_en"@
        } else {
            "settings.language_auto"@
        }),
{
    if str_eq(language, "zh-CN") {
        "settings.language_zh"
    } else if str_eq(language, "en") {
        "settings.language_en"
    } else {
        "settings.language_auto"
    }
}

impl SettingsEditor {
    /// The recorder runs only while the hotkey is enabled.
    pub open spec fn wf(self) -> bool {
        self.hotkey_recording ==> self.settings.cleanup_hotkey_enabled
    }

    /// The page for `settings`, idle.
    pub fn new(settings: Settings) -> (r: Self)
        ensures
            r@ == (EditorView { settings: settings@, is_optimizing: false, hotkey_recording: false }),
            r.wf(),
    {
        SettingsEditor { settings, is_optimizing: false, hotkey_recording: false }
    }

    /// Lock the cleanup choices for a cleanup run; `false` when one runs already.
    pub fn begin_cleanup(&mut self) -> (r: bool)
        ensures
            r == !old(self).is_optimizing,
            final(self)@ == (EditorView { is_optimizing: true, ..old(self)@ }),
            old(self).wf() ==> final(self).wf(),
    {
        if self.is_optimizing {
            return false;
        }
        self.is_optimizing = true;
        true
    }

    /// Unlock the cleanup choices once the run is over.
    pub fn end_cleanup(&mut self)
        ensures
            final(self)@ == (EditorView { is_optimizing: false, ..old(self)@ }),
            old(self).wf() ==> final(self).wf(),
    {
        self.is_optimizing = false;
    }

    /// Tick or untick one memory area; ignored while a cleanup runs.
    pub fn set_memory_area(&mut self, area: MemoryAreas, enabled: bool) -> (r: EditEffects)
        ensures
            old(self).is_optimizing ==> final(self)@ == old(self)@ && r == spec_no_effects(),
            !old(self).is_optimizing ==> final(self)@ == (EditorView {
                settings: old(self)@.settings.with_areas(
                    spec_area_toggled(spec_selected_areas(old(self).settings.memory_areas), area@, enabled),
                ),
                ..old(self)@
            }) && r == spec_save_only(),
            spec_is_normalized(old(self)@.settings) && spec_single_area(area@) ==> spec_is_normalized(
                final(self)@.settings,
            ),
            old(self).wf() ==> final(self).wf(),
    {
        if self.is_optimizing {
            return no_effects();
        }
        self.settings.set_memory_area(area, enabled);
        proof {
            if spec_single_area(area@) {
                let t = spec_area_toggled(spec_selected_areas(old(self).settings.memory_areas), area@, enabled);
                lemma_toggle_keeps_standby_exclusive(old(self).settings.memory_areas, area@, enabled);
                assert(!spec_both_standby(t & ALL_AREAS_BITS)) by (bit_vector)
                    requires
                        !spec_both_standby(t),
                ;
            }
        }
        save_only()
    }

    /// Exclude a process from the working-set cleanup; ignored while a
    /// cleanup runs, and a save only when the list changed.
    pub fn add_excluded_process(&mut self, name: &str) -> (r: EditEffects)
        ensures
            old(self).is_optimizing ==> final(self)@ == old(self)@ && r == spec_no_effects(),
            !old(self).is_optimizing ==> {
                let n = spec_normalize_process_name(name@);
                let changed = n.len() > 0 && !spec_has_name(old(self).settings.excluded_processes@, n);
                &&& r == (if changed { spec_save_only() } else { spec_no_effects() })
                &&& !changed ==> final(self)@ == old(self)@
                &&& changed ==> final(self)@ == (EditorView {
                    settings: old(self)@.settings.with_excluded(final(self).settings.excluded_processes@),
                    ..old(self)@
                })
                &&& changed ==> spec_excluded_after_add(
                    old(self).settings.excluded_processes@,
                    final(self).settings.excluded_processes@,
                    n,
                )
            },
            spec_is_normalized(old(self)@.settings) ==> spec_is_normalized(final(self)@.settings),
            old(self).wf() ==> final(self).wf(),
    {
        if self.is_optimizing {
            return no_effects();
        }
        if self.settings.add_excluded_process(name) {
            save_only()
        } else {
            no_effects()
        }
    }

    /// Stop excluding a process; ignored while a cleanup runs.
    pub fn remove_excluded_process(&mut self, name: &str) -> (r: EditEffects)
        ensures
            old(self).is_optimizing ==> final(self)@ == old(self)@ && r == spec_no_effects(),
            !old(self).is_optimizing ==> final(self)@ == (EditorView {
                settings: (SettingsView {
                    excluded_processes: spec_views(old(self).settings.excluded_processes@).filter(
                        |e: Seq<char>| e != spec_normalize_process_name(name@),
                    ),
                    ..old(self)@.settings
                }),
                ..old(self)@
            }) && r == spec_save_only(),
            spec_is_normalized(old(self)@.settings) ==> spec_is_normalized(final(self)@.settings),
            old(self).wf() ==> final(self).wf(),
    {
        if self.is_optimizing {
            return no_effects();
        }
        self.settings.remove_excluded_process(name);
        save_only()
    }

    /// Pick a language from the menu; choosing the current one does nothing.
    pub fn select_language(&mut self, value: &str) -> (r: EditEffects)
        ensures
            old(self).settings.language@ == value@ ==> final(self)@ == old(self)@ && r == spec_no_effects(),
            old(self).settings.language@ != value@ ==> final(self)@ == (EditorView {
                settings: old(self)@.settings.with_language(value@),
                ..old(self)@
            }) && r == spec_effects(true, false, false, false, true, false),
            spec_is_normalized(old(self)@.settings) && spec_is_supported_language(value@)
                ==> spec_is_normalized(final(self)@.settings),
            old(self).wf() ==> final(self).wf(),
    {
        if str_eq(self.settings.language.as_str(), value) {
            return no_effects();
        }
        self.settings.language = value.to_owned();
        proof {
            if spec_is_normalized(old(self)@.settings) {
                lemma_normalized_list(old(self)@.settings);
            }
        }
        EditEffects { save: true, apply_locale: true, ..no_effects() }
    }

    /// Choose whether closing the window keeps the program in the tray.
    pub fn set_close_to_tray(&mut self, enabled: bool) -> (r: EditEffects)
        ensures
            final(self)@ == (EditorView {
                settings: (SettingsView { close_to_notification_area: enabled, ..old(self)@.settings }),
                ..old(self)@
            }),
            r == spec_save_only(),
            spec_is_normalized(old(self)@.settings) ==> spec_is_normalized(final(self)@.settings),
            old(self).wf() ==> final(self).wf(),
    {
        self.settings.close_to_notification_area = enabled;
        save_only()
    }

    /// Choose whether a finished cleanup shows a notification.
    pub fn set_show_optimization_notifications(&mut self, enabled: bool) -> (r: EditEffects)
        ensures
            final(self)@ == (EditorView {
                settings: (SettingsView { show_optimization_notifications: enabled, ..old(self)@.settings }),
                ..old(self)@
            }),
            r == spec_save_only(),
            spec_is_normalized(old(self)@.settings) ==> spec_is_normalized(final(self)@.settings),
            old(self).wf() ==> final(self).wf(),
    {
        self.settings.show_optimization_notifications = enabled;
        save_only()
    }

    /// Turn automatic cleanup on or off; the same value does nothing.
    pub fn set_auto_cleanup_enabled(&mut self, enabled: bool) -> (r: EditEffects)
        ensures
            old(self).settings.auto_cleanup_enabled == enabled ==> final(self)@ == old(self)@ && r
                == spec_no_effects(),
            old(self).settings.auto_cleanup_enabled != enabled ==> final(self)@ == (EditorView {
                settings: (SettingsView { auto_cleanup_enabled: enabled, ..old(self)@.settings }),
                ..old(self)@
            }) && r == spec_effects(true, false, true, false, false, false),
            spec_is_normalized(old(self)@.settings) ==> spec_is_normalized(final(self)@.settings),
            old(self).wf() ==> final(self).wf(),
    {
        if self.settings.auto_cleanup_enabled == enabled {
            return no_effects();
        }
        self.settings.auto_cleanup_enabled = enabled;
        EditEffects { save: true, sync_auto_cleanup: true, ..no_effects() }
    }

    /// Pick the usage percent that triggers a cleanup, capped at 100; the
    /// current value does nothing.
    pub fn set_auto_cleanup_threshold(&mut self, value: u32) -> (r: EditEffects)
        ensures
            ({
                let v = if value > 100 { 100u32 } else { value };
                &&& old(self).settings.auto_cleanup_threshold == v ==> final(self)@ == old(self)@ && r
                    == spec_no_effects()
                &&& old(self).settings.auto_cleanup_threshold != v ==> final(self)@ == (EditorView {
                    settings: old(self)@.settings.with_threshold(v),
                    ..old(self)@
                }) && r == spec_effects(true, false, false, true, false, false)
            }),
            final(self).settings.auto_cleanup_threshold <= 100 || final(self)@ == old(self)@,
            spec_is_normalized(old(self)@.settings) ==> spec_is_normalized(final(self)@.settings),
            old(self).wf() ==> final(self).wf(),
    {
        let v = if value > 100 { 100 } else { value };
        if self.settings.auto_cleanup_threshold == v {
            return no_effects();
        }
        self.settings.auto_cleanup_threshold = v;
        proof {
            if spec_is_normalized(old(self)@.settings) {
                lemma_normalized_list(old(self)@.settings);
            }
        }
        EditEffects { save: true, sync_threshold: true, ..no_effects() }
    }

    /// Turn the cleanup hotkey on or off; turning it off stops the recorder.
    pub fn set_cleanup_hotkey_enabled(&mut self, enabled: bool) -> (r: EditEffects)
        ensures
            final(self)@ == (EditorView {
                settings: (SettingsView { cleanup_hotkey_enabled: enabled, ..old(self)@.settings }),
                hotkey_recording: enabled && old(self).hotkey_recording,
                ..old(self)@
            }),
            r == spec_effects(true, true, false, false, false, false),
            spec_is_normalized(old(self)@.settings) && (!enabled || spec_parse_chord(
                old(self).settings.cleanup_hotkey@,
            ) is Some) ==> spec_is_normalized(final(self)@.settings),
            old(self).wf() ==> final(self).wf(),
    {
        self.settings.cleanup_hotkey_enabled = enabled;
        if !enabled {
            self.hotkey_recording = false;
        }
        EditEffects { save: true, sync_hotkey: true, ..no_effects() }
    }

    /// Start waiting for a chord; only while the hotkey is enabled.
    pub fn start_cleanup_hotkey_recording(&mut self) -> (r: bool)
        ensures
            r == old(self).settings.cleanup_hotkey_enabled,
            final(self)@ == (EditorView { hotkey_recording: r || old(self).hotkey_recording, ..old(self)@ }),
            old(self).wf() ==> final(self).wf(),
    {
        if !self.settings.cleanup_hotkey_enabled {
            return false;
        }
        self.hotkey_recording = true;
        true
    }

    /// Stop waiting for a chord; `true` when the recorder was running.
    pub fn cancel_cleanup_hotkey_recording(&mut self) -> (r: bool)
        ensures
            r == old(self).hotkey_recording,
            final(self)@ == (EditorView { hotkey_recording: false, ..old(self)@ }),
            final(self).wf(),
    {
        let was = self.hotkey_recording;
        self.hotkey_recording = false;
        was
    }

    /// A key press while the hotkey row has focus: Escape stops the
    /// recorder; a key with modifiers that makes a chord becomes the hotkey.
    pub fn handle_cleanup_hotkey_key(
        &mut self,
        key: &str,
        control: bool,
        alt: bool,
        shift: bool,
        platform: bool,
    ) -> (r: EditEffects)
        ensures
            !old(self).hotkey_recording ==> final(self)@ == old(self)@ && r == spec_no_effects(),
            old(self).hotkey_recording && spec_ascii_lower(key@) == "escape"@ ==> final(self)@ == (EditorView {
                hotkey_recording: false,
                ..old(self)@
            }) && r == spec_no_effects(),
            old(self).hotkey_recording && spec_ascii_lower(key@) != "escape"@ ==> match spec_format_chord(
                control,
                alt,
                shift,
                platform,
                key@,
            ) {
                None => final(self)@ == old(self)@ && r == spec_no_effects(),
                Some(chord) => final(self)@ == (EditorView {
                    settings: old(self)@.settings.with_hotkey(chord),
                    hotkey_recording: false,
                    ..old(self)@
                }) && r == spec_effects(true, true, false, false, false, false),
            },
            spec_is_normalized(old(self)@.settings) ==> spec_is_normalized(final(self)@.settings),
            old(self).wf() ==> final(self).wf(),
    {
        match record_hotkey_key(self.hotkey_recording, key, control, alt, shift, platform) {
            HotkeyKeyOutcome::NotRecording => no_effects(),
            HotkeyKeyOutcome::Ignored => no_effects(),
            HotkeyKeyOutcome::Cancelled => {
                self.hotkey_recording = false;
                no_effects()
            },
            HotkeyKeyOutcome::Recorded(chord) => {
                self.settings.cleanup_hotkey = chord;
                self.hotkey_recording = false;
                EditEffects { save: true, sync_hotkey: true, ..no_effects() }
            },
        }
    }

    /// Turn debug logging on or off.
    pub fn set_debug_logging(&mut self, enabled: bool) -> (r: EditEffects)
        ensures
            final(self)@ == (EditorView {
                settings: (SettingsView { debug_logging: enabled, ..old(self)@.settings }),
                ..old(self)@
            }),
            r == spec_effects(true, false, false, false, false, true),
            spec_is_normalized(old(self)@.settings) ==> spec_is_normalized(final(self)@.settings),
            old(self).wf() ==> final(self).wf(),
    {
        self.settings.debug_logging = enabled;
        EditEffects { save: true, apply_debug_logging: true, ..no_effects() }
    }

    /// Record launch at logon once the logon task was updated
    /// (`task_updated`); when that failed the setting stays.
    pub fn set_run_at_startup(&mut self, enabled: bool, task_updated: bool) -> (r: EditEffects)
        ensures
            !task_updated ==> final(self)@ == old(self)@ && r == spec_no_effects(),
            task_updated ==> final(self)@ == (EditorView {
                settings: (SettingsView { run_at_startup: enabled, ..old(self)@.settings }),
                ..old(self)@
            }) && r == spec_save_only(),
            spec_is_normalized(old(self)@.settings) ==> spec_is_normalized(final(self)@.settings),
            old(self).wf() ==> final(self).wf(),
    {
        if !task_updated {
            return no_effects();
        }
        self.settings.run_at_startup = enabled;
        save_only()
    }

    /// Record keeping the window on top once the window took the change
    /// (`window_updated`); when that failed the setting stays.
    pub fn set_always_on_top(&mut self, enabled: bool, window_updated: bool) -> (r: EditEffects)
        ensures
            !window_updated ==> final(self)@ == old(self)@ && r == spec_no_effects(),
            window_updated ==> final(self)@ == (EditorView {
                settings: (SettingsView { always_on_top: enabled, ..old(self)@.settings }),
                ..old(self)@
            }) && r == spec_save_only(),
            spec_is_normalized(old(self)@.settings) ==> spec_is_normalized(final(self)@.settings),
            old(self).wf() ==> final(self).wf(),
    {
        if !window_updated {
            return no_effects();
        }
        self.settings.always_on_top = enabled;
        save_only()
    }
}

} // verus!
