use memory_cleaner::hotkey::{
    binding_after_sync, is_modifier_key, normalize_key_token, sync, HotkeyBinding, HotkeySyncAction, HotkeySyncError,
    DEFAULT_CLEANUP_HOTKEY, MOD_ALT, MOD_CONTROL, MOD_NOREPEAT, MOD_SHIFT, MOD_WIN,
};

#[test]
fn chord_to_keystroke_parses_settings_chords() {
    let keystroke = HotkeyBinding::chord_to_keystroke("Alt+Shift+C").expect("valid keystroke");
    let parts: Vec<&str> = keystroke.split('-').collect();
    assert!(parts.contains(&"alt"));
    assert!(parts.contains(&"shift"));
    assert_eq!(*parts.last().unwrap(), "c");

    assert!(HotkeyBinding::chord_to_keystroke("Ctrl+5").is_some());
    assert!(HotkeyBinding::chord_to_keystroke("invalid").is_none());
}

#[test]
fn format_chord_builds_register_hotkey_compatible_chords() {
    let chord = HotkeyBinding::format_chord(false, true, true, false, "c").expect("valid chord");
    assert_eq!(chord, "Alt+Shift+C");
    assert!(HotkeyBinding::parse(&chord).is_some());
}

#[test]
fn format_chord_rejects_modifier_only_and_unmodified_keys() {
    assert!(HotkeyBinding::format_chord(false, true, false, false, "shift").is_none());
    assert!(HotkeyBinding::format_chord(false, false, false, false, "c").is_none());
}

#[test]
fn parse_default_cleanup_hotkey() {
    let binding = HotkeyBinding::parse("Ctrl+Alt+C").expect("valid chord");
    assert_eq!(binding.modifiers, MOD_CONTROL | MOD_ALT | MOD_NOREPEAT);
    assert_eq!(binding.virtual_key, b'C' as u16);
}

#[test]
fn parse_rejects_empty_and_modifier_only_chords() {
    assert!(HotkeyBinding::parse("").is_none());
    assert!(HotkeyBinding::parse("Ctrl+Shift").is_none());
    assert!(HotkeyBinding::parse("M").is_none());
}

#[test]
fn parse_supports_alt_and_win_modifiers() {
    let binding = HotkeyBinding::parse("Ctrl+Alt+O").expect("valid chord");
    assert_eq!(binding.modifiers, MOD_CONTROL | MOD_ALT | MOD_NOREPEAT);
    assert_eq!(binding.virtual_key, b'O' as u16);

    let binding = HotkeyBinding::parse("Win+Shift+C").expect("valid chord");
    assert_eq!(binding.modifiers, MOD_WIN | MOD_SHIFT | MOD_NOREPEAT);
    assert_eq!(binding.virtual_key, b'C' as u16);
}

#[test]
fn parse_is_lenient_about_case_spacing_and_digits() {
    let binding = HotkeyBinding::parse("  shift + ALT + control + 7 ").expect("valid chord");
    assert_eq!(binding.modifiers, MOD_CONTROL | MOD_ALT | MOD_SHIFT | MOD_NOREPEAT);
    assert_eq!(binding.virtual_key, b'7' as u16);
    assert!(HotkeyBinding::parse("Ctrl+Meta+C").is_none());
    assert!(HotkeyBinding::parse("Ctrl+F1").is_none());
}

#[test]
fn default_chord_parses() {
    assert!(HotkeyBinding::parse(DEFAULT_CLEANUP_HOTKEY).is_some());
}

#[test]
fn recorder_helpers() {
    assert!(is_modifier_key("Control"));
    assert!(!is_modifier_key("c"));
    assert_eq!(normalize_key_token("q"), Some("Q".to_string()));
    assert_eq!(normalize_key_token("F5"), None);
}

#[test]
fn sync_keeps_registration_on_invalid_or_equivalent_chords() {
    let current = HotkeyBinding::parse("Ctrl+Alt+C");
    assert_eq!(sync(true, "shift + ALT + control + X", true, current).map(|_| ()), Ok(()));
    assert_eq!(sync(true, "Alt + control + c", true, current), Ok(HotkeySyncAction::Keep));
    assert_eq!(sync(true, "invalid", true, current), Err(HotkeySyncError::InvalidChord));
    assert_eq!(sync(false, "invalid", true, current), Ok(HotkeySyncAction::Unregister));
    assert_eq!(sync(true, "Ctrl+Alt+C", false, None), Err(HotkeySyncError::ChannelUnavailable));
    assert_eq!(sync(true, "", true, current), Ok(HotkeySyncAction::Unregister));
    assert_eq!(sync(true, "   ", false, current), Ok(HotkeySyncAction::Unregister));
    assert_eq!(
        sync(true, "Ctrl+Alt+D", true, current),
        Ok(HotkeySyncAction::Register(HotkeyBinding::parse("Ctrl+Alt+D").unwrap()))
    );
}

/// The system's hotkey table, as far as these tests need it: which chords are
/// taken, and which one is ours.
struct HotkeyTable {
    taken: Vec<HotkeyBinding>,
    ours: Option<HotkeyBinding>,
}

impl HotkeyTable {
    /// Carry out the library's decision for `enabled` and `chord` as the
    /// hotkey service does; `Err` when the chord is not in effect afterwards.
    fn apply(&mut self, enabled: bool, chord: &str) -> Result<(), ()> {
        let decision = sync(enabled, chord, true, self.ours);
        let mut register_ok = false;
        match decision {
            Ok(HotkeySyncAction::Register(binding)) => {
                if !self.taken.contains(&binding) {
                    self.taken.push(binding);
                    register_ok = true;
                    if let Some(old) = self.ours {
                        self.taken.retain(|b| *b != old);
                    }
                }
            }
            Ok(HotkeySyncAction::Unregister) => {
                if let Some(old) = self.ours {
                    self.taken.retain(|b| *b != old);
                }
            }
            _ => {}
        }
        let (ours, outcome) = binding_after_sync(self.ours, decision, register_ok);
        self.ours = ours;
        outcome.map_err(|_| ())
    }
}

#[test]
fn rebinding_preserves_old_registration_on_collision_and_skips_equivalent_chords() {
    let candidates: Vec<String> = ('0'..='9').chain('A'..='Z').map(|key| format!("Ctrl+Alt+Shift+{key}")).collect();
    let mut table = HotkeyTable { taken: Vec::new(), ours: None };
    let original = candidates
        .iter()
        .find(|chord| table.apply(true, chord).is_ok())
        .expect("an uncommon hotkey must be available for the test")
        .clone();
    let original_binding = HotkeyBinding::parse(&original).unwrap();

    // Another program holds the conflicting chord for the entire test.
    let conflicting = candidates
        .iter()
        .find(|chord| {
            let binding = HotkeyBinding::parse(chord).unwrap();
            if table.taken.contains(&binding) {
                false
            } else {
                table.taken.push(binding);
                true
            }
        })
        .expect("a second uncommon hotkey must be available for the test")
        .clone();

    assert!(table.apply(true, &conflicting).is_err());
    assert!(table.taken.contains(&original_binding), "the original chord must remain registered after a collision");
    assert_eq!(table.ours, Some(original_binding));

    let equivalent = format!(
        "shift + ALT + control + {}",
        original.rsplit('+').next().unwrap().to_ascii_lowercase()
    );
    table.apply(true, &equivalent).expect("an equivalent binding must be a no-op");
    assert_eq!(table.ours, Some(original_binding));

    assert!(table.apply(true, "invalid").is_err());
    assert!(table.taken.contains(&original_binding), "invalid settings must not unregister the original chord");

    table.apply(false, "invalid").expect("disabling must succeed");
    assert!(!table.taken.contains(&original_binding), "disabling must release the original chord");
    assert_eq!(table.ours, None);
}

#[test]
fn empty_chord_releases_the_hotkey() {
    let mut table = HotkeyTable { taken: Vec::new(), ours: None };
    table.apply(true, "Ctrl+Alt+Shift+Q").expect("register");
    let binding = HotkeyBinding::parse("Ctrl+Alt+Shift+Q").unwrap();
    assert!(table.taken.contains(&binding));
    table.apply(true, "").expect("an empty chord disables registration");
    assert_eq!(table.ours, None);
    assert!(!table.taken.contains(&binding));
}

#[test]
fn failed_registration_is_reported() {
    let current = HotkeyBinding::parse("Ctrl+Alt+C");
    let wanted = HotkeyBinding::parse("Ctrl+Alt+D").unwrap();
    let decision = Ok(HotkeySyncAction::Register(wanted));
    assert_eq!(binding_after_sync(current, decision, false), (current, Err(HotkeySyncError::RegistrationFailed)));
    assert_eq!(binding_after_sync(current, decision, true), (Some(wanted), Ok(())));
    assert_eq!(binding_after_sync(current, Ok(HotkeySyncAction::Unregister), false), (None, Ok(())));
    assert_eq!(
        binding_after_sync(current, Err(HotkeySyncError::InvalidChord), false),
        (current, Err(HotkeySyncError::InvalidChord))
    );
}
