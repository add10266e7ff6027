//! Global cleanup hotkey: the settings chord syntax (`Ctrl+Alt+C`), its
//! translation to `RegisterHotKey` flags, and the recorder's chord builder.

use vstd::prelude::*;
use crate::text::{
    ascii_upper_char, char_is_whitespace, find_char_in, lemma_find_char_bounds,
    lemma_find_char_unique, lower_equals,
    spec_ascii_lower, spec_ascii_lower_char, spec_ascii_upper_char, spec_find_char, spec_is_whitespace, spec_trim,
    trim_range,
};

verus! {

/// `MOD_ALT` of `RegisterHotKey`.
pub const MOD_ALT: u32 = 0x0001;
/// `MOD_CONTROL` of `RegisterHotKey`.
pub const MOD_CONTROL: u32 = 0x0002;
/// `MOD_SHIFT` of `RegisterHotKey`.
pub const MOD_SHIFT: u32 = 0x0004;
/// `MOD_WIN` of `RegisterHotKey`.
pub const MOD_WIN: u32 = 0x0008;
/// `MOD_NOREPEAT` of `RegisterHotKey`.
pub const MOD_NOREPEAT: u32 = 0x4000;

/// Parsed global hotkey chord for `RegisterHotKey`.
#[derive(Debug, Clone, Copy, PartialEq, Eq, Structural)]
pub struct HotkeyBinding {
    /// `HOT_KEY_MODIFIERS` bits.
    pub modifiers: u32,
    /// `VIRTUAL_KEY` code.
    pub virtual_key: u16,
}

/// The pieces of `s` between occurrences of `c`, as `str::split(c)` yields them.
pub open spec fn spec_split_char(s: Seq<char>, c: char) -> Seq<Seq<char>>
    decreases s.len(),
{
    let k = spec_find_char(s, c);
    if k < s.len() {
        proof {
            lemma_find_char_bounds(s, c);
        }
        seq![s.take(k)] + spec_split_char(s.skip(k + 1), c)
    } else {
        seq![s]
    }
}

/// The trimmed pieces that are not empty, in order.
pub open spec fn spec_trimmed_nonempty(pieces: Seq<Seq<char>>) -> Seq<Seq<char>>
    decreases pieces.len(),
{
    if pieces.len() == 0 {
        Seq::empty()
    } else if spec_trim(pieces.last()).len() > 0 {
        spec_trimmed_nonempty(pieces.drop_last()).push(spec_trim(pieces.last()))
    } else {
        spec_trimmed_nonempty(pieces.drop_last())
    }
}

/// The non-empty, trimmed `+`-separated parts of a chord.
pub open spec fn spec_chord_parts(chord: Seq<char>) -> Seq<Seq<char>> {
    spec_trimmed_nonempty(spec_split_char(spec_trim(chord), '+'))
}

pub open spec fn spec_modifier_flag(part: Seq<char>) -> Option<u32> {
    let l = spec_ascii_lower(part);
    if l == seq!['c', 't', 'r', 'l'] || l == seq!['c', 'o', 'n', 't', 'r', 'o', 'l'] {
        Some(MOD_CONTROL)
    } else if l == seq!['a', 'l', 't'] {
        Some(MOD_ALT)
    } else if l == seq!['s', 'h', 'i', 'f', 't'] {
        Some(MOD_SHIFT)
    } else if l == seq!['w', 'i', 'n'] || l == seq!['w', 'i', 'n', 'd', 'o', 'w', 's'] {
        Some(MOD_WIN)
    } else {
        None
    }
}

/// The union of the modifier flags named by `mods`, or `None` if one is unknown.
pub open spec fn spec_modifier_flags(mods: Seq<Seq<char>>) -> Option<u32>
    decreases mods.len(),
{
    if mods.len() == 0 {
        Some(0)
    } else {
        match spec_modifier_flags(mods.drop_last()) {
            None => None,
            Some(f) => match spec_modifier_flag(mods.last()) {
                None => None,
                Some(g) => Some(f | g),
            },
        }
    }
}

pub open spec fn spec_is_ascii_alpha(c: char) -> bool {
    ('a' <= c && c <= 'z') || ('A' <= c && c <= 'Z')
}

pub open spec fn spec_is_digit(c: char) -> bool {
    '0' <= c && c <= '9'
}

/// The virtual-key code of a one-character key: the upper-case letter or the digit.
pub open spec fn spec_virtual_key(key: Seq<char>) -> Option<u16> {
    let k = spec_trim(key);
    if k.len() == 1 && spec_is_ascii_alpha(k[0]) {
        Some(spec_ascii_upper_char(k[0]) as u16)
    } else if k.len() == 1 && spec_is_digit(k[0]) {
        Some(k[0] as u16)
    } else {
        None
    }
}

/// A chord is modifiers then one key, all `+`-separated; at least one modifier,
/// all of them known, and a letter or digit key.
pub open spec fn spec_parse_chord(chord: Seq<char>) -> Option<HotkeyBinding> {
    let parts = spec_chord_parts(chord);
    if parts.len() < 2 {
        None
    } else {
        match (spec_modifier_flags(parts.drop_last()), spec_virtual_key(parts.last())) {
            (Some(f), Some(vk)) => if f != 0 {
                Some(HotkeyBinding { modifiers: f | MOD_NOREPEAT, virtual_key: vk })
            } else {
                None
            },
            _ => None,
        }
    }
}

/// Bounds of the non-empty trimmed `+`-separated parts of `s`.
fn chord_part_ranges(s: &[char]) -> (r: Vec<(usize, usize)>)
    ensures
        r@.len() == spec_chord_parts(s@).len(),
        forall|i: int|
            0 <= i < r@.len() ==> {
                &&& (#[trigger] r@[i]).0 <= r@[i].1 <= s@.len()
                &&& s@.subrange(r@[i].0 as int, r@[i].1 as int) == spec_chord_parts(s@)[i]
            },
{
    let (a, b) = trim_range(s, 0, s.len());
    assert(s@.subrange(0, s@.len() as int) =~= s@);
    let ghost t = s@.subrange(a as int, b as int);
    let mut ranges: Vec<(usize, usize)> = Vec::new();
    let ghost mut done: Seq<Seq<char>> = Seq::empty();
    let mut pos = a;
    loop
        invariant_except_break
            spec_split_char(t, '+') == done + spec_split_char(s@.subrange(pos as int, b as int), '+'),
        invariant
            a <= pos <= b <= s@.len(),
            t == s@.subrange(a as int, b as int),
            t == spec_trim(s@),
            ranges@.len() == spec_trimmed_nonempty(done).len(),
            forall|i: int|
                0 <= i < ranges@.len() ==> {
                    &&& (#[trigger] ranges@[i]).0 <= ranges@[i].1 <= s@.len()
                    &&& s@.subrange(ranges@[i].0 as int, ranges@[i].1 as int)
                        == spec_trimmed_nonempty(done)[i]
                },
        ensures
            ranges@.len() == spec_trimmed_nonempty(spec_split_char(t, '+')).len(),
            forall|i: int|
                0 <= i < ranges@.len() ==> {
                    &&& (#[trigger] ranges@[i]).0 <= ranges@[i].1 <= s@.len()
                    &&& s@.subrange(ranges@[i].0 as int, ranges@[i].1 as int)
                        == spec_trimmed_nonempty(spec_split_char(t, '+'))[i]
                },
        decreases b - pos,
    {
        let k = find_char_in(s, pos, b, '+');
        let ghost rest = s@.subrange(pos as int, b as int);
        let ghost piece = s@.subrange(pos as int, k as int);
        proof {
            lemma_find_char_bounds(rest, '+');
            assert(rest.take(k - pos) =~= piece);
        }
        let (pa, pb) = trim_range(s, pos, k);
        let ghost old_done = done;
        proof {
            done = done.push(piece);
            assert(done.drop_last() =~= old_done);
        }
        if pa < pb {
            ranges.push((pa, pb));
        }
        proof {
            assert(spec_trimmed_nonempty(done) == if spec_trim(piece).len() > 0 {
                spec_trimmed_nonempty(old_done).push(spec_trim(piece))
            } else {
                spec_trimmed_nonempty(old_done)
            });
        }
        if k == b {
            proof {
                assert(spec_split_char(rest, '+') == seq![rest]);
                assert(piece =~= rest);
                assert(old_done + seq![rest] =~= done);
                assert(spec_split_char(t, '+') == done);
            }
            break;
        }
        proof {
            assert(rest.skip(k - pos + 1) =~= s@.subrange(k + 1, b as int));
            assert(old_done + spec_split_char(rest, '+') =~= done + spec_split_char(
                s@.subrange(k + 1, b as int),
                '+',
            ));
        }
        pos = k + 1;
    }
    ranges
}


fn modifier_flag_in(s: &[char], a: usize, b: usize) -> (r: Option<u32>)
    requires
        a <= b <= s.len(),
    ensures
        r == spec_modifier_flag(s@.subrange(a as int, b as int)),
{
    if lower_equals(s, a, b, &['c', 't', 'r', 'l']) || lower_equals(s, a, b, &['c', 'o', 'n', 't', 'r', 'o', 'l']) {
        Some(MOD_CONTROL)
    } else if lower_equals(s, a, b, &['a', 'l', 't']) {
        Some(MOD_ALT)
    } else if lower_equals(s, a, b, &['s', 'h', 'i', 'f', 't']) {
        Some(MOD_SHIFT)
    } else if lower_equals(s, a, b, &['w', 'i', 'n']) || lower_equals(s, a, b, &['w', 'i', 'n', 'd', 'o', 'w', 's']) {
        Some(MOD_WIN)
    } else {
        None
    }
}

fn virtual_key_in(s: &[char], a: usize, b: usize) -> (r: Option<u16>)
    requires
        a <= b <= s.len(),
    ensures
        r == spec_virtual_key(s@.subrange(a as int, b as int)),
{
    let (ka, kb) = trim_range(s, a, b);
    if kb - ka == 1 {
        let c = s[ka];
        assert(spec_trim(s@.subrange(a as int, b as int))[0] == c);
        if ('a' <= c && c <= 'z') || ('A' <= c && c <= 'Z') {
            let u = ascii_upper_char(c);
            return Some(u as u32 as u16);
        } else if '0' <= c && c <= '9' {
            return Some(c as u32 as u16);
        }
    }
    None
}

/// Parse a settings chord from its characters.
pub fn parse_chord_chars(s: &[char]) -> (r: Option<HotkeyBinding>)
    ensures
        r == spec_parse_chord(s@),
{
    let parts = chord_part_ranges(s);
    let ghost sp = spec_chord_parts(s@);
    let n = parts.len();
    if n < 2 {
        return None;
    }
    let mut flags: u32 = 0;
    let mut i: usize = 0;
    while i < n - 1
        invariant
            2 <= n == parts@.len() == sp.len(),
            sp == spec_chord_parts(s@),
            i <= n - 1,
            forall|j: int|
                0 <= j < parts@.len() ==> {
                    &&& (#[trigger] parts@[j]).0 <= parts@[j].1 <= s@.len()
                    &&& s@.subrange(parts@[j].0 as int, parts@[j].1 as int) == sp[j]
                },
            spec_modifier_flags(sp.take(i as int)) == Some(flags),
        decreases n - 1 - i,
    {
        let (a, b) = parts[i];
        assert(sp.take(i + 1).drop_last() =~= sp.take(i as int));
        assert(sp.take(i + 1).last() == sp[i as int]);
        match modifier_flag_in(s, a, b) {
            None => {
                proof {
                    lemma_modifier_flags_prefix_none(sp.drop_last(), i + 1);
                    assert(sp.drop_last().take(i + 1) =~= sp.take(i + 1));
                }
                return None;
            },
            Some(g) => {
                flags = flags | g;
            },
        }
        i += 1;
    }
    assert(sp.take(n - 1) =~= sp.drop_last());
    let (ka, kb) = parts[n - 1];
    let vk = virtual_key_in(s, ka, kb);
    match vk {
        Some(v) => {
            if flags != 0 {
                Some(HotkeyBinding { modifiers: flags | MOD_NOREPEAT, virtual_key: v })
            } else {
                None
            }
        },
        None => None,
    }
}

/// Once a prefix names an unknown modifier, the whole list does.
proof fn lemma_modifier_flags_prefix_none(mods: Seq<Seq<char>>, k: int)
    requires
        0 <= k <= mods.len(),
        spec_modifier_flags(mods.take(k)) is None,
    ensures
        spec_modifier_flags(mods) is None,
    decreases mods.len() - k,
{
    if k < mods.len() {
        assert(mods.take(k + 1).drop_last() =~= mods.take(k));
        lemma_modifier_flags_prefix_none(mods, k + 1);
    } else {
        assert(mods.take(k) =~= mods);
    }
}

/// The default cleanup chord.
pub const DEFAULT_CLEANUP_HOTKEY: &'static str = "Ctrl+Alt+C";

impl HotkeyBinding {
    /// Parse a settings chord such as `Ctrl+Alt+C`.
    pub fn parse(chord: &str) -> (r: Option<Self>)
        ensures
            r == spec_parse_chord(chord@),
    {
        let s = crate::text::str_chars(chord);
        parse_chord_chars(&s)
    }
}


/// Key names the recorder treats as modifiers on their own.
pub open spec fn spec_is_modifier_key(key: Seq<char>) -> bool {
    let l = spec_ascii_lower(spec_trim(key));
    ||| l == seq!['s', 'h', 'i', 'f', 't']
    ||| l == seq!['a', 'l', 't']
    ||| l == seq!['c', 'o', 'n', 't', 'r', 'o', 'l']
    ||| l == seq!['c', 't', 'r', 'l']
    ||| l == seq!['w', 'i', 'n']
    ||| l == seq!['w', 'i', 'n', 'd', 'o', 'w', 's']
    ||| l == seq!['s', 'u', 'p', 'e', 'r']
    ||| l == seq!['c', 'm', 'd']
    ||| l == seq!['m', 'e', 't', 'a']
    ||| l == seq!['f', 'n']
    ||| l == seq!['c', 'a', 'p', 's', 'l', 'o', 'c', 'k']
    ||| l == seq!['c', 'a', 'p', 's', ' ', 'l', 'o', 'c', 'k']
}

/// The key part of a recorded chord: an upper-cased letter or a digit.
pub open spec fn spec_key_token(key: Seq<char>) -> Option<char> {
    let k = spec_trim(key);
    if k.len() == 1 && spec_is_ascii_alpha(k[0]) {
        Some(spec_ascii_upper_char(k[0]))
    } else if k.len() == 1 && spec_is_digit(k[0]) {
        Some(k[0])
    } else {
        None
    }
}

pub open spec fn spec_ctrl_word() -> Seq<char> {
    seq!['C', 't', 'r', 'l']
}

pub open spec fn spec_alt_word() -> Seq<char> {
    seq!['A', 'l', 't']
}

pub open spec fn spec_shift_word() -> Seq<char> {
    seq!['S', 'h', 'i', 'f', 't']
}

pub open spec fn spec_win_word() -> Seq<char> {
    seq!['W', 'i', 'n']
}

/// The modifier names the recorder writes, in chord order.
pub open spec fn spec_chord_names(control: bool, alt: bool, shift: bool, win: bool) -> Seq<Seq<char>> {
    let n1 = if control { seq![spec_ctrl_word()] } else { Seq::<Seq<char>>::empty() };
    let n2 = if alt { n1.push(spec_alt_word()) } else { n1 };
    let n3 = if shift { n2.push(spec_shift_word()) } else { n2 };
    if win { n3.push(spec_win_word()) } else { n3 }
}

/// Each name followed by `+`.
pub open spec fn spec_join_plus(names: Seq<Seq<char>>) -> Seq<char>
    decreases names.len(),
{
    if names.len() == 0 {
        Seq::empty()
    } else {
        spec_join_plus(names.drop_last()) + names.last() + seq!['+']
    }
}

/// The chord text `Ctrl+Alt+Shift+Win+K` with the chosen modifiers.
pub open spec fn spec_chord_text(control: bool, alt: bool, shift: bool, win: bool, key: char) -> Seq<
    char,
> {
    spec_join_plus(spec_chord_names(control, alt, shift, win)) + seq![key]
}

/// The chord the recorder stores for a key press, when it is a valid chord.
pub open spec fn spec_format_chord(control: bool, alt: bool, shift: bool, win: bool, key: Seq<char>) -> Option<Seq<char>> {
    if spec_is_modifier_key(key) {
        None
    } else {
        match spec_key_token(key) {
            None => None,
            Some(k) => if !control && !alt && !shift && !win {
                None
            } else if spec_parse_chord(spec_chord_text(control, alt, shift, win, k)) is Some {
                Some(spec_chord_text(control, alt, shift, win, k))
            } else {
                None
            },
        }
    }
}

fn key_token_in(s: &[char], a: usize, b: usize) -> (r: Option<char>)
    requires
        a <= b <= s.len(),
    ensures
        r == spec_key_token(s@.subrange(a as int, b as int)),
{
    let (ka, kb) = trim_range(s, a, b);
    if kb - ka == 1 {
        let c = s[ka];
        assert(spec_trim(s@.subrange(a as int, b as int))[0] == c);
        if ('a' <= c && c <= 'z') || ('A' <= c && c <= 'Z') {
            return Some(ascii_upper_char(c));
        } else if '0' <= c && c <= '9' {
            return Some(c);
        }
    }
    None
}

/// Whether the recorder treats `key` as a modifier on its own.
pub fn is_modifier_key(key: &str) -> (r: bool)
    ensures
        r == spec_is_modifier_key(key@),
{
    let s = crate::text::str_chars(key);
    let (a, b) = trim_range(&s, 0, s.len());
    assert(s@.subrange(0, s@.len() as int) =~= key@);
    lower_equals(&s, a, b, &['s', 'h', 'i', 'f', 't']) || lower_equals(&s, a, b, &['a', 'l', 't'])
        || lower_equals(&s, a, b, &['c', 'o', 'n', 't', 'r', 'o', 'l']) || lower_equals(
        &s,
        a,
        b,
        &['c', 't', 'r', 'l'],
    ) || lower_equals(&s, a, b, &['w', 'i', 'n']) || lower_equals(
        &s,
        a,
        b,
        &['w', 'i', 'n', 'd', 'o', 'w', 's'],
    ) || lower_equals(&s, a, b, &['s', 'u', 'p', 'e', 'r']) || lower_equals(&s, a, b, &['c', 'm', 'd'])
        || lower_equals(&s, a, b, &['m', 'e', 't', 'a']) || lower_equals(&s, a, b, &['f', 'n'])
        || lower_equals(&s, a, b, &['c', 'a', 'p', 's', 'l', 'o', 'c', 'k']) || lower_equals(
        &s,
        a,
        b,
        &['c', 'a', 'p', 's', ' ', 'l', 'o', 'c', 'k'],
    )
}

/// The recorded key token: an upper-cased letter or a digit, as a string.
pub fn normalize_key_token(key: &str) -> (r: Option<String>)
    ensures
        match r {
            Some(t) => spec_key_token(key@) matches Some(k) && t@ == seq![k],
            None => spec_key_token(key@) is None,
        },
{
    let s = crate::text::str_chars(key);
    assert(s@.subrange(0, s@.len() as int) =~= key@);
    match key_token_in(&s, 0, s.len()) {
        Some(k) => {
            let v = vec![k];
            Some(crate::text::string_from_chars(&v))
        },
        None => None,
    }
}

fn push_word(v: &mut Vec<char>, w: &[char])
    ensures
        final(v)@ == old(v)@ + w@,
{
    let mut i: usize = 0;
    while i < w.len()
        invariant
            i <= w.len(),
            v@ == old(v)@ + w@.subrange(0, i as int),
        decreases w.len() - i,
    {
        v.push(w[i]);
        assert(w@.subrange(0, i + 1) == w@.subrange(0, i as int).push(w@[i as int]));
        i += 1;
    }
    assert(w@.subrange(0, w.len() as int) == w@);
}

impl HotkeyBinding {
    /// Build a settings chord such as `Ctrl+Alt+C` from modifier flags and a key
    /// token; `None` for a lone modifier, an unsupported key or no modifier.
    #[verifier::spinoff_prover]
    #[verifier::rlimit(40)]
    pub fn format_chord(control: bool, alt: bool, shift: bool, win: bool, key: &str) -> (r: Option<
        String,
    >)
        ensures
            match r {
                Some(chord) => spec_format_chord(control, alt, shift, win, key@) == Some(chord@),
                None => spec_format_chord(control, alt, shift, win, key@) is None,
            },
    {
        if is_modifier_key(key) {
            return None;
        }
        let s = crate::text::str_chars(key);
        assert(s@.subrange(0, s@.len() as int) =~= key@);
        let k = match key_token_in(&s, 0, s.len()) {
            Some(k) => k,
            None => return None,
        };
        if !control && !alt && !shift && !win {
            return None;
        }
        let mut chord: Vec<char> = Vec::new();
        let ghost mut names: Seq<Seq<char>> = Seq::empty();
        assert(spec_join_plus(names) =~= chord@);
        if control {
            push_word(&mut chord, &['C', 't', 'r', 'l', '+']);
            proof {
                names = names.push(spec_ctrl_word());
                assert(names.drop_last() =~= Seq::<Seq<char>>::empty());
                assert(spec_join_plus(Seq::<Seq<char>>::empty()) == Seq::<char>::empty());
                assert(spec_join_plus(names) =~= chord@);
            }
        }
        if alt {
            let ghost before = chord@;
            push_word(&mut chord, &['A', 'l', 't', '+']);
            proof {
                let old_names = names;
                assert(spec_join_plus(old_names) == before);
                names = names.push(spec_alt_word());
                assert(names.drop_last() == old_names);
                assert(spec_join_plus(names) =~= chord@);
            }
        }
        if shift {
            let ghost before = chord@;
            push_word(&mut chord, &['S', 'h', 'i', 'f', 't', '+']);
            proof {
                let old_names = names;
                assert(spec_join_plus(old_names) == before);
                names = names.push(spec_shift_word());
                assert(names.drop_last() == old_names);
                assert(spec_join_plus(names) =~= chord@);
            }
        }
        if win {
            let ghost before = chord@;
            push_word(&mut chord, &['W', 'i', 'n', '+']);
            proof {
                let old_names = names;
                assert(spec_join_plus(old_names) == before);
                names = names.push(spec_win_word());
                assert(names.drop_last() == old_names);
                assert(spec_join_plus(names) =~= chord@);
            }
        }
        assert(names =~= spec_chord_names(control, alt, shift, win));
        chord.push(k);
        assert(chord@ =~= spec_chord_text(control, alt, shift, win, k));
        if parse_chord_chars(&chord).is_some() {
            Some(crate::text::string_from_chars(&chord))
        } else {
            None
        }
    }
}

pub open spec fn spec_modifier_token(part: Seq<char>) -> Option<Seq<char>> {
    match spec_modifier_flag(part) {
        Some(f) => if f == MOD_CONTROL {
            Some(seq!['c', 't', 'r', 'l'])
        } else if f == MOD_ALT {
            Some(seq!['a', 'l', 't'])
        } else if f == MOD_SHIFT {
            Some(seq!['s', 'h', 'i', 'f', 't'])
        } else {
            Some(seq!['w', 'i', 'n'])
        },
        None => None,
    }
}

/// The modifier tokens of `mods`, each followed by `-`, or `None` if one is unknown.
pub open spec fn spec_modifier_tokens(mods: Seq<Seq<char>>) -> Option<Seq<char>>
    decreases mods.len(),
{
    if mods.len() == 0 {
        Some(Seq::empty())
    } else {
        match (spec_modifier_tokens(mods.drop_last()), spec_modifier_token(mods.last())) {
            (Some(t), Some(m)) => Some(t + m + seq!['-']),
            _ => None,
        }
    }
}

/// The `ctrl-alt-c` keystroke text of a chord: known modifiers, then a key that
/// is one ASCII character once lowered.
pub open spec fn spec_chord_keystroke(chord: Seq<char>) -> Option<Seq<char>> {
    let parts = spec_chord_parts(chord);
    if parts.len() < 2 {
        None
    } else {
        let key = spec_ascii_lower(spec_trim(parts.last()));
        match spec_modifier_tokens(parts.drop_last()) {
            Some(t) => if key.len() == 1 && (key[0] as u32) < 0x80 {
                Some(t + key)
            } else {
                None
            },
            None => None,
        }
    }
}

impl HotkeyBinding {
    /// The GPUI keystroke text (`alt-shift-c`) of a settings chord, for display.
    pub fn chord_to_keystroke(chord: &str) -> (r: Option<String>)
        ensures
            match r {
                Some(k) => spec_chord_keystroke(chord@) == Some(k@),
                None => spec_chord_keystroke(chord@) is None,
            },
    {
        let s = crate::text::str_chars(chord);
        let parts = chord_part_ranges(&s);
        let ghost sp = spec_chord_parts(s@);
        let n = parts.len();
        if n < 2 {
            return None;
        }
        let mut out: Vec<char> = Vec::new();
        let mut i: usize = 0;
        while i < n - 1
            invariant
                2 <= n == parts@.len() == sp.len(),
                sp == spec_chord_parts(s@),
                s@ == chord@,
                i <= n - 1,
                forall|j: int|
                    0 <= j < parts@.len() ==> {
                        &&& (#[trigger] parts@[j]).0 <= parts@[j].1 <= s@.len()
                        &&& s@.subrange(parts@[j].0 as int, parts@[j].1 as int) == sp[j]
                    },
                spec_modifier_tokens(sp.take(i as int)) == Some(out@),
            decreases n - 1 - i,
        {
            let (a, b) = parts[i];
            assert(sp.take(i + 1).drop_last() =~= sp.take(i as int));
            assert(sp.take(i + 1).last() == sp[i as int]);
            match modifier_flag_in(&s, a, b) {
                None => {
                    proof {
                        assert(spec_modifier_token(sp[i as int]) is None);
                        assert(spec_modifier_tokens(sp.take(i + 1)) is None);
                        assert(sp.drop_last().take(i + 1) =~= sp.take(i + 1));
                        lemma_modifier_tokens_prefix_none(sp.drop_last(), i + 1);
                    }
                    return None;
                },
                Some(f) => {
                    if f == MOD_CONTROL {
                        push_word(&mut out, &['c', 't', 'r', 'l', '-']);
                    } else if f == MOD_ALT {
                        push_word(&mut out, &['a', 'l', 't', '-']);
                    } else if f == MOD_SHIFT {
                        push_word(&mut out, &['s', 'h', 'i', 'f', 't', '-']);
                    } else {
                        push_word(&mut out, &['w', 'i', 'n', '-']);
                    }
                    assert(spec_modifier_tokens(sp.take(i + 1)) == Some(out@));
                },
            }
            i += 1;
        }
        assert(sp.take(n - 1) =~= sp.drop_last());
        let (ka, kb) = parts[n - 1];
        let (ta, tb) = trim_range(&s, ka, kb);
        if tb - ta != 1 {
            return None;
        }
        let c = crate::text::ascii_lower_char(s[ta]);
        if (c as u32) >= 0x80 {
            return None;
        }
        assert(spec_ascii_lower(spec_trim(sp.last())) =~= seq![c]);
        out.push(c);
        Some(crate::text::string_from_chars(&out))
    }
}

proof fn lemma_modifier_tokens_prefix_none(mods: Seq<Seq<char>>, k: int)
    requires
        0 <= k <= mods.len(),
        spec_modifier_tokens(mods.take(k)) is None,
    ensures
        spec_modifier_tokens(mods) is None,
    decreases mods.len() - k,
{
    if k < mods.len() {
        assert(mods.take(k + 1).drop_last() =~= mods.take(k));
        lemma_modifier_tokens_prefix_none(mods, k + 1);
    } else {
        assert(mods.take(k) =~= mods);
    }
}


/// The `RegisterHotKey` modifier bits of the chosen modifiers, in chord order.
pub open spec fn spec_recorded_modifiers(control: bool, alt: bool, shift: bool, win: bool) -> u32 {
    let m1 = if control { 0u32 | MOD_CONTROL } else { 0u32 };
    let m2 = if alt { m1 | MOD_ALT } else { m1 };
    let m3 = if shift { m2 | MOD_SHIFT } else { m2 };
    if win { m3 | MOD_WIN } else { m3 }
}

proof fn lemma_join_front(names: Seq<Seq<char>>)
    requires
        names.len() > 0,
    ensures
        spec_join_plus(names) == names[0] + seq!['+'] + spec_join_plus(names.drop_first()),
    decreases names.len(),
{
    if names.len() == 1 {
        assert(names.drop_last() =~= Seq::<Seq<char>>::empty());
        assert(names.drop_first() =~= Seq::<Seq<char>>::empty());
        assert(spec_join_plus(Seq::<Seq<char>>::empty()) == Seq::<char>::empty());
        assert(spec_join_plus(names) =~= names[0] + seq!['+'] + spec_join_plus(names.drop_first()));
    } else {
        lemma_join_front(names.drop_last());
        assert(names.drop_last().drop_first() =~= names.drop_first().drop_last());
        assert(names.drop_first().last() == names.last());
        assert(names.drop_last()[0] == names[0]);
        assert(spec_join_plus(names) =~= names[0] + seq!['+'] + spec_join_plus(names.drop_first()));
    }
}

proof fn lemma_split_join(names: Seq<Seq<char>>, k: char)
    requires
        k != '+',
        forall|i: int, j: int| 0 <= i < names.len() && 0 <= j < names[i].len() ==> names[i][j] != '+',
    ensures
        spec_split_char(spec_join_plus(names) + seq![k], '+') == names.push(seq![k]),
    decreases names.len(),
{
    if names.len() == 0 {
        let t = spec_join_plus(names) + seq![k];
        assert(t =~= seq![k]);
        lemma_find_char_unique(t, '+', 1);
        assert(spec_split_char(t, '+') == seq![t]);
        assert(names.push(seq![k]) =~= seq![t]);
    } else {
        lemma_join_front(names);
        let rest = names.drop_first();
        lemma_split_join(rest, k);
        let w = names[0];
        let tail = spec_join_plus(rest) + seq![k];
        let t = spec_join_plus(names) + seq![k];
        assert(t =~= w + seq!['+'] + tail);
        assert forall|j: int| 0 <= j < w.len() implies t[j] != '+' by {
            assert(t[j] == w[j]);
        }
        lemma_find_char_unique(t, '+', w.len() as int);
        assert(t.take(w.len() as int) =~= w);
        assert(t.skip(w.len() as int + 1) =~= tail);
        assert(names.push(seq![k]) =~= seq![w] + rest.push(seq![k]));
    }
}

proof fn lemma_trim_fixed(s: Seq<char>)
    requires
        s.len() > 0,
        !spec_is_whitespace(s[0]),
        !spec_is_whitespace(s.last()),
    ensures
        spec_trim(s) == s,
{
}

proof fn lemma_trimmed_nonempty_identity(p: Seq<Seq<char>>)
    requires
        forall|i: int| 0 <= i < p.len() ==> #[trigger] p[i].len() > 0 && spec_trim(p[i]) == p[i],
    ensures
        spec_trimmed_nonempty(p) == p,
    decreases p.len(),
{
    if p.len() > 0 {
        lemma_trimmed_nonempty_identity(p.drop_last());
        assert(p.drop_last().push(p.last()) =~= p);
    }
}

/// A key press the recorder accepts is stored as a chord that parses back to the
/// modifiers that were held and the key that was pressed.
pub proof fn lemma_recorded_chord_parses(control: bool, alt: bool, shift: bool, win: bool, key: Seq<char>)
    requires
        !spec_is_modifier_key(key),
        spec_key_token(key) is Some,
        control || alt || shift || win,
    ensures
        spec_format_chord(control, alt, shift, win, key) == Some(
            spec_chord_text(control, alt, shift, win, spec_key_token(key)->0),
        ),
        spec_parse_chord(spec_chord_text(control, alt, shift, win, spec_key_token(key)->0)) == Some(
            HotkeyBinding {
                modifiers: spec_recorded_modifiers(control, alt, shift, win) | MOD_NOREPEAT,
                virtual_key: spec_key_token(key)->0 as u16,
            },
        ),
{
    let k = spec_key_token(key)->0;
    let names = spec_chord_names(control, alt, shift, win);
    let chord = spec_chord_text(control, alt, shift, win, k);
    assert(k != '+' && !spec_is_whitespace(k));
    assert forall|i: int, j: int| 0 <= i < names.len() && 0 <= j < names[i].len() implies names[i][j]
        != '+' by {}
    assert(names.len() > 0);
    lemma_join_front(names);
    assert(chord[0] == names[0][0]);
    assert(chord.last() == k);
    lemma_trim_fixed(chord);
    lemma_split_join(names, k);
    let pieces = names.push(seq![k]);
    assert forall|i: int| 0 <= i < pieces.len() implies #[trigger] pieces[i].len() > 0 && spec_trim(
        pieces[i],
    ) == pieces[i] by {
        if i < names.len() {
            assert(pieces[i] == names[i]);
            lemma_trim_fixed(names[i]);
        } else {
            lemma_trim_fixed(seq![k]);
        }
    }
    lemma_trimmed_nonempty_identity(pieces);
    let parts = spec_chord_parts(chord);
    assert(parts == pieces);
    assert(parts.drop_last() =~= names);
    assert(spec_ascii_lower(spec_ctrl_word()) =~= seq!['c', 't', 'r', 'l']);
    assert(spec_ascii_lower(spec_alt_word()) =~= seq!['a', 'l', 't']);
    assert(spec_ascii_lower(spec_shift_word()) =~= seq!['s', 'h', 'i', 'f', 't']);
    assert(spec_ascii_lower(spec_win_word()) =~= seq!['w', 'i', 'n']);
    let n1 = if control { seq![spec_ctrl_word()] } else { Seq::<Seq<char>>::empty() };
    let n2 = if alt { n1.push(spec_alt_word()) } else { n1 };
    let n3 = if shift { n2.push(spec_shift_word()) } else { n2 };
    let m1 = if control { 0u32 | MOD_CONTROL } else { 0u32 };
    let m2 = if alt { m1 | MOD_ALT } else { m1 };
    let m3 = if shift { m2 | MOD_SHIFT } else { m2 };
    assert(spec_modifier_flags(Seq::<Seq<char>>::empty()) == Some(0u32));
    assert(spec_modifier_flag(spec_ctrl_word()) == Some(MOD_CONTROL));
    assert(spec_modifier_flag(spec_alt_word()) == Some(MOD_ALT));
    assert(spec_modifier_flag(spec_shift_word()) == Some(MOD_SHIFT));
    assert(spec_modifier_flag(spec_win_word()) == Some(MOD_WIN));
    if control {
        assert(n1.drop_last() =~= Seq::<Seq<char>>::empty());
        assert(n1.last() == spec_ctrl_word());
    }
    assert(spec_modifier_flags(n1) == Some(m1));
    if alt {
        assert(n2.drop_last() =~= n1);
    }
    assert(spec_modifier_flags(n2) == Some(m2));
    if shift {
        assert(n3.drop_last() =~= n2);
    }
    assert(spec_modifier_flags(n3) == Some(m3));
    if win {
        assert(names.drop_last() =~= n3);
    }
    let m = spec_recorded_modifiers(control, alt, shift, win);
    assert(spec_modifier_flags(names) == Some(m));
    assert(m != 0) by (bit_vector)
        requires
            m == (if win { m3 | 8u32 } else { m3 }),
            m3 == (if shift { m2 | 4u32 } else { m2 }),
            m2 == (if alt { m1 | 1u32 } else { m1 }),
            m1 == (if control { 0u32 | 2u32 } else { 0u32 }),
            control || alt || shift || win,
    ;
    assert(parts.last() == seq![k]);
    lemma_trim_fixed(seq![k]);
    assert(spec_virtual_key(seq![k]) == Some(k as u16));
}

} // verus!

verus! {

/// What keeping the global hotkey in line with the settings requires.
#[derive(Debug, Clone, Copy, PartialEq, Eq, Structural)]
pub enum HotkeySyncAction {
    /// The hotkey is disabled: release any registration.
    Unregister,
    /// The registered chord already matches the settings.
    Keep,
    /// Register this chord; the current registration stays until it succeeds.
    Register(HotkeyBinding),
}

/// Why the hotkey could not be brought in line with the settings. The current
/// registration, if any, stays.
#[derive(Debug, Clone, Copy, PartialEq, Eq, Structural)]
pub enum HotkeySyncError {
    /// The hotkey is enabled but no command channel was bound to deliver presses.
    ChannelUnavailable,
    /// The configured chord does not parse.
    InvalidChord,
    /// The system refused to register the chord (another program holds it).
    RegistrationFailed,
}

/// The hotkey is in use: enabled, with a chord that is not blank. An empty
/// chord disables registration like the switch does.
pub open spec fn spec_hotkey_wanted(hotkey_enabled: bool, chord: Seq<char>) -> bool {
    hotkey_enabled && spec_trim(chord).len() > 0
}

/// What `sync` decides.
pub open spec fn spec_sync_decision(
    hotkey_enabled: bool,
    chord: Seq<char>,
    channel_bound: bool,
    current: Option<HotkeyBinding>,
) -> Result<HotkeySyncAction, HotkeySyncError> {
    if !spec_hotkey_wanted(hotkey_enabled, chord) {
        Ok(HotkeySyncAction::Unregister)
    } else if !channel_bound {
        Err(HotkeySyncError::ChannelUnavailable)
    } else {
        match spec_parse_chord(chord) {
            None => Err(HotkeySyncError::InvalidChord),
            Some(b) => if current == Some(b) {
                Ok(HotkeySyncAction::Keep)
            } else {
                Ok(HotkeySyncAction::Register(b))
            },
        }
    }
}

/// Decide how to bring the registered hotkey (`current`) in line with the
/// settings' chord, given whether a command channel is bound. A disabled
/// hotkey, or an empty chord, releases any registration.
pub fn sync(
    hotkey_enabled: bool,
    chord: &str,
    channel_bound: bool,
    current: Option<HotkeyBinding>,
) -> (r: Result<HotkeySyncAction, HotkeySyncError>)
    ensures
        r == spec_sync_decision(hotkey_enabled, chord@, channel_bound, current),
{
    let chars = crate::text::str_chars(chord);
    let (a, b) = trim_range(&chars, 0, chars.len());
    assert(chars@.subrange(0, chars@.len() as int) =~= chord@);
    if !hotkey_enabled || a == b {
        return Ok(HotkeySyncAction::Unregister);
    }
    if !channel_bound {
        return Err(HotkeySyncError::ChannelUnavailable);
    }
    match HotkeyBinding::parse(chord) {
        None => Err(HotkeySyncError::InvalidChord),
        Some(b) => {
            let same = match current {
                Some(c) => c.modifiers == b.modifiers && c.virtual_key == b.virtual_key,
                None => false,
            };
            if same {
                Ok(HotkeySyncAction::Keep)
            } else {
                Ok(HotkeySyncAction::Register(b))
            }
        },
    }
}

/// The binding registered after carrying out a sync decision, given whether
/// registering a new chord succeeded: a failed registration keeps the old one.
pub open spec fn spec_binding_after_sync(
    current: Option<HotkeyBinding>,
    decision: Result<HotkeySyncAction, HotkeySyncError>,
    register_ok: bool,
) -> Option<HotkeyBinding> {
    match decision {
        Err(_) => current,
        Ok(HotkeySyncAction::Unregister) => None,
        Ok(HotkeySyncAction::Keep) => current,
        Ok(HotkeySyncAction::Register(b)) => if register_ok {
            Some(b)
        } else {
            current
        },
    }
}

/// How a sync ended: an error of the decision, a refused registration, or `Ok`.
pub open spec fn spec_sync_outcome(
    decision: Result<HotkeySyncAction, HotkeySyncError>,
    register_ok: bool,
) -> Result<(), HotkeySyncError> {
    match decision {
        Err(e) => Err(e),
        Ok(HotkeySyncAction::Register(_)) => if register_ok {
            Ok(())
        } else {
            Err(HotkeySyncError::RegistrationFailed)
        },
        Ok(_) => Ok(()),
    }
}

/// After carrying out `decision` on `current`, where `register_ok` says
/// whether registering a new chord succeeded: the binding now registered,
/// and whether the sync succeeded.
pub fn binding_after_sync(
    current: Option<HotkeyBinding>,
    decision: Result<HotkeySyncAction, HotkeySyncError>,
    register_ok: bool,
) -> (r: (Option<HotkeyBinding>, Result<(), HotkeySyncError>))
    ensures
        r.0 == spec_binding_after_sync(current, decision, register_ok),
        r.1 == spec_sync_outcome(decision, register_ok),
{
    match decision {
        Err(e) => (current, Err(e)),
        Ok(HotkeySyncAction::Unregister) => (None, Ok(())),
        Ok(HotkeySyncAction::Keep) => (current, Ok(())),
        Ok(HotkeySyncAction::Register(b)) => if register_ok {
            (Some(b), Ok(()))
        } else {
            (current, Err(HotkeySyncError::RegistrationFailed))
        },
    }
}

/// A chord that does not parse, or a registration that fails, leaves the
/// current registration in place and the sync fails; an equivalent chord is
/// a no-op that succeeds.
pub proof fn lemma_sync_preserves_registration(
    chord: Seq<char>,
    current: Option<HotkeyBinding>,
    register_ok: bool,
)
    requires
        spec_trim(chord).len() > 0,
        spec_parse_chord(chord) is None || spec_parse_chord(chord) == current || !register_ok,
    ensures
        ({
            let decision = spec_sync_decision(true, chord, true, current);
            &&& spec_binding_after_sync(current, decision, register_ok) == current
            &&& (spec_sync_outcome(decision, register_ok) is Ok) == (spec_parse_chord(chord) is Some
                && spec_parse_chord(chord) == current)
        }),
{
}

/// An enabled hotkey with an empty chord releases the registration, and the
/// sync succeeds.
pub proof fn lemma_empty_chord_unregisters(chord: Seq<char>, channel_bound: bool, current: Option<HotkeyBinding>)
    requires
        spec_trim(chord).len() == 0,
    ensures
        spec_sync_decision(true, chord, channel_bound, current) == Ok::<HotkeySyncAction, HotkeySyncError>(
            HotkeySyncAction::Unregister,
        ),
        spec_binding_after_sync(current, spec_sync_decision(true, chord, channel_bound, current), true)
            is None,
        spec_sync_outcome(spec_sync_decision(true, chord, channel_bound, current), true) is Ok,
{
}

} // verus!

verus! {

/// The keystroke word for a single modifier bit.
pub open spec fn spec_modifier_word(flag: u32) -> Seq<char> {
    if flag == MOD_CONTROL {
        seq!['c', 't', 'r', 'l']
    } else if flag == MOD_ALT {
        seq!['a', 'l', 't']
    } else if flag == MOD_SHIFT {
        seq!['s', 'h', 'i', 'f', 't']
    } else {
        seq!['w', 'i', 'n']
    }
}

/// The keystroke words of the modifier parts `mods`, in order.
pub open spec fn spec_modifier_words(mods: Seq<Seq<char>>) -> Seq<Seq<char>> {
    Seq::new(mods.len(), |i: int| spec_modifier_word(spec_modifier_flag(mods[i])->0))
}

/// The words, each followed by `-`.
pub open spec fn spec_dash_join(words: Seq<Seq<char>>) -> Seq<char>
    decreases words.len(),
{
    if words.len() == 0 {
        Seq::empty()
    } else {
        spec_dash_join(words.drop_last()) + words.last() + seq!['-']
    }
}

pub open spec fn spec_is_single_modifier(f: u32) -> bool {
    f == MOD_CONTROL || f == MOD_ALT || f == MOD_SHIFT || f == MOD_WIN
}

proof fn lemma_flags_each_known(mods: Seq<Seq<char>>)
    requires
        spec_modifier_flags(mods) is Some,
    ensures
        forall|i: int|
            0 <= i < mods.len() ==> (#[trigger] spec_modifier_flag(mods[i])) is Some
                && spec_is_single_modifier(spec_modifier_flag(mods[i])->0),
    decreases mods.len(),
{
    if mods.len() > 0 {
        lemma_flags_each_known(mods.drop_last());
        assert forall|i: int| 0 <= i < mods.len() implies (#[trigger] spec_modifier_flag(mods[i])) is Some
            && spec_is_single_modifier(spec_modifier_flag(mods[i])->0) by {
            if i < mods.len() - 1 {
                assert(mods[i] == mods.drop_last()[i]);
            }
        }
    }
}

proof fn lemma_or_bit(f: u32, g: u32, x: u32)
    requires
        g == 1 || g == 2 || g == 4 || g == 8,
        x == 1 || x == 2 || x == 4 || x == 8,
    ensures
        ((f | g) & x != 0) == (f & x != 0 || g == x),
{
    assert(((f | g) & x != 0) == (f & x != 0 || g == x)) by (bit_vector)
        requires
            g == 1 || g == 2 || g == 4 || g == 8,
            x == 1 || x == 2 || x == 4 || x == 8,
    ;
}

/// A modifier bit is in the union of the parts' flags exactly when one part names it.
proof fn lemma_flags_bit(mods: Seq<Seq<char>>, x: u32)
    requires
        spec_modifier_flags(mods) is Some,
        x == 1 || x == 2 || x == 4 || x == 8,
    ensures
        (spec_modifier_flags(mods)->0 & x != 0) <==> exists|i: int|
            0 <= i < mods.len() && #[trigger] spec_modifier_flag(mods[i]) == Some(x),
    decreases mods.len(),
{
    if mods.len() == 0 {
        assert(0u32 & x == 0) by (bit_vector);
    } else {
        let d = mods.drop_last();
        lemma_flags_bit(d, x);
        lemma_flags_each_known(mods);
        let g = spec_modifier_flag(mods.last())->0;
        assert(spec_modifier_flag(mods[mods.len() - 1]) is Some);
        lemma_or_bit(spec_modifier_flags(d)->0, g, x);
        if exists|i: int| 0 <= i < mods.len() && #[trigger] spec_modifier_flag(mods[i]) == Some(x) {
            let i = choose|i: int| 0 <= i < mods.len() && #[trigger] spec_modifier_flag(mods[i]) == Some(x);
            if i < mods.len() - 1 {
                assert(d[i] == mods[i]);
            }
        }
        if exists|i: int| 0 <= i < d.len() && #[trigger] spec_modifier_flag(d[i]) == Some(x) {
            let i = choose|i: int| 0 <= i < d.len() && #[trigger] spec_modifier_flag(d[i]) == Some(x);
            assert(mods[i] == d[i]);
            assert(spec_modifier_flag(mods[i]) == Some(x));
        }
        if g == x {
            assert(spec_modifier_flag(mods[mods.len() - 1]) == Some(x));
        }
    }
}

proof fn lemma_tokens_are_words(mods: Seq<Seq<char>>)
    requires
        spec_modifier_flags(mods) is Some,
    ensures
        spec_modifier_tokens(mods) == Some(spec_dash_join(spec_modifier_words(mods))),
    decreases mods.len(),
{
    if mods.len() > 0 {
        let d = mods.drop_last();
        lemma_tokens_are_words(d);
        lemma_flags_each_known(mods);
        assert(spec_modifier_flag(mods[mods.len() - 1]) is Some);
        let w = spec_modifier_words(mods);
        assert(w.drop_last() =~= spec_modifier_words(d));
        assert(w.last() == spec_modifier_word(spec_modifier_flag(mods.last())->0));
    }
}

proof fn lemma_dash_join_front(words: Seq<Seq<char>>)
    requires
        words.len() > 0,
    ensures
        spec_dash_join(words) == words[0] + seq!['-'] + spec_dash_join(words.drop_first()),
    decreases words.len(),
{
    if words.len() == 1 {
        assert(words.drop_last().len() == 0);
        assert(words.drop_first().len() == 0);
        assert(spec_dash_join(words.drop_first()) =~= Seq::<char>::empty());
        assert(spec_dash_join(words.drop_last()) =~= Seq::<char>::empty());
        assert(spec_dash_join(words) =~= words[0] + seq!['-'] + spec_dash_join(words.drop_first()));
    } else {
        let d = words.drop_last();
        lemma_dash_join_front(d);
        assert(d.drop_first() =~= words.drop_first().drop_last());
        assert(words.drop_first().last() == words.last());
        assert(d[0] == words[0]);
        assert(spec_dash_join(words) =~= words[0] + seq!['-'] + spec_dash_join(words.drop_first()));
    }
}

/// Splitting dash-joined words and a key at `-` gives the words and the key
/// back, when none of them holds a `-`.
proof fn lemma_split_dash_join(words: Seq<Seq<char>>, key: Seq<char>)
    requires
        forall|i: int, j: int| 0 <= i < words.len() && 0 <= j < words[i].len() ==> #[trigger] words[i][j] != '-',
        forall|j: int| 0 <= j < key.len() ==> key[j] != '-',
    ensures
        spec_split_char(spec_dash_join(words) + key, '-') == words.push(key),
    decreases words.len(),
{
    if words.len() == 0 {
        assert(spec_dash_join(words) + key =~= key);
        lemma_find_char_unique(key, '-', key.len() as int);
        assert(spec_split_char(key, '-') =~= seq![key]);
        assert(words.push(key) =~= seq![key]);
    } else {
        let w0 = words[0];
        let rest = words.drop_first();
        lemma_dash_join_front(words);
        assert forall|i: int, j: int| 0 <= i < rest.len() && 0 <= j < rest[i].len() implies #[trigger] rest[i][j]
            != '-' by {
            assert(rest[i] == words[i + 1]);
        }
        lemma_split_dash_join(rest, key);
        let s = spec_dash_join(words) + key;
        let tail = spec_dash_join(rest) + key;
        assert(s =~= w0 + seq!['-'] + tail);
        assert forall|j: int| 0 <= j < w0.len() implies s[j] != '-' by {
            assert(s[j] == words[0][j]);
        }
        assert(s[w0.len() as int] == '-');
        lemma_find_char_unique(s, '-', w0.len() as int);
        assert(s.take(w0.len() as int) =~= w0);
        assert(s.skip(w0.len() as int + 1) =~= tail);
        assert(spec_split_char(s, '-') =~= seq![w0] + rest.push(key));
        assert(seq![w0] + rest.push(key) =~= words.push(key));
    }
}

/// The keystroke shown for a chord names exactly the modifiers that chord
/// registers, and its key is the registered key: split at `-`, every word but
/// the last is `ctrl`, `alt`, `shift` or `win`; each of these occurs exactly
/// when its modifier bit is registered; the last word is the key, lowered.
pub proof fn lemma_keystroke_names_registered_modifiers(chord: Seq<char>)
    requires
        spec_parse_chord(chord) is Some,
        spec_chord_keystroke(chord) is Some,
    ensures
        ({
            let b = spec_parse_chord(chord)->0;
            let words = spec_split_char(spec_chord_keystroke(chord)->0, '-');
            let n = words.len() - 1;
            &&& words.len() >= 2
            &&& forall|i: int|
                0 <= i < n ==> #[trigger] words[i] == seq!['c', 't', 'r', 'l'] || words[i] == seq!['a', 'l', 't']
                    || words[i] == seq!['s', 'h', 'i', 'f', 't'] || words[i] == seq!['w', 'i', 'n']
            &&& (exists|i: int| 0 <= i < n && #[trigger] words[i] == seq!['c', 't', 'r', 'l']) <==> b.modifiers
                & MOD_CONTROL != 0
            &&& (exists|i: int| 0 <= i < n && #[trigger] words[i] == seq!['a', 'l', 't']) <==> b.modifiers
                & MOD_ALT != 0
            &&& (exists|i: int| 0 <= i < n && #[trigger] words[i] == seq!['s', 'h', 'i', 'f', 't'])
                <==> b.modifiers & MOD_SHIFT != 0
            &&& (exists|i: int| 0 <= i < n && #[trigger] words[i] == seq!['w', 'i', 'n']) <==> b.modifiers
                & MOD_WIN != 0
            &&& words[n].len() == 1
            &&& spec_ascii_upper_char(words[n][0]) as u16 == b.virtual_key
        }),
{
    let parts = spec_chord_parts(chord);
    let mods = parts.drop_last();
    let last = parts.last();
    let f = spec_modifier_flags(mods)->0;
    let b = spec_parse_chord(chord)->0;
    assert(b.modifiers == f | MOD_NOREPEAT);
    let key = spec_ascii_lower(spec_trim(last));
    let c = spec_trim(last)[0];
    assert(spec_trim(last).len() == 1);
    assert(key.len() == 1 && key[0] == spec_ascii_lower_char(c));
    lemma_tokens_are_words(mods);
    lemma_flags_each_known(mods);
    let ws = spec_modifier_words(mods);
    assert(spec_chord_keystroke(chord)->0 == spec_dash_join(ws) + key);
    assert forall|i: int, j: int| 0 <= i < ws.len() && 0 <= j < ws[i].len() implies #[trigger] ws[i][j] != '-' by {
        assert(spec_modifier_flag(mods[i]) is Some);
    }
    lemma_split_dash_join(ws, key);
    let words = ws.push(key);
    assert(words.len() == mods.len() + 1);
    assert(parts.len() >= 2);
    assert forall|i: int| 0 <= i < mods.len() implies #[trigger] words[i] == seq!['c', 't', 'r', 'l'] || words[i]
        == seq!['a', 'l', 't'] || words[i] == seq!['s', 'h', 'i', 'f', 't'] || words[i] == seq!['w', 'i', 'n'] by {
        assert(words[i] == ws[i]);
        assert(spec_modifier_flag(mods[i]) is Some);
    }
    assert forall|x: u32|
        #![trigger spec_modifier_word(x)]
        (x == 1 || x == 2 || x == 4 || x == 8) implies ((exists|i: int|
            0 <= i < mods.len() && #[trigger] words[i] == spec_modifier_word(x)) <==> (b.modifiers & x != 0)) by {
        let w = spec_modifier_word(x);
        lemma_flags_bit(mods, x);
        assert(((f | MOD_NOREPEAT) & x != 0) == (f & x != 0)) by (bit_vector)
            requires
                x == 1 || x == 2 || x == 4 || x == 8,
                MOD_NOREPEAT == 0x4000u32,
        ;
        if exists|i: int| 0 <= i < mods.len() && #[trigger] words[i] == w {
            let i = choose|i: int| 0 <= i < mods.len() && #[trigger] words[i] == w;
            assert(words[i] == ws[i]);
            assert(spec_modifier_flag(mods[i]) is Some);
            let g = spec_modifier_flag(mods[i])->0;
            assert(spec_modifier_word(g) == spec_modifier_word(x));
            if g != x {
                assert(spec_modifier_word(g)[0] != spec_modifier_word(x)[0] || spec_modifier_word(g).len()
                    != spec_modifier_word(x).len());
            }
            assert(spec_modifier_flag(mods[i]) == Some(x));
        }
        if f & x != 0 {
            let i = choose|i: int| 0 <= i < mods.len() && #[trigger] spec_modifier_flag(mods[i]) == Some(x);
            assert(words[i] == ws[i]);
        }
    }
    assert(spec_modifier_word(MOD_CONTROL) == seq!['c', 't', 'r', 'l']);
    assert(spec_modifier_word(MOD_ALT) == seq!['a', 'l', 't']);
    assert(spec_modifier_word(MOD_SHIFT) == seq!['s', 'h', 'i', 'f', 't']);
    assert(spec_modifier_word(MOD_WIN) == seq!['w', 'i', 'n']);
    assert(words[mods.len() as int] == key);
    assert(spec_ascii_upper_char(spec_ascii_lower_char(c)) == spec_ascii_upper_char(c));
}

} // verus!
