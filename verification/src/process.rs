//! Process names: normalisation, exclusion matching, and the picker list built
//! from a process snapshot.

use vstd::prelude::*;
use crate::memory::{MemoryStatus, spec_format_bytes};
use crate::text::{
    char_is_whitespace, ascii_lower_char, chars_eq, lex_lt, spec_ascii_lower_char, spec_is_whitespace,
    spec_lex_lt, str_chars, string_from_chars, lemma_lex_irreflexive, lemma_lex_total,
    lemma_lex_transitive,
};
use crate::utf16::{
    decode_utf16_lossy, encode_utf16, nul_index, spec_decode_utf16, spec_encode_utf16,
    spec_until_nul,
};

verus! {

/// Running process entry for the exclusion picker dropdown.
#[derive(Clone, Debug, PartialEq, Eq)]
pub struct ProcessPickerEntry {
    pub name: String,
    pub instance_count: u32,
    pub working_set_bytes: u64,
    /// How many instances returned a readable working-set size.
    pub memory_readable_count: u32,
}

/// One process of a system snapshot: its id, its raw `szExeFile` buffer, and
/// the working-set size read for it, where it could be read.
#[derive(Clone, Debug)]
pub struct ProcessSnapshotEntry {
    pub pid: u32,
    pub exe_file: Vec<u16>,
    pub working_set_bytes: Option<u64>,
}

impl ProcessPickerEntry {
    /// The summed working set as a size, or `None` when no instance was readable.
    pub fn memory_display(&self) -> (r: Option<String>)
        ensures
            self.memory_readable_count == 0 ==> r is None,
            self.memory_readable_count != 0 ==> (r matches Some(s) && s@ == spec_format_bytes(
                self.working_set_bytes,
            )),
    {
        if self.memory_readable_count == 0 {
            None
        } else {
            Some(MemoryStatus::format_bytes(self.working_set_bytes))
        }
    }
}

/// What a picker row says under the process name: the memory in use (`None`
/// when unknown), and the number of instances when more than one runs.
#[derive(Clone, Debug, PartialEq, Eq)]
pub struct PickerDetail {
    pub instances: Option<u32>,
    pub memory: Option<String>,
}

/// The detail line of a picker row.
pub fn process_picker_detail(entry: &ProcessPickerEntry) -> (r: PickerDetail)
    ensures
        r.instances == (if entry.instance_count > 1 {
            Some(entry.instance_count)
        } else {
            None
        }),
        entry.memory_readable_count == 0 ==> r.memory is None,
        entry.memory_readable_count != 0 ==> (r.memory matches Some(s) && s@ == spec_format_bytes(
            entry.working_set_bytes,
        )),
{
    let instances = if entry.instance_count > 1 {
        Some(entry.instance_count)
    } else {
        None
    };
    PickerDetail { instances, memory: entry.memory_display() }
}

/// `s` without whitespace and with ASCII letters lowered.
pub open spec fn spec_squash(s: Seq<char>) -> Seq<char>
    decreases s.len(),
{
    if s.len() == 0 {
        seq![]
    } else if spec_is_whitespace(s.last()) {
        spec_squash(s.drop_last())
    } else {
        spec_squash(s.drop_last()).push(spec_ascii_lower_char(s.last()))
    }
}

pub open spec fn spec_ends_with_exe(s: Seq<char>) -> bool {
    s.len() >= 4 && s.subrange(s.len() - 4, s.len() as int) == seq!['.', 'e', 'x', 'e']
}

/// The name used for exclusion matching: no whitespace, ASCII-lowercase, no `.exe`.
pub open spec fn spec_normalize_process_name(s: Seq<char>) -> Seq<char> {
    let t = spec_squash(s);
    if spec_ends_with_exe(t) {
        t.subrange(0, t.len() - 4)
    } else {
        t
    }
}

/// The normalised base name of a snapshot entry.
pub open spec fn spec_entry_base_name(e: ProcessSnapshotEntry) -> Seq<char> {
    spec_normalize_process_name(spec_decode_utf16(spec_until_nul(e.exe_file@)))
}

pub open spec fn spec_in_list(list: Seq<String>, name: Seq<char>) -> bool {
    exists|k: int| 0 <= k < list.len() && #[trigger] list[k]@ == name
}

pub open spec fn spec_is_picker_hidden(name: Seq<char>) -> bool {
    name == "[systemprocess]"@ || name == "systemidleprocess"@
}

/// Whether a normalised name belongs in the picker.
pub open spec fn spec_picker_accepts(self_name: Seq<char>, excluded: Seq<String>, name: Seq<char>) -> bool {
    &&& name.len() > 0
    &&& name != self_name
    &&& !spec_is_picker_hidden(name)
    &&& !spec_in_list(excluded, name)
}

/// One more instance, with its working set where it was readable.
pub open spec fn spec_totals_add(t: (nat, nat, nat), ws: Option<u64>) -> (nat, nat, nat) {
    match ws {
        Some(b) => (t.0 + 1, t.1 + 1, t.2 + b as nat),
        None => (t.0 + 1, t.1, t.2),
    }
}

/// For `name`: how many accepted snapshot entries carry it, how many of those
/// had a readable working set, and the sum of those working sets.
pub open spec fn spec_picker_totals(
    self_name: Seq<char>,
    excluded: Seq<String>,
    snap: Seq<ProcessSnapshotEntry>,
    name: Seq<char>,
) -> (nat, nat, nat)
    decreases snap.len(),
{
    if snap.len() == 0 {
        (0, 0, 0)
    } else {
        let prev = spec_picker_totals(self_name, excluded, snap.drop_last(), name);
        let e = snap.last();
        let n = spec_entry_base_name(e);
        if n == name && spec_picker_accepts(self_name, excluded, n) {
            spec_totals_add(prev, e.working_set_bytes)
        } else {
            prev
        }
    }
}

pub open spec fn spec_saturate(x: nat) -> u64 {
    if x > u64::MAX {
        u64::MAX
    } else {
        x as u64
    }
}

/// `spec_squash(s)`.
fn squash(s: &[char]) -> (r: Vec<char>)
    ensures
        r@ == spec_squash(s@),
{
    let mut out: Vec<char> = Vec::new();
    let mut i: usize = 0;
    while i < s.len()
        invariant
            i <= s.len(),
            out@ == spec_squash(s@.take(i as int)),
        decreases s.len() - i,
    {
        assert(s@.take(i + 1).drop_last() =~= s@.take(i as int));
        assert(s@.take(i + 1).last() == s@[i as int]);
        if !char_is_whitespace(s[i]) {
            out.push(ascii_lower_char(s[i]));
        }
        i += 1;
    }
    assert(s@.take(s.len() as int) =~= s@);
    out
}

/// `spec_normalize_process_name(s)`, as characters.
fn normalize_process_chars(s: &[char]) -> (r: Vec<char>)
    ensures
        r@ == spec_normalize_process_name(s@),
{
    let mut t = squash(s);
    let n = t.len();
    if n >= 4 && t[n - 4] == '.' && t[n - 3] == 'e' && t[n - 2] == 'x' && t[n - 1] == 'e' {
        assert(t@.subrange(n - 4, n as int) =~= seq!['.', 'e', 'x', 'e']);
        t.truncate(n - 4);
        assert(t@ =~= spec_squash(s@).subrange(0, n - 4));
    } else {
        proof {
            if n >= 4 {
                let tail = t@.subrange(n - 4, n as int);
                let exe = seq!['.', 'e', 'x', 'e'];
                assert(tail[0] == t@[n - 4]);
                assert(tail[1] == t@[n - 3]);
                assert(tail[2] == t@[n - 2]);
                assert(tail[3] == t@[n - 1]);
                if tail == exe {
                    assert(exe[0] == '.' && exe[1] == 'e' && exe[2] == 'x' && exe[3] == 'e');
                }
            }
        }
    }
    t
}

/// Normalize a process name for exclusion matching: lowercase, no whitespace, no `.exe`.
pub fn normalize_process_name(name: &str) -> (r: String)
    ensures
        r@ == spec_normalize_process_name(name@),
{
    let chars = str_chars(name);
    let v = normalize_process_chars(&chars);
    string_from_chars(&v)
}

/// Whether `name` equals one of `list`.
fn in_list(list: &[String], name: &[char]) -> (r: bool)
    ensures
        r == spec_in_list(list@, name@),
{
    let mut k: usize = 0;
    while k < list.len()
        invariant
            k <= list.len(),
            forall|j: int| 0 <= j < k ==> list@[j]@ != name@,
        decreases list.len() - k,
    {
        let item = str_chars(list[k].as_str());
        if chars_eq(&item, name) {
            assert(list@[k as int]@ == name@);
            return true;
        }
        k += 1;
    }
    false
}

pub fn is_process_excluded(process_name: &str, excluded: &[String]) -> (r: bool)
    ensures
        r == spec_in_list(excluded@, spec_normalize_process_name(process_name@)),
{
    let chars = str_chars(process_name);
    let normalized = normalize_process_chars(&chars);
    in_list(excluded, &normalized)
}

/// Processes that should not appear in the exclusion picker.
pub fn is_picker_hidden_process(name: &str) -> (r: bool)
    ensures
        r == spec_is_picker_hidden(name@),
{
    let chars = str_chars(name);
    is_picker_hidden_chars(&chars)
}

fn is_picker_hidden_chars(name: &[char]) -> (r: bool)
    ensures
        r == spec_is_picker_hidden(name@),
{
    let a = str_chars("[systemprocess]");
    let b = str_chars("systemidleprocess");
    chars_eq(name, &a) || chars_eq(name, &b)
}

/// The normalised base name of a snapshot entry.
fn entry_base_name(e: &ProcessSnapshotEntry) -> (r: Vec<char>)
    ensures
        r@ == spec_entry_base_name(*e),
{
    let len = nul_index(&e.exe_file);
    let decoded = decode_utf16_lossy(&e.exe_file, 0, len);
    assert(e.exe_file@.subrange(0, len as int) =~= spec_until_nul(e.exe_file@));
    normalize_process_chars(&decoded)
}

/// Whether the units of `exe_file` before its NUL are exactly `target`.
fn exe_name_matches(exe_file: &[u16], target: &[u16]) -> (r: bool)
    ensures
        r == (spec_until_nul(exe_file@) == target@),
{
    let len = nul_index(exe_file);
    if len != target.len() {
        return false;
    }
    let mut i: usize = 0;
    while i < len
        invariant
            i <= len == target.len(),
            len <= exe_file.len(),
            spec_until_nul(exe_file@) == exe_file@.subrange(0, len as int),
            forall|j: int| 0 <= j < i ==> exe_file@[j] == target@[j],
        decreases len - i,
    {
        if exe_file[i] != target[i] {
            assert(spec_until_nul(exe_file@)[i as int] != target@[i as int]);
            return false;
        }
        i += 1;
    }
    assert(spec_until_nul(exe_file@) =~= target@);
    true
}

/// Return true if another process with the same executable name is running.
pub fn has_sibling_process(current_pid: u32, exe_name: &str, snapshot: &[ProcessSnapshotEntry]) -> (r: bool)
    ensures
        r == exists|i: int|
            0 <= i < snapshot.len() && #[trigger] snapshot@[i].pid != current_pid
                && spec_until_nul(snapshot@[i].exe_file@) == spec_encode_utf16(exe_name@),
{
    let target = encode_utf16(exe_name);
    let mut i: usize = 0;
    while i < snapshot.len()
        invariant
            i <= snapshot.len(),
            target@ == spec_encode_utf16(exe_name@),
            forall|j: int|
                0 <= j < i ==> !(#[trigger] snapshot@[j].pid != current_pid && spec_until_nul(
                    snapshot@[j].exe_file@,
                ) == target@),
        decreases snapshot.len() - i,
    {
        if snapshot[i].pid != current_pid && exe_name_matches(&snapshot[i].exe_file, &target) {
            return true;
        }
        i += 1;
    }
    false
}

/// Return true if any process with the given executable name is running.
pub fn is_process_running(exe_name: &str, snapshot: &[ProcessSnapshotEntry]) -> (r: bool)
    ensures
        r == exists|i: int|
            0 <= i < snapshot.len() && spec_until_nul(#[trigger] snapshot@[i].exe_file@)
                == spec_encode_utf16(exe_name@),
{
    let target = encode_utf16(exe_name);
    let mut i: usize = 0;
    while i < snapshot.len()
        invariant
            i <= snapshot.len(),
            target@ == spec_encode_utf16(exe_name@),
            forall|j: int|
                0 <= j < i ==> spec_until_nul(#[trigger] snapshot@[j].exe_file@) != target@,
        decreases snapshot.len() - i,
    {
        if exe_name_matches(&snapshot[i].exe_file, &target) {
            return true;
        }
        i += 1;
    }
    false
}

/// The ids of the processes whose executable name is exactly `exe_name`, in snapshot order.
pub fn matching_process_ids(exe_name: &str, snapshot: &[ProcessSnapshotEntry]) -> (r: Vec<u32>)
    ensures
        r@ == snapshot@.filter(
            |e: ProcessSnapshotEntry| spec_until_nul(e.exe_file@) == spec_encode_utf16(exe_name@),
        ).map_values(|e: ProcessSnapshotEntry| e.pid),
{
    let target = encode_utf16(exe_name);
    let ghost pred = |e: ProcessSnapshotEntry| spec_until_nul(e.exe_file@) == spec_encode_utf16(
        exe_name@,
    );
    let mut out: Vec<u32> = Vec::new();
    let mut i: usize = 0;
    while i < snapshot.len()
        invariant
            i <= snapshot.len(),
            target@ == spec_encode_utf16(exe_name@),
            pred == (|e: ProcessSnapshotEntry| spec_until_nul(e.exe_file@) == spec_encode_utf16(
                exe_name@,
            )),
            out@ == snapshot@.take(i as int).filter(pred).map_values(|e: ProcessSnapshotEntry| e.pid),
        decreases snapshot.len() - i,
    {
        assert(snapshot@.take(i + 1).drop_last() =~= snapshot@.take(i as int));
        reveal(Seq::filter);
        if exe_name_matches(&snapshot[i].exe_file, &target) {
            out.push(snapshot[i].pid);
        }
        assert(out@ =~= snapshot@.take(i + 1).filter(pred).map_values(
            |e: ProcessSnapshotEntry| e.pid,
        ));
        i += 1;
    }
    assert(snapshot@.take(snapshot.len() as int) =~= snapshot@);
    out
}

/// The ids of the processes whose working set is to be emptied: every process
/// whose base name is not in `excluded`, in snapshot order.
pub fn working_set_targets(excluded: &[String], snapshot: &[ProcessSnapshotEntry]) -> (r: Vec<u32>)
    ensures
        r@ == snapshot@.filter(
            |e: ProcessSnapshotEntry| !spec_in_list(excluded@, spec_entry_base_name(e)),
        ).map_values(|e: ProcessSnapshotEntry| e.pid),
{
    let ghost pred = |e: ProcessSnapshotEntry| !spec_in_list(excluded@, spec_entry_base_name(e));
    let mut out: Vec<u32> = Vec::new();
    let mut i: usize = 0;
    while i < snapshot.len()
        invariant
            i <= snapshot.len(),
            pred == (|e: ProcessSnapshotEntry| !spec_in_list(excluded@, spec_entry_base_name(e))),
            out@ == snapshot@.take(i as int).filter(pred).map_values(|e: ProcessSnapshotEntry| e.pid),
        decreases snapshot.len() - i,
    {
        assert(snapshot@.take(i + 1).drop_last() =~= snapshot@.take(i as int));
        reveal(Seq::filter);
        let name = entry_base_name(&snapshot[i]);
        if !in_list(excluded, &name) {
            out.push(snapshot[i].pid);
        }
        assert(out@ =~= snapshot@.take(i + 1).filter(pred).map_values(
            |e: ProcessSnapshotEntry| e.pid,
        ));
        i += 1;
    }
    assert(snapshot@.take(snapshot.len() as int) =~= snapshot@);
    out
}

proof fn lemma_totals_bounded(
    self_name: Seq<char>,
    excluded: Seq<String>,
    snap: Seq<ProcessSnapshotEntry>,
    name: Seq<char>,
)
    ensures
        ({
            let t = spec_picker_totals(self_name, excluded, snap, name);
            &&& t.1 <= t.0 <= snap.len()
            &&& t.0 == 0 ==> t.2 == 0
        }),
    decreases snap.len(),
{
    if snap.len() > 0 {
        lemma_totals_bounded(self_name, excluded, snap.drop_last(), name);
    }
}

proof fn lemma_totals_witness(
    self_name: Seq<char>,
    excluded: Seq<String>,
    snap: Seq<ProcessSnapshotEntry>,
    name: Seq<char>,
)
    requires
        spec_picker_totals(self_name, excluded, snap, name).0 > 0,
    ensures
        spec_picker_accepts(self_name, excluded, name),
        exists|k: int| 0 <= k < snap.len() && spec_entry_base_name(#[trigger] snap[k]) == name,
    decreases snap.len(),
{
    let n = spec_entry_base_name(snap.last());
    if n == name && spec_picker_accepts(self_name, excluded, n) {
        assert(spec_entry_base_name(snap[snap.len() - 1]) == name);
    } else {
        lemma_totals_witness(self_name, excluded, snap.drop_last(), name);
        let k = choose|k: int| 0 <= k < snap.drop_last().len() && spec_entry_base_name(
            #[trigger] snap.drop_last()[k],
        ) == name;
        assert(snap.drop_last()[k] == snap[k]);
    }
}

proof fn lemma_totals_step(
    self_name: Seq<char>,
    excluded: Seq<String>,
    snap: Seq<ProcessSnapshotEntry>,
    i: int,
    name: Seq<char>,
)
    requires
        0 <= i < snap.len(),
    ensures
        spec_picker_totals(self_name, excluded, snap.take(i + 1), name) == (if spec_entry_base_name(
            snap[i],
        ) == name && spec_picker_accepts(self_name, excluded, name) {
            spec_totals_add(
                spec_picker_totals(self_name, excluded, snap.take(i), name),
                snap[i].working_set_bytes,
            )
        } else {
            spec_picker_totals(self_name, excluded, snap.take(i), name)
        }),
{
    assert(snap.take(i + 1).drop_last() =~= snap.take(i));
    assert(snap.take(i + 1).last() == snap[i]);
}

/// Sorted names are pairwise distinct.
proof fn lemma_sorted_distinct(names: Seq<Vec<char>>, a: int, b: int)
    requires
        forall|x: int, y: int| 0 <= x < y < names.len() ==> spec_lex_lt(names[x]@, names[y]@),
        0 <= a < names.len(),
        0 <= b < names.len(),
        a != b,
    ensures
        names[a]@ != names[b]@,
{
    lemma_lex_irreflexive(names[a]@);
}

pub open spec fn spec_sorted_names(names: Seq<Vec<char>>) -> bool {
    forall|x: int, y: int| 0 <= x < y < names.len() ==> spec_lex_lt(names[x]@, names[y]@)
}

/// Distinct running processes for the exclusion picker, excluding the program
/// itself, system entries and excluded names, sorted by name. Each entry
/// carries how many processes have that name, how many of them had a readable
/// working set, and those working sets summed (saturating).
pub fn list_processes_for_exclusion_picker(
    self_base: &str,
    excluded: &[String],
    snapshot: &[ProcessSnapshotEntry],
) -> (r: Vec<ProcessPickerEntry>)
    requires
        snapshot.len() <= u32::MAX,
    ensures
        forall|i: int, j: int|
            0 <= i < j < r.len() ==> spec_lex_lt(r@[i].name@, r@[j].name@),
        forall|i: int|
            0 <= i < r.len() ==> {
                let t = spec_picker_totals(
                    spec_normalize_process_name(self_base@),
                    excluded@,
                    snapshot@,
                    #[trigger] r@[i].name@,
                );
                &&& spec_picker_accepts(spec_normalize_process_name(self_base@), excluded@, r@[i].name@)
                &&& t.0 > 0
                &&& r@[i].instance_count == t.0
                &&& r@[i].memory_readable_count == t.1
                &&& r@[i].working_set_bytes == spec_saturate(t.2)
            },
        forall|k: int|
            0 <= k < snapshot.len() && spec_picker_accepts(
                spec_normalize_process_name(self_base@),
                excluded@,
                spec_entry_base_name(#[trigger] snapshot@[k]),
            ) ==> exists|i: int|
                0 <= i < r.len() && r@[i].name@ == spec_entry_base_name(snapshot@[k]),
{
    let self_chars = str_chars(self_base);
    let self_name = normalize_process_chars(&self_chars);
    let ghost sn = spec_normalize_process_name(self_base@);
    let ghost ex = excluded@;
    let ghost snap = snapshot@;
    let mut names: Vec<Vec<char>> = Vec::new();
    let mut totals: Vec<(u32, u64, u32)> = Vec::new();
    let mut i: usize = 0;
    while i < snapshot.len()
        invariant
            i <= snapshot.len() <= u32::MAX,
            self_name@ == sn,
            sn == spec_normalize_process_name(self_base@),
            ex == excluded@,
            snap == snapshot@,
            names.len() == totals.len(),
            spec_sorted_names(names@),
            forall|a: int|
                0 <= a < names.len() ==> {
                    let t = spec_picker_totals(sn, ex, snap.take(i as int), #[trigger] names@[a]@);
                    &&& spec_picker_accepts(sn, ex, names@[a]@)
                    &&& t.0 > 0
                    &&& totals@[a].0 == t.0
                    &&& totals@[a].2 == t.1
                    &&& totals@[a].1 == spec_saturate(t.2)
                },
            forall|k: int|
                0 <= k < i && spec_picker_accepts(sn, ex, spec_entry_base_name(#[trigger] snap[k]))
                    ==> exists|a: int| 0 <= a < names.len() && names@[a]@ == spec_entry_base_name(snap[k]),
        decreases snapshot.len() - i,
    {
        let name = entry_base_name(&snapshot[i]);
        let ghost old_names = names@;
        let ghost old_totals = totals@;
        let accepted = name.len() > 0 && !chars_eq(&name, &self_name) && !is_picker_hidden_chars(&name)
            && !in_list(excluded, &name);
        assert(accepted == spec_picker_accepts(sn, ex, name@));
        if accepted {
            let mut p: usize = 0;
            while p < names.len() && lex_lt(names[p].as_slice(), &name)
                invariant
                    p <= names.len(),
                    names@ == old_names,
                    forall|a: int| 0 <= a < p ==> spec_lex_lt(#[trigger] names@[a]@, name@),
                decreases names.len() - p,
            {
                p += 1;
            }
            let ws = snapshot[i].working_set_bytes;
            if p < names.len() && chars_eq(names[p].as_slice(), &name) {
                let (c, b, m) = totals[p];
                proof {
                    lemma_totals_step(sn, ex, snap, i as int, name@);
                    lemma_totals_bounded(sn, ex, snap.take(i + 1), name@);
                }
                let nb = match ws {
                    Some(x) => b.saturating_add(x),
                    None => b,
                };
                let nm = match ws {
                    Some(_) => m + 1,
                    None => m,
                };
                totals.set(p, (c + 1, nb, nm));
                proof {
                    assert forall|a: int| 0 <= a < names.len() implies {
                        let t = spec_picker_totals(sn, ex, snap.take(i + 1), #[trigger] names@[a]@);
                        &&& spec_picker_accepts(sn, ex, names@[a]@)
                        &&& t.0 > 0
                        &&& totals@[a].0 == t.0
                        &&& totals@[a].2 == t.1
                        &&& totals@[a].1 == spec_saturate(t.2)
                    } by {
                        lemma_totals_step(sn, ex, snap, i as int, names@[a]@);
                        if a != p {
                            lemma_sorted_distinct(names@, a, p as int);
                        }
                    }
                    assert forall|k: int|
                        0 <= k < i + 1 && spec_picker_accepts(sn, ex, spec_entry_base_name(#[trigger] snap[k]))
                        implies exists|a: int| 0 <= a < names.len() && names@[a]@ == spec_entry_base_name(snap[k]) by {
                        if k == i {
                            assert(names@[p as int]@ == spec_entry_base_name(snap[k]));
                        }
                    }
                }
            } else {
                proof {
                    if p < names.len() {
                        lemma_lex_total(names@[p as int]@, name@);
                    }
                    // the name was not seen among the accepted entries so far
                    if spec_picker_totals(sn, ex, snap.take(i as int), name@).0 > 0 {
                        lemma_totals_witness(sn, ex, snap.take(i as int), name@);
                        let k = choose|k: int| 0 <= k < snap.take(i as int).len()
                            && spec_entry_base_name(#[trigger] snap.take(i as int)[k]) == name@;
                        assert(snap.take(i as int)[k] == snap[k]);
                        let a = choose|a: int| 0 <= a < names.len() && names@[a]@ == spec_entry_base_name(snap[k]);
                        if a < p {
                            lemma_lex_irreflexive(name@);
                        } else {
                            if a > p {
                                lemma_lex_transitive(name@, names@[p as int]@, names@[a]@);
                            }
                            lemma_lex_irreflexive(name@);
                        }
                    }
                    lemma_totals_bounded(sn, ex, snap.take(i as int), name@);
                    lemma_totals_step(sn, ex, snap, i as int, name@);
                }
                let entry: (u32, u64, u32) = match ws {
                    Some(x) => (1, x, 1),
                    None => (1, 0, 0),
                };
                names.insert(p, name);
                totals.insert(p, entry);
                proof {
                    assert forall|x: int, y: int| 0 <= x < y < names.len() implies spec_lex_lt(
                        names@[x]@,
                        names@[y]@,
                    ) by {
                        if y == p {
                            assert(names@[x] == old_names[x]);
                        } else if x == p {
                            assert(names@[y] == old_names[y - 1]);
                            if y - 1 > p {
                                lemma_lex_transitive(name@, old_names[p as int]@, old_names[y - 1]@);
                            }
                        } else if x < p && y > p {
                            assert(names@[x] == old_names[x]);
                            assert(names@[y] == old_names[y - 1]);
                            if y - 1 > x {
                            }
                        } else if x < p {
                            assert(names@[x] == old_names[x]);
                            assert(names@[y] == old_names[y]);
                        } else {
                            assert(names@[x] == old_names[x - 1]);
                            assert(names@[y] == old_names[y - 1]);
                        }
                    }
                    assert forall|a: int| 0 <= a < names.len() implies {
                        let t = spec_picker_totals(sn, ex, snap.take(i + 1), #[trigger] names@[a]@);
                        &&& spec_picker_accepts(sn, ex, names@[a]@)
                        &&& t.0 > 0
                        &&& totals@[a].0 == t.0
                        &&& totals@[a].2 == t.1
                        &&& totals@[a].1 == spec_saturate(t.2)
                    } by {
                        lemma_totals_step(sn, ex, snap, i as int, names@[a]@);
                        if a < p {
                            assert(names@[a] == old_names[a]);
                            assert(totals@[a] == old_totals[a]);
                            lemma_lex_irreflexive(name@);
                        } else if a > p {
                            assert(names@[a] == old_names[a - 1]);
                            assert(totals@[a] == old_totals[a - 1]);
                            if a - 1 > p {
                                lemma_lex_transitive(name@, old_names[p as int]@, old_names[a - 1]@);
                            }
                            lemma_lex_irreflexive(name@);
                        }
                    }
                    assert forall|k: int|
                        0 <= k < i + 1 && spec_picker_accepts(sn, ex, spec_entry_base_name(#[trigger] snap[k]))
                        implies exists|a: int| 0 <= a < names.len() && names@[a]@ == spec_entry_base_name(snap[k]) by {
                        if k == i {
                            assert(names@[p as int]@ == spec_entry_base_name(snap[k]));
                        } else {
                            let a = choose|a: int| 0 <= a < old_names.len() && old_names[a]@ == spec_entry_base_name(snap[k]);
                            if a < p {
                                assert(names@[a] == old_names[a]);
                            } else {
                                assert(names@[a + 1] == old_names[a]);
                            }
                        }
                    }
                }
            }
        } else {
            proof {
                assert forall|a: int| 0 <= a < names.len() implies {
                    let t = spec_picker_totals(sn, ex, snap.take(i + 1), #[trigger] names@[a]@);
                    &&& spec_picker_accepts(sn, ex, names@[a]@)
                    &&& t.0 > 0
                    &&& totals@[a].0 == t.0
                    &&& totals@[a].2 == t.1
                    &&& totals@[a].1 == spec_saturate(t.2)
                } by {
                    lemma_totals_step(sn, ex, snap, i as int, names@[a]@);
                }
            }
        }
        i += 1;
    }
    assert(snap.take(snapshot.len() as int) =~= snap);
    let mut out: Vec<ProcessPickerEntry> = Vec::new();
    let mut a: usize = 0;
    while a < names.len()
        invariant
            a <= names.len() == totals.len(),
            out.len() == a,
            forall|x: int|
                0 <= x < a ==> {
                    &&& (#[trigger] out@[x]).name@ == names@[x]@
                    &&& out@[x].instance_count == totals@[x].0
                    &&& out@[x].working_set_bytes == totals@[x].1
                    &&& out@[x].memory_readable_count == totals@[x].2
                },
        decreases names.len() - a,
    {
        let (c, b, m) = totals[a];
        out.push(
            ProcessPickerEntry {
                name: string_from_chars(names[a].as_slice()),
                instance_count: c,
                working_set_bytes: b,
                memory_readable_count: m,
            },
        );
        a += 1;
    }
    proof {
        assert forall|k: int|
            0 <= k < snapshot.len() && spec_picker_accepts(sn, ex, spec_entry_base_name(#[trigger] snapshot@[k]))
            implies exists|x: int| 0 <= x < out.len() && out@[x].name@ == spec_entry_base_name(snapshot@[k]) by {
            let x = choose|x: int| 0 <= x < names.len() && names@[x]@ == spec_entry_base_name(snap[k]);
            assert(out@[x].name@ == names@[x]@);
        }
    }
    out
}

} // verus!
