//! Volumes whose caches a cleanup flushes: the Mount Manager reply that lists
//! them, the volume names among its links, and the report of a flush run.

use vstd::prelude::*;
use vstd::bytes::{spec_u16_from_le_bytes, spec_u32_from_le_bytes, u16_from_le_bytes, u32_from_le_bytes};
use vstd::slice::slice_subrange;
use crate::text::{
    decimal_chars, join_strings, lemma_lex_total, lemma_lt_le_trans, lex_lt, push_chars, push_str,
    spec_decimal_digits, spec_join, spec_lex_le, spec_lex_lt, spec_string_views, string_from_chars,
};
use crate::utf16::{decode_utf16_lossy, spec_decode_utf16};

verus! {

/// Size of the `MOUNTMGR_MOUNT_POINTS` header: `size` and `number_of_mount_points`.
pub const MOUNT_POINTS_HEADER_SIZE: usize = 8;
/// Size of one `MOUNTMGR_MOUNT_POINT` entry.
pub const MOUNT_POINT_SIZE: usize = 24;

/// Why a Mount Manager reply was refused.
#[derive(Debug, Clone, Copy, PartialEq, Eq, Structural)]
pub enum MountPointsError {
    /// The declared size is below the header or beyond the buffer.
    SizeMismatch,
    /// The declared entries do not fit in the declared size.
    Truncated,
}

pub open spec fn spec_le_u32_at(b: Seq<u8>, off: int) -> u32 {
    spec_u32_from_le_bytes(b.subrange(off, off + 4))
}

pub open spec fn spec_le_u16_at(b: Seq<u8>, off: int) -> u16 {
    spec_u16_from_le_bytes(b.subrange(off, off + 2))
}

/// `n` little-endian UTF-16 units starting at byte `off`.
pub open spec fn spec_units_at(b: Seq<u8>, off: int, n: int) -> Seq<u16> {
    Seq::new(n as nat, |j: int| spec_le_u16_at(b, off + 2 * j))
}

/// The symbolic link named by entry `i`, if it has a usable one: a non-empty,
/// even byte length that ends within the declared size.
pub open spec fn spec_entry_link(b: Seq<u8>, size: int, i: int) -> Option<Seq<u16>> {
    let e = MOUNT_POINTS_HEADER_SIZE + i * MOUNT_POINT_SIZE;
    let off = spec_le_u32_at(b, e) as int;
    let len = spec_le_u16_at(b, e + 4) as int;
    if len == 0 || off + len > size || len % 2 != 0 {
        None
    } else {
        Some(spec_units_at(b, off, len / 2))
    }
}

/// The usable links of the first `k` entries, in order.
pub open spec fn spec_entry_links(b: Seq<u8>, size: int, k: nat) -> Seq<Seq<u16>>
    decreases k,
{
    if k == 0 {
        seq![]
    } else {
        let prev = spec_entry_links(b, size, (k - 1) as nat);
        match spec_entry_link(b, size, k - 1) {
            Some(link) => prev.push(link),
            None => prev,
        }
    }
}

/// The symbolic links listed by a `MOUNTMGR_MOUNT_POINTS` reply. A buffer
/// shorter than the header lists nothing.
pub open spec fn spec_parse_mount_points(b: Seq<u8>) -> Result<Seq<Seq<u16>>, MountPointsError> {
    if b.len() < MOUNT_POINTS_HEADER_SIZE {
        Ok(seq![])
    } else {
        let size = spec_le_u32_at(b, 0) as int;
        let count = spec_le_u32_at(b, 4) as int;
        if size < MOUNT_POINTS_HEADER_SIZE || size > b.len() {
            Err(MountPointsError::SizeMismatch)
        } else if MOUNT_POINTS_HEADER_SIZE + count * MOUNT_POINT_SIZE > size {
            Err(MountPointsError::Truncated)
        } else {
            Ok(spec_entry_links(b, size, count as nat))
        }
    }
}

fn le_u32_at(b: &[u8], off: usize) -> (r: u32)
    requires
        off + 4 <= b.len(),
    ensures
        r == spec_le_u32_at(b@, off as int),
{
    u32_from_le_bytes(slice_subrange(b, off, off + 4))
}

fn le_u16_at(b: &[u8], off: usize) -> (r: u16)
    requires
        off + 2 <= b.len(),
    ensures
        r == spec_le_u16_at(b@, off as int),
{
    u16_from_le_bytes(slice_subrange(b, off, off + 2))
}

fn units_at(b: &[u8], off: usize, n: usize) -> (r: Vec<u16>)
    requires
        off + 2 * n <= b.len(),
    ensures
        r@ == spec_units_at(b@, off as int, n as int),
{
    let mut out: Vec<u16> = Vec::new();
    let mut j: usize = 0;
    while j < n
        invariant
            j <= n,
            off + 2 * n <= b.len(),
            out@.len() == j,
            forall|x: int| 0 <= x < j ==> #[trigger] out@[x] == spec_le_u16_at(b@, off + 2 * x),
        decreases n - j,
    {
        out.push(le_u16_at(b, off + 2 * j));
        j += 1;
    }
    assert(out@ =~= spec_units_at(b@, off as int, n as int));
    out
}

/// The symbolic links listed by a Mount Manager `IOCTL_MOUNTMGR_QUERY_POINTS` reply.
pub fn parse_volume_symbolic_links(buffer: &[u8]) -> (r: Result<Vec<Vec<u16>>, MountPointsError>)
    ensures
        match r {
            Ok(links) => spec_parse_mount_points(buffer@) matches Ok(s) && links@.len() == s.len()
                && forall|i: int| 0 <= i < s.len() ==> (#[trigger] links@[i])@ == s[i],
            Err(e) => spec_parse_mount_points(buffer@) == Err::<Seq<Seq<u16>>, MountPointsError>(e),
        },
{
    if buffer.len() < MOUNT_POINTS_HEADER_SIZE {
        return Ok(Vec::new());
    }
    let size = le_u32_at(buffer, 0);
    let count = le_u32_at(buffer, 4);
    if (size as usize) < MOUNT_POINTS_HEADER_SIZE || (size as usize) > buffer.len() {
        return Err(MountPointsError::SizeMismatch);
    }
    let entries_end: u64 = 8 + (count as u64) * 24;
    if entries_end > size as u64 {
        return Err(MountPointsError::Truncated);
    }
    let size = size as usize;
    let ghost b = buffer@;
    let mut links: Vec<Vec<u16>> = Vec::new();
    let mut i: u32 = 0;
    while i < count
        invariant
            i <= count,
            b == buffer@,
            size <= buffer.len(),
            8 + count * 24 <= size,
            links@.len() == spec_entry_links(b, size as int, i as nat).len(),
            forall|x: int|
                0 <= x < links@.len() ==> (#[trigger] links@[x])@ == spec_entry_links(
                    b,
                    size as int,
                    i as nat,
                )[x],
        decreases count - i,
    {
        let e = 8 + (i as usize) * 24;
        let off = le_u32_at(buffer, e);
        let len = le_u16_at(buffer, e + 4);
        let ghost before = spec_entry_links(b, size as int, i as nat);
        if len == 0 || (off as u64) + (len as u64) > (size as u64) || len % 2 != 0 {
            assert(spec_entry_links(b, size as int, (i + 1) as nat) == before);
        } else {
            let link = units_at(buffer, off as usize, (len / 2) as usize);
            links.push(link);
            assert(spec_entry_links(b, size as int, (i + 1) as nat) == before.push(
                spec_units_at(b, off as int, (len / 2) as int),
            ));
        }
        i += 1;
    }
    Ok(links)
}

/// `MOUNTMGR_IS_VOLUME_NAME`: `\??\Volume{GUID}` or `\\?\Volume{GUID}`,
/// optionally followed by one backslash.
pub open spec fn spec_is_volume_name(c: Seq<u16>) -> bool {
    &&& (c.len() == 48 || (c.len() == 49 && c[48] == 0x5C))
    &&& c[0] == 0x5C
    &&& (c[1] == 0x3F || c[1] == 0x5C)
    &&& c[2] == 0x3F
    &&& c[3] == 0x5C
    &&& c[4] == 0x56
    &&& c[5] == 0x6F
    &&& c[6] == 0x6C
    &&& c[7] == 0x75
    &&& c[8] == 0x6D
    &&& c[9] == 0x65
    &&& c[10] == 0x7B
    &&& c[19] == 0x2D
    &&& c[24] == 0x2D
    &&& c[29] == 0x2D
    &&& c[34] == 0x2D
    &&& c[47] == 0x7D
}

/// Whether a symbolic link names a volume (`MOUNTMGR_IS_VOLUME_NAME`).
pub fn is_volume_name_wide(chars: &[u16]) -> (r: bool)
    ensures
        r == spec_is_volume_name(chars@),
{
    let n = chars.len();
    let len_ok = n == 48 || (n == 49 && chars[48] == 0x5C);
    if !len_ok {
        return false;
    }
    chars[0] == 0x5C && (chars[1] == 0x3F || chars[1] == 0x5C) && chars[2] == 0x3F && chars[3]
        == 0x5C && chars[4] == 0x56 && chars[5] == 0x6F && chars[6] == 0x6C && chars[7] == 0x75
        && chars[8] == 0x6D && chars[9] == 0x65 && chars[10] == 0x7B && chars[19] == 0x2D
        && chars[24] == 0x2D && chars[29] == 0x2D && chars[34] == 0x2D && chars[47] == 0x7D
}

/// `t` without a leading `\??\` or `\\?\`.
pub open spec fn spec_strip_volume_prefix(t: Seq<char>) -> Seq<char> {
    if t.len() >= 4 && t.take(4) == seq!['\\', '?', '?', '\\'] {
        t.skip(4)
    } else if t.len() >= 4 && t.take(4) == seq!['\\', '\\', '?', '\\'] {
        t.skip(4)
    } else {
        t
    }
}

/// `t` without trailing backslashes.
pub open spec fn spec_trim_backslashes(t: Seq<char>) -> Seq<char>
    decreases t.len(),
{
    if t.len() > 0 && t.last() == '\\' {
        spec_trim_backslashes(t.drop_last())
    } else {
        t
    }
}

/// The name a volume link is shown under: decoded, without its `\??\` or
/// `\\?\` prefix and trailing backslashes.
pub open spec fn spec_volume_label(link: Seq<u16>) -> Seq<char> {
    spec_trim_backslashes(spec_strip_volume_prefix(spec_decode_utf16(link)))
}

fn volume_label_chars(link: &[u16]) -> (r: Vec<char>)
    ensures
        r@ == spec_volume_label(link@),
{
    let t = decode_utf16_lossy(link, 0, link.len());
    assert(link@.subrange(0, link@.len() as int) =~= link@);
    let n = t.len();
    let mut start: usize = 0;
    if n >= 4 && t[0] == '\\' && t[2] == '?' && t[3] == '\\' && (t[1] == '?' || t[1] == '\\') {
        start = 4;
    }
    proof {
        if n >= 4 {
            let h = t@.take(4);
            assert(h[0] == t@[0] && h[1] == t@[1] && h[2] == t@[2] && h[3] == t@[3]);
            let a = seq!['\\', '?', '?', '\\'];
            let b = seq!['\\', '\\', '?', '\\'];
            if start == 4 {
                if t@[1] == '?' {
                    assert(h =~= a);
                } else {
                    assert(h =~= b);
                }
            } else {
                if h == a {
                    assert(a[0] == '\\' && a[1] == '?' && a[2] == '?' && a[3] == '\\');
                }
                if h == b {
                    assert(b[0] == '\\' && b[1] == '\\' && b[2] == '?' && b[3] == '\\');
                }
            }
        }
    }
    assert(t@.subrange(start as int, n as int) == spec_strip_volume_prefix(t@)) by {
        if start == 0 {
            assert(t@.subrange(0, n as int) =~= t@);
        } else {
            assert(t@.subrange(4, n as int) =~= t@.skip(4));
        }
    }
    let mut end = n;
    while end > start && t[end - 1] == '\\'
        invariant
            start <= end <= n == t.len(),
            spec_trim_backslashes(t@.subrange(start as int, n as int)) == spec_trim_backslashes(
                t@.subrange(start as int, end as int),
            ),
        decreases end - start,
    {
        assert(t@.subrange(start as int, end as int).drop_last() =~= t@.subrange(
            start as int,
            end - 1,
        ));
        end -= 1;
    }
    let mut out: Vec<char> = Vec::new();
    let mut k = start;
    while k < end
        invariant
            start <= k <= end <= t.len(),
            out@ == t@.subrange(start as int, k as int),
        decreases end - k,
    {
        out.push(t[k]);
        assert(t@.subrange(start as int, k + 1) =~= t@.subrange(start as int, k as int).push(t@[k as int]));
        k += 1;
    }
    out
}

/// The name a volume link is shown under.
pub fn volume_display_label(symbolic_link: &[u16]) -> (r: String)
    ensures
        r@ == spec_volume_label(symbolic_link@),
{
    let v = volume_label_chars(symbolic_link);
    string_from_chars(&v)
}

/// The volume links among `links`, each once, in order of first occurrence.
pub open spec fn spec_unique_volume_links(links: Seq<Seq<u16>>) -> Seq<Seq<u16>>
    decreases links.len(),
{
    if links.len() == 0 {
        seq![]
    } else {
        let prev = spec_unique_volume_links(links.drop_last());
        let x = links.last();
        if spec_is_volume_name(x) && !prev.contains(x) {
            prev.push(x)
        } else {
            prev
        }
    }
}

/// `r` holds the items of `d` (all distinct), ordered by label; items with
/// equal labels keep their order in `d`. `pos[a]` is where `r[a]` stands in `d`.
pub open spec fn spec_label_sorted_by(d: Seq<Seq<u16>>, r: Seq<Seq<u16>>, pos: Seq<int>) -> bool {
    &&& r.len() == d.len()
    &&& pos.len() == r.len()
    &&& forall|a: int| 0 <= a < r.len() ==> 0 <= #[trigger] pos[a] < d.len() && r[a] == d[pos[a]]
    &&& forall|a: int, b: int| 0 <= a < b < r.len() ==> pos[a] != pos[b]
    &&& forall|a: int, b: int|
        0 <= a < b < r.len() ==> spec_lex_le(spec_volume_label(r[a]), spec_volume_label(r[b]))
    &&& forall|a: int, b: int|
        0 <= a < b < r.len() && spec_volume_label(r[a]) == spec_volume_label(r[b]) ==> pos[a] < pos[b]
}

fn units_eq(a: &[u16], b: &[u16]) -> (r: bool)
    ensures
        r == (a@ == b@),
{
    if a.len() != b.len() {
        return false;
    }
    let mut i: usize = 0;
    while i < a.len()
        invariant
            i <= a.len() == b.len(),
            forall|j: int| 0 <= j < i ==> a@[j] == b@[j],
        decreases a.len() - i,
    {
        if a[i] != b[i] {
            return false;
        }
        i += 1;
    }
    assert(a@ =~= b@);
    true
}

fn copy_units(a: &[u16]) -> (r: Vec<u16>)
    ensures
        r@ == a@,
{
    let mut out: Vec<u16> = Vec::new();
    let mut i: usize = 0;
    while i < a.len()
        invariant
            i <= a.len(),
            out@ == a@.subrange(0, i as int),
        decreases a.len() - i,
    {
        out.push(a[i]);
        assert(a@.subrange(0, i + 1) =~= a@.subrange(0, i as int).push(a@[i as int]));
        i += 1;
    }
    assert(a@.subrange(0, a.len() as int) =~= a@);
    out
}

pub open spec fn spec_link_views(v: Seq<Vec<u16>>) -> Seq<Seq<u16>> {
    v.map_values(|x: Vec<u16>| x@)
}

/// `spec_unique_volume_links` of the given links.
fn unique_volume_links(links: &[Vec<u16>]) -> (r: Vec<Vec<u16>>)
    ensures
        spec_link_views(r@) == spec_unique_volume_links(spec_link_views(links@)),
{
    let ghost all = spec_link_views(links@);
    let mut out: Vec<Vec<u16>> = Vec::new();
    let mut i: usize = 0;
    while i < links.len()
        invariant
            i <= links.len(),
            all == spec_link_views(links@),
            spec_link_views(out@) == spec_unique_volume_links(all.take(i as int)),
        decreases links.len() - i,
    {
        assert(all.take(i + 1).drop_last() =~= all.take(i as int));
        assert(all.take(i + 1).last() == links@[i as int]@);
        let ghost prev = spec_link_views(out@);
        if is_volume_name_wide(links[i].as_slice()) {
            let mut seen = false;
            let mut j: usize = 0;
            while j < out.len()
                invariant
                    j <= out.len(),
                    i < links.len(),
                    prev == spec_link_views(out@),
                    !seen ==> forall|x: int| 0 <= x < j ==> prev[x] != links@[i as int]@,
                    seen ==> prev.contains(links@[i as int]@),
                decreases out.len() - j,
            {
                if units_eq(out[j].as_slice(), links[i].as_slice()) {
                    seen = true;
                    assert(prev[j as int] == links@[i as int]@);
                }
                j += 1;
            }
            if !seen {
                let c = copy_units(links[i].as_slice());
                out.push(c);
                assert(spec_link_views(out@) =~= prev.push(links@[i as int]@));
            }
        }
        i += 1;
    }
    assert(all.take(links.len() as int) =~= all);
    out
}

/// A volume to flush: its label and its symbolic link.
#[derive(Clone, Debug, PartialEq, Eq)]
pub struct VolumeFlushTarget {
    pub label: String,
    pub symbolic_link: Vec<u16>,
}

/// The links of `targets`.
pub open spec fn spec_target_links(targets: Seq<VolumeFlushTarget>) -> Seq<Seq<u16>> {
    targets.map_values(|t: VolumeFlushTarget| t.symbolic_link@)
}

/// The labels of `targets`.
pub open spec fn spec_target_labels(targets: Seq<VolumeFlushTarget>) -> Seq<Seq<char>> {
    targets.map_values(|t: VolumeFlushTarget| t.label@)
}

/// Every target's label is the label of its link.
pub open spec fn spec_targets_labelled(targets: Seq<VolumeFlushTarget>) -> bool {
    forall|a: int| 0 <= a < targets.len() ==> (#[trigger] targets[a]).label@ == spec_volume_label(
        targets[a].symbolic_link@,
    )
}

/// The volumes among `links`: each volume link once, ordered by label.
pub open spec fn spec_volume_targets(links: Seq<Seq<u16>>, targets: Seq<VolumeFlushTarget>) -> bool {
    &&& spec_targets_labelled(targets)
    &&& exists|pos: Seq<int>|
        spec_label_sorted_by(spec_unique_volume_links(links), spec_target_links(targets), pos)
}

/// The volume targets among the Mount Manager links: volume names only, each
/// once, sorted by label (stably).
pub fn collect_volume_targets(links: &[Vec<u16>]) -> (r: Vec<VolumeFlushTarget>)
    ensures
        spec_volume_targets(spec_link_views(links@), r@),
{
    let d = unique_volume_links(links);
    let ghost dv = spec_link_views(d@);
    let mut labels: Vec<Vec<char>> = Vec::new();
    let mut idx: Vec<usize> = Vec::new();
    let mut k: usize = 0;
    while k < d.len()
        invariant
            k <= d.len(),
            dv == spec_link_views(d@),
            labels@.len() == idx@.len() == k,
            forall|a: int| 0 <= a < k ==> #[trigger] idx@[a] < k,
            forall|a: int, b: int| 0 <= a < b < k ==> idx@[a] != idx@[b],
            forall|a: int| 0 <= a < k ==> (#[trigger] labels@[a])@ == spec_volume_label(dv[idx@[a] as int]),
            forall|a: int, b: int| 0 <= a < b < k ==> spec_lex_le(labels@[a]@, labels@[b]@),
            forall|a: int, b: int|
                0 <= a < b < k && labels@[a]@ == labels@[b]@ ==> idx@[a] < idx@[b],
        decreases d.len() - k,
    {
        let lab = volume_label_chars(d[k].as_slice());
        let mut p: usize = 0;
        while p < labels.len() && !lex_lt(&lab, labels[p].as_slice())
            invariant
                p <= labels.len(),
                forall|a: int| 0 <= a < p ==> !spec_lex_lt(lab@, (#[trigger] labels@[a])@),
            decreases labels.len() - p,
        {
            p += 1;
        }
        let ghost ol = labels@;
        let ghost oi = idx@;
        proof {
            assert forall|j: int| p <= j < ol.len() implies spec_lex_lt(lab@, (#[trigger] ol[j])@) by {
                if j > p {
                    lemma_lt_le_trans(lab@, ol[p as int]@, ol[j]@);
                }
            }
            assert forall|a: int| 0 <= a < p implies spec_lex_le((#[trigger] ol[a])@, lab@) by {
                lemma_lex_total(ol[a]@, lab@);
            }
        }
        labels.insert(p, lab);
        idx.insert(p, k);
        proof {
            assert forall|a: int| 0 <= a < k + 1 implies #[trigger] idx@[a] < k + 1 by {
                if a < p {
                    assert(idx@[a] == oi[a]);
                } else if a > p {
                    assert(idx@[a] == oi[a - 1]);
                }
            }
            assert forall|a: int, b: int| 0 <= a < b < k + 1 implies idx@[a] != idx@[b] by {
                if a < p && b > p {
                    assert(idx@[a] == oi[a] && idx@[b] == oi[b - 1]);
                } else if a < p && b < p {
                    assert(idx@[a] == oi[a] && idx@[b] == oi[b]);
                } else if a > p {
                    assert(idx@[a] == oi[a - 1] && idx@[b] == oi[b - 1]);
                } else if a == p {
                    assert(idx@[b] == oi[b - 1]);
                } else {
                    assert(idx@[a] == oi[a]);
                }
            }
            assert forall|a: int| 0 <= a < k + 1 implies (#[trigger] labels@[a])@ == spec_volume_label(
                dv[idx@[a] as int],
            ) by {
                if a < p {
                    assert(idx@[a] == oi[a] && labels@[a] == ol[a]);
                } else if a > p {
                    assert(idx@[a] == oi[a - 1] && labels@[a] == ol[a - 1]);
                }
            }
            assert forall|a: int, b: int| 0 <= a < b < k + 1 implies spec_lex_le(
                labels@[a]@,
                labels@[b]@,
            ) by {
                if b == p {
                    assert(labels@[a] == ol[a] && idx@[a] == oi[a]);
                } else if a == p {
                    assert(labels@[b] == ol[b - 1]);
                    assert(labels@[a]@ == lab@);
                    assert(spec_lex_lt(lab@, ol[b - 1]@));
                    lemma_lex_irreflexive_at(lab@, ol[b - 1]@);
                    assert(labels@[a]@ != labels@[b]@);
                } else if a < p && b > p {
                    assert(labels@[a] == ol[a] && labels@[b] == ol[b - 1]);
                    assert(idx@[a] == oi[a] && idx@[b] == oi[b - 1]);
                    assert(spec_lex_le(ol[a]@, ol[b - 1]@));
                    assert(ol[a]@ == ol[b - 1]@ ==> oi[a] < oi[b - 1]);
                } else if b < p {
                    assert(labels@[a] == ol[a] && labels@[b] == ol[b]);
                    assert(idx@[a] == oi[a] && idx@[b] == oi[b]);
                } else {
                    assert(labels@[a] == ol[a - 1] && labels@[b] == ol[b - 1]);
                    assert(idx@[a] == oi[a - 1] && idx@[b] == oi[b - 1]);
                }
            }
            assert forall|a: int, b: int|
                0 <= a < b < k + 1 && labels@[a]@ == labels@[b]@ implies idx@[a] < idx@[b] by {
                if b == p {
                    assert(labels@[a] == ol[a] && idx@[a] == oi[a]);
                } else if a == p {
                    assert(labels@[b] == ol[b - 1]);
                    assert(labels@[a]@ == lab@);
                    assert(spec_lex_lt(lab@, ol[b - 1]@));
                    lemma_lex_irreflexive_at(lab@, ol[b - 1]@);
                    assert(labels@[a]@ != labels@[b]@);
                } else if a < p && b > p {
                    assert(labels@[a] == ol[a] && labels@[b] == ol[b - 1]);
                    assert(idx@[a] == oi[a] && idx@[b] == oi[b - 1]);
                    assert(spec_lex_le(ol[a]@, ol[b - 1]@));
                    assert(ol[a]@ == ol[b - 1]@ ==> oi[a] < oi[b - 1]);
                } else if b < p {
                    assert(labels@[a] == ol[a] && labels@[b] == ol[b]);
                    assert(idx@[a] == oi[a] && idx@[b] == oi[b]);
                } else {
                    assert(labels@[a] == ol[a - 1] && labels@[b] == ol[b - 1]);
                    assert(idx@[a] == oi[a - 1] && idx@[b] == oi[b - 1]);
                }
            }
        }
        k += 1;
    }
    let mut out: Vec<VolumeFlushTarget> = Vec::new();
    let mut a: usize = 0;
    while a < labels.len()
        invariant
            a <= labels.len() == idx.len() == d.len(),
            dv == spec_link_views(d@),
            forall|x: int| 0 <= x < labels.len() ==> #[trigger] idx@[x] < d.len(),
            forall|x: int| 0 <= x < labels.len() ==> (#[trigger] labels@[x])@ == spec_volume_label(dv[idx@[x] as int]),
            forall|x: int, y: int| 0 <= x < y < labels.len() ==> idx@[x] != idx@[y],
            forall|x: int, y: int| 0 <= x < y < labels.len() ==> spec_lex_le(labels@[x]@, labels@[y]@),
            forall|x: int, y: int|
                0 <= x < y < labels.len() && labels@[x]@ == labels@[y]@ ==> idx@[x] < idx@[y],
            out@.len() == a,
            forall|x: int|
                0 <= x < a ==> (#[trigger] out@[x]).label@ == labels@[x]@ && out@[x].symbolic_link@
                    == dv[idx@[x] as int],
        decreases labels.len() - a,
    {
        let link = copy_units(d[idx[a]].as_slice());
        out.push(VolumeFlushTarget { label: string_from_chars(labels[a].as_slice()), symbolic_link: link });
        a += 1;
    }
    proof {
        let pos = Seq::new(idx@.len(), |x: int| idx@[x] as int);
        let r = spec_target_links(out@);
        assert forall|x: int| 0 <= x < r.len() implies 0 <= #[trigger] pos[x] < dv.len() && r[x] == dv[pos[x]] by {
        }
        assert forall|x: int, y: int| 0 <= x < y < r.len() implies spec_lex_le(
            spec_volume_label(r[x]),
            spec_volume_label(r[y]),
        ) && (spec_volume_label(r[x]) == spec_volume_label(r[y]) ==> pos[x] < pos[y]) by {
            assert(out@[x].label@ == labels@[x]@);
            assert(out@[y].label@ == labels@[y]@);
        }
        assert(spec_label_sorted_by(dv, r, pos));
    }
    out
}

/// The volumes of one Mount Manager query, ready to be flushed one by one.
#[derive(Debug)]
pub struct VolumeFlushSession {
    targets: Vec<VolumeFlushTarget>,
}

impl View for VolumeFlushSession {
    type V = Seq<VolumeFlushTarget>;

    closed spec fn view(&self) -> Seq<VolumeFlushTarget> {
        self.targets@
    }
}

impl VolumeFlushSession {
    /// The volumes listed by a Mount Manager `IOCTL_MOUNTMGR_QUERY_POINTS` reply.
    pub fn open(buffer: &[u8]) -> (r: Result<Self, MountPointsError>)
        ensures
            match r {
                Ok(session) => spec_parse_mount_points(buffer@) matches Ok(links) && spec_volume_targets(
                    links,
                    session@,
                ),
                Err(e) => spec_parse_mount_points(buffer@) == Err::<Seq<Seq<u16>>, MountPointsError>(e),
            },
    {
        match parse_volume_symbolic_links(buffer) {
            Ok(links) => {
                let targets = collect_volume_targets(&links);
                proof {
                    let s = spec_parse_mount_points(buffer@)->Ok_0;
                    assert(spec_link_views(links@) =~= s);
                }
                Ok(VolumeFlushSession { targets })
            },
            Err(e) => Err(e),
        }
    }

    pub fn is_empty(&self) -> (r: bool)
        ensures
            r == (self@.len() == 0),
    {
        self.targets.len() == 0
    }

    pub fn len(&self) -> (r: usize)
        ensures
            r == self@.len(),
    {
        self.targets.len()
    }

    pub fn label(&self, index: usize) -> (r: &str)
        requires
            index < self@.len(),
        ensures
            r@ == self@[index as int].label@,
    {
        self.targets[index].label.as_str()
    }

    /// The `\??\Volume{GUID}` link through which volume `index` is opened.
    pub fn symbolic_link(&self, index: usize) -> (r: &[u16])
        requires
            index < self@.len(),
        ensures
            r@ == self@[index as int].symbolic_link@,
    {
        self.targets[index].symbolic_link.as_slice()
    }
}

/// What a run of volume flushes achieved.
#[derive(Clone, Debug, PartialEq, Eq)]
pub struct VolumeFlushReport {
    pub succeeded: usize,
    pub failed: Vec<String>,
}

impl Default for VolumeFlushReport {
    fn default() -> (r: Self)
        ensures
            r.succeeded == 0,
            r.failed@.len() == 0,
    {
        VolumeFlushReport { succeeded: 0, failed: Vec::new() }
    }
}

impl VolumeFlushReport {
    /// At least one volume flushed, or none failed.
    pub fn is_success(&self) -> (r: bool)
        ensures
            r == (self.succeeded > 0 || self.failed@.len() == 0),
    {
        self.succeeded > 0 || self.failed.len() == 0
    }

    /// Count a success, or keep the label of a failed volume.
    pub fn record(&mut self, label: &str, result: Result<(), String>)
        requires
            old(self).succeeded < usize::MAX,
        ensures
            result is Ok ==> final(self).succeeded == old(self).succeeded + 1 && final(self).failed@
                == old(self).failed@,
            result is Err ==> final(self).succeeded == old(self).succeeded && spec_string_views(
                final(self).failed@,
            ) == spec_string_views(old(self).failed@).push(label@),
    {
        match result {
            Ok(()) => {
                self.succeeded = self.succeeded + 1;
            },
            Err(_) => {
                let ghost before = self.failed@;
                self.failed.push(label.to_owned());
                assert(spec_string_views(self.failed@) =~= spec_string_views(before).push(label@));
            },
        }
    }
}

pub open spec fn spec_count_true(results: Seq<bool>) -> nat
    decreases results.len(),
{
    if results.len() == 0 {
        0
    } else {
        spec_count_true(results.drop_last()) + if results.last() {
            1nat
        } else {
            0nat
        }
    }
}

/// The labels of the targets whose flush failed, in order.
pub open spec fn spec_failed_labels(targets: Seq<VolumeFlushTarget>, results: Seq<bool>) -> Seq<Seq<char>>
    decreases results.len(),
{
    if results.len() == 0 {
        seq![]
    } else {
        let prev = spec_failed_labels(targets, results.drop_last());
        if results.last() {
            prev
        } else {
            prev.push(targets[results.len() - 1].label@)
        }
    }
}

proof fn lemma_count_true_bound(results: Seq<bool>)
    ensures
        spec_count_true(results) <= results.len(),
    decreases results.len(),
{
    if results.len() > 0 {
        lemma_count_true_bound(results.drop_last());
    }
}

/// Every flushed volume is counted once: as a success or as a failed label.
pub proof fn lemma_report_accounts_for_every_volume(targets: Seq<VolumeFlushTarget>, results: Seq<bool>)
    ensures
        spec_count_true(results) + spec_failed_labels(targets, results).len() == results.len(),
    decreases results.len(),
{
    if results.len() > 0 {
        lemma_report_accounts_for_every_volume(targets, results.drop_last());
    }
}

/// `on_progress` was called with `current`, `total` and a label reading `label`.
pub open spec fn spec_progress_reported<P: Fn(usize, usize, &str)>(
    on_progress: P,
    current: usize,
    total: usize,
    label: Seq<char>,
) -> bool {
    exists|l: &str| l@ == label && #[trigger] call_ensures(on_progress, (current, total, l), ())
}

/// Flush every volume of `session`, in index order: for volume `k` of `n`,
/// first report progress through `on_progress(k + 1, n, label)`, then flush it
/// through `flush_one(k)`, which says whether it was flushed. The report counts
/// the flushed volumes and keeps the labels of the others, in index order.
pub fn flush_volume_session<P: Fn(usize, usize, &str), F: Fn(usize) -> bool>(
    session: &VolumeFlushSession,
    on_progress: P,
    flush_one: F,
) -> (r: VolumeFlushReport)
    requires
        forall|c: usize, t: usize, l: &str| call_requires(on_progress, (c, t, l)),
        forall|i: usize| i < session@.len() ==> call_requires(flush_one, (i,)),
    ensures
        forall|k: int|
            #![trigger session@[k]]
            0 <= k < session@.len() ==> spec_progress_reported(
                on_progress,
                (k + 1) as usize,
                session@.len() as usize,
                session@[k].label@,
            ),
        exists|results: Seq<bool>|
            {
                &&& results.len() == session@.len()
                &&& forall|i: int|
                    0 <= i < results.len() ==> call_ensures(flush_one, (i as usize,), #[trigger] results[i])
                &&& r.succeeded == spec_count_true(results)
                &&& spec_string_views(r.failed@) == spec_failed_labels(session@, results)
            },
        r.succeeded + r.failed@.len() == session@.len(),
{
    let mut report = VolumeFlushReport::default();
    let total = session.len();
    let ghost mut results: Seq<bool> = seq![];
    let mut index: usize = 0;
    assert(spec_string_views(report.failed@) =~= seq![]);
    while index < total
        invariant
            index <= total == session@.len(),
            forall|c: usize, t: usize, l: &str| call_requires(on_progress, (c, t, l)),
            forall|i: usize| i < session@.len() ==> call_requires(flush_one, (i,)),
            forall|k: int|
                #![trigger session@[k]]
                0 <= k < index ==> spec_progress_reported(
                    on_progress,
                    (k + 1) as usize,
                    session@.len() as usize,
                    session@[k].label@,
                ),
            results.len() == index,
            forall|i: int| 0 <= i < index ==> call_ensures(flush_one, (i as usize,), #[trigger] results[i]),
            report.succeeded == spec_count_true(results),
            spec_string_views(report.failed@) == spec_failed_labels(session@, results),
        decreases total - index,
    {
        let label = session.label(index);
        on_progress(index + 1, total, label);
        let ok = flush_one(index);
        proof {
            lemma_count_true_bound(results);
        }
        let ghost before = results;
        if ok {
            report.record(label, Ok(()));
        } else {
            report.record(label, Err(String::new()));
        }
        proof {
            results = results.push(ok);
            assert(results.drop_last() =~= before);
            assert forall|i: int| 0 <= i < index + 1 implies call_ensures(flush_one, (i as usize,), #[trigger] results[i]) by {
                if i < index {
                    assert(results[i] == before[i]);
                }
            }
            assert forall|k: int| #![trigger session@[k]] 0 <= k < index + 1 implies spec_progress_reported(
                on_progress,
                (k + 1) as usize,
                session@.len() as usize,
                session@[k].label@,
            ) by {
                if k == index {
                    assert(label@ == session@[k].label@);
                    assert(call_ensures(on_progress, ((k + 1) as usize, session@.len() as usize, label), ()));
                }
            }
        }
        index += 1;
    }
    proof {
        lemma_report_accounts_for_every_volume(session@, results);
        assert(spec_string_views(report.failed@).len() == report.failed@.len());
    }
    report
}

/// Ignore progress.
fn no_progress(_current: usize, _total: usize, _label: &str) {
}

/// The labels of the volumes a Mount Manager reply lists, in flush order.
pub fn list_volume_flush_targets(buffer: &[u8]) -> (r: Result<Vec<String>, MountPointsError>)
    ensures
        match r {
            Ok(labels) => spec_parse_mount_points(buffer@) matches Ok(links) && exists|targets: Seq<VolumeFlushTarget>|
                spec_volume_targets(links, targets) && spec_string_views(labels@) == spec_target_labels(targets),
            Err(e) => spec_parse_mount_points(buffer@) == Err::<Seq<Seq<u16>>, MountPointsError>(e),
        },
{
    let session = match VolumeFlushSession::open(buffer) {
        Ok(s) => s,
        Err(e) => return Err(e),
    };
    let mut labels: Vec<String> = Vec::new();
    let mut i: usize = 0;
    while i < session.len()
        invariant
            i <= session@.len(),
            labels@.len() == i,
            spec_string_views(labels@) == spec_target_labels(session@.take(i as int)),
        decreases session@.len() - i,
    {
        let ghost before = labels@;
        let l = session.label(i).to_owned();
        labels.push(l);
        assert(labels@[i as int]@ == session@[i as int].label@);
        assert forall|j: int| 0 <= j < i implies labels@[j]@ == session@[j].label@ by {
            assert(labels@[j] == before[j]);
            assert(spec_string_views(before)[j] == spec_target_labels(session@.take(i as int))[j]);
        }
        assert(spec_string_views(labels@) =~= spec_target_labels(session@.take(i + 1)));
        i += 1;
    }
    assert(session@.take(session@.len() as int) =~= session@);
    Ok(labels)
}

/// Open the volumes of a Mount Manager reply and flush them all.
pub fn flush_all_volume_caches<F: Fn(usize) -> bool>(buffer: &[u8], flush_one: F) -> (r: Result<
    (VolumeFlushSession, VolumeFlushReport),
    MountPointsError,
>)
    requires
        forall|i: usize| call_requires(flush_one, (i,)),
    ensures
        match r {
            Ok((session, report)) => spec_parse_mount_points(buffer@) matches Ok(links)
                && spec_volume_targets(links, session@) && exists|results: Seq<bool>|
                {
                    &&& results.len() == session@.len()
                    &&& forall|i: int|
                        0 <= i < results.len() ==> call_ensures(flush_one, (i as usize,), #[trigger] results[i])
                    &&& report.succeeded == spec_count_true(results)
                    &&& spec_string_views(report.failed@) == spec_failed_labels(session@, results)
                },
            Err(e) => spec_parse_mount_points(buffer@) == Err::<Seq<Seq<u16>>, MountPointsError>(e),
        },
{
    let session = match VolumeFlushSession::open(buffer) {
        Ok(s) => s,
        Err(e) => return Err(e),
    };
    let report = flush_volume_session(&session, no_progress, flush_one);
    Ok((session, report))
}

/// The run's result as a cleanup step: `Ok` when at least one volume flushed
/// or none failed; otherwise the failed volumes, joined with ", ".
pub fn complete_volume_flush(report: &VolumeFlushReport) -> (r: Result<(), String>)
    ensures
        report.succeeded > 0 || report.failed@.len() == 0 ==> r is Ok,
        !(report.succeeded > 0 || report.failed@.len() == 0) ==> (r matches Err(s) && s@ == spec_join(
            spec_string_views(report.failed@),
            ", "@,
        )),
{
    if report.is_success() {
        Ok(())
    } else {
        Err(join_strings(report.failed.as_slice(), ", "))
    }
}

/// The debug-log line summing up a run with failures: a partial success
/// with both counts, or the failure of every volume; `None` when none failed.
pub open spec fn spec_volume_flush_summary(succeeded: nat, failed: Seq<Seq<char>>) -> Option<Seq<char>> {
    if failed.len() == 0 {
        None
    } else if succeeded > 0 {
        Some(
            "[optimize] modified file cache partial success: "@ + spec_decimal_digits(succeeded)
                + " succeeded, "@ + spec_decimal_digits(failed.len()) + " failed ("@ + spec_join(
                failed,
                ", "@,
            ) + ")"@,
        )
    } else {
        Some("[optimize] modified file cache all volumes failed ("@ + spec_join(failed, ", "@) + ")"@)
    }
}

/// The debug-log summary of a run, when some volume failed.
pub fn volume_flush_summary(report: &VolumeFlushReport) -> (r: Option<String>)
    ensures
        match spec_volume_flush_summary(report.succeeded as nat, spec_string_views(report.failed@)) {
            None => r is None,
            Some(line) => r matches Some(s) && s@ == line,
        },
{
    if report.failed.len() == 0 {
        return None;
    }
    let failed = join_strings(report.failed.as_slice(), ", ");
    let mut out = String::new();
    assert(out@ =~= Seq::<char>::empty());
    if report.succeeded > 0 {
        push_str(&mut out, "[optimize] modified file cache partial success: ");
        let ok = decimal_chars(report.succeeded as u64);
        push_chars(&mut out, &ok);
        push_str(&mut out, " succeeded, ");
        let bad = decimal_chars(report.failed.len() as u64);
        push_chars(&mut out, &bad);
        push_str(&mut out, " failed (");
    } else {
        push_str(&mut out, "[optimize] modified file cache all volumes failed (");
    }
    push_str(&mut out, failed.as_str());
    push_str(&mut out, ")");
    Some(out)
}

proof fn lemma_lex_irreflexive_at(a: Seq<char>, b: Seq<char>)
    requires
        spec_lex_lt(a, b),
    ensures
        a != b,
{
    crate::text::lemma_lex_irreflexive(a);
}

/// `CTL_CODE(device_type, function, method, access)`.
pub fn ctl_code(device_type: u32, function: u32, method: u32, access: u32) -> (r: u32)
    requires
        device_type < 0x10000,
        access < 4,
        function < 0x1000,
        method < 4,
    ensures
        r == (device_type << 16) | (access << 14) | (function << 2) | method,
{
    (device_type << 16) | (access << 14) | (function << 2) | method
}

} // verus!
