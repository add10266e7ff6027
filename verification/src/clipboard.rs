//! Clipboard history bookkeeping: pausing the monitor while the app pastes,
//! and the manual reordering of stored items.

use vstd::prelude::*;

verus! {

/// The instant (milliseconds since the Unix epoch) until which clipboard
/// updates are ignored, when the monitor is paused at `now_ms` for `duration_ms`.
pub fn pause_monitor(now_ms: u64, duration_ms: u64) -> (r: u64)
    requires
        now_ms + duration_ms <= u64::MAX,
    ensures
        r == now_ms + duration_ms,
{
    now_ms + duration_ms
}

/// Whether clipboard updates are ignored at `now_ms`.
pub fn monitor_paused(now_ms: u64, pause_until_ms: u64) -> (r: bool)
    ensures
        r == (now_ms < pause_until_ms),
{
    now_ms < pause_until_ms
}

/// Index of the first `id` in `ids`, or `ids.len()`.
pub open spec fn spec_first_index(ids: Seq<i64>, id: i64) -> int
    decreases ids.len(),
{
    if ids.len() == 0 {
        0
    } else if ids[0] == id {
        0
    } else {
        1 + spec_first_index(ids.drop_first(), id)
    }
}

proof fn lemma_first_index(ids: Seq<i64>, id: i64)
    ensures
        0 <= spec_first_index(ids, id) <= ids.len(),
        spec_first_index(ids, id) < ids.len() ==> ids[spec_first_index(ids, id)] == id,
        forall|j: int| 0 <= j < spec_first_index(ids, id) ==> ids[j] != id,
    decreases ids.len(),
{
    if ids.len() > 0 && ids[0] != id {
        lemma_first_index(ids.drop_first(), id);
        assert forall|j: int| 0 <= j < spec_first_index(ids, id) implies ids[j] != id by {
            if j > 0 {
                assert(ids[j] == ids.drop_first()[j - 1]);
            }
        }
    }
}

fn first_index(ids: &[i64], id: i64) -> (r: usize)
    ensures
        r == spec_first_index(ids@, id),
{
    let mut i: usize = 0;
    while i < ids.len() && ids[i] != id
        invariant
            i <= ids.len(),
            forall|j: int| 0 <= j < i ==> ids@[j] != id,
        decreases ids.len() - i,
    {
        i += 1;
    }
    proof {
        lemma_first_index(ids@, id);
        let f = spec_first_index(ids@, id);
        if f < i {
            assert(ids@[f] == id);
        } else if i < f {
            assert(ids@[i as int] == id);
        }
    }
    i
}

/// The display order after dragging item `from_id` onto item `to_id`: the item
/// leaves its place and is inserted where `to_id` stood (as `arrayMove` does).
/// `None` when the ids are equal or either is missing.
pub open spec fn spec_moved_ids(ids: Seq<i64>, from_id: i64, to_id: i64) -> Option<Seq<i64>> {
    let f = spec_first_index(ids, from_id);
    let t = spec_first_index(ids, to_id);
    if from_id == to_id || f >= ids.len() || t >= ids.len() {
        None
    } else {
        Some(ids.remove(f).insert(t, ids[f]))
    }
}

/// Dragging item `from_id` onto item `to_id` (both present, first
/// occurrences at `f` and `t`, the ids different) puts `from_id` at the place
/// `t` where `to_id` stood, and leaves every other item in its old order; with
/// either id missing, or the same id twice, nothing moves.
pub proof fn lemma_move_lands_on_target(ids: Seq<i64>, from_id: i64, to_id: i64, f: int, t: int)
    requires
        0 <= f < ids.len(),
        0 <= t < ids.len(),
        ids[f] == from_id,
        ids[t] == to_id,
        forall|j: int| 0 <= j < f ==> ids[j] != from_id,
        forall|j: int| 0 <= j < t ==> ids[j] != to_id,
        from_id != to_id,
    ensures
        spec_moved_ids(ids, from_id, to_id) matches Some(moved) && moved.len() == ids.len() && moved[t]
            == from_id && moved.remove(t) == ids.remove(f),
{
    lemma_first_index(ids, from_id);
    lemma_first_index(ids, to_id);
    let sf = spec_first_index(ids, from_id);
    let st = spec_first_index(ids, to_id);
    if sf < f {
        assert(ids[sf] == from_id);
    } else if f < sf {
        assert(ids[f] != from_id);
    }
    if st < t {
        assert(ids[st] == to_id);
    } else if t < st {
        assert(ids[t] != to_id);
    }
    let moved = ids.remove(f).insert(t, ids[f]);
    assert(moved.remove(t) =~= ids.remove(f));
}

/// Nothing moves when the ids are the same or one of them is not listed.
pub proof fn lemma_move_needs_two_listed_ids(ids: Seq<i64>, from_id: i64, to_id: i64)
    requires
        from_id == to_id || !ids.contains(from_id) || !ids.contains(to_id),
    ensures
        spec_moved_ids(ids, from_id, to_id) is None,
{
    lemma_first_index(ids, from_id);
    lemma_first_index(ids, to_id);
}

/// The new `(id, sort_order)` pairs after dragging `from_id` onto `to_id` in
/// the display order `ids`: the first item gets the highest order, `ids.len()`,
/// down to 1. `None` when nothing moves.
pub fn move_item_by_id(ids: &[i64], from_id: i64, to_id: i64) -> (r: Option<Vec<(i64, i64)>>)
    requires
        ids.len() <= i64::MAX,
    ensures
        match spec_moved_ids(ids@, from_id, to_id) {
            None => r is None,
            Some(moved) => r matches Some(v) && v@.len() == moved.len() && forall|i: int|
                0 <= i < moved.len() ==> #[trigger] v@[i] == (moved[i], (moved.len() - i) as i64),
        },
{
    if from_id == to_id {
        return None;
    }
    let f = first_index(ids, from_id);
    let t = first_index(ids, to_id);
    if f >= ids.len() || t >= ids.len() {
        return None;
    }
    let mut moved: Vec<i64> = Vec::new();
    let mut k: usize = 0;
    while k < ids.len()
        invariant
            k <= ids.len(),
            moved@ == ids@.subrange(0, k as int),
        decreases ids.len() - k,
    {
        moved.push(ids[k]);
        assert(ids@.subrange(0, k + 1) =~= ids@.subrange(0, k as int).push(ids@[k as int]));
        k += 1;
    }
    assert(ids@.subrange(0, ids.len() as int) =~= ids@);
    let item = moved.remove(f);
    moved.insert(t, item);
    let n = moved.len();
    let mut out: Vec<(i64, i64)> = Vec::new();
    let mut i: usize = 0;
    while i < n
        invariant
            i <= n == moved.len() <= i64::MAX,
            out@.len() == i,
            forall|j: int| 0 <= j < i ==> #[trigger] out@[j] == (moved@[j], (n - j) as i64),
        decreases n - i,
    {
        out.push((moved[i], (n - i) as i64));
        i += 1;
    }
    Some(out)
}

} // verus!
