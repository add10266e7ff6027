//! The texts that report a cleanup: the memory it freed and its outcome.
//!
//! The outcome is returned as a message kind with its arguments; the host
//! looks its wording up in the active locale's translations.

use vstd::prelude::*;
use crate::locale::{list_separator, spec_list_separator};
use crate::memory::{MemoryStatus, spec_format_bytes};
use crate::text::{push_str, spec_join, string_push};

verus! {

/// `+` and the size gained, when available memory grew; empty otherwise.
pub open spec fn spec_freed_message(avail_before: u64, avail_after: u64) -> Seq<char> {
    if avail_after > avail_before {
        seq!['+'] + spec_format_bytes((avail_after - avail_before) as u64)
    } else {
        seq![]
    }
}

pub fn format_freed_message(avail_before: u64, avail_after: u64) -> (r: String)
    ensures
        r@ == spec_freed_message(avail_before, avail_after),
{
    if avail_after > avail_before {
        let mut out = String::new();
        string_push(&mut out, '+');
        let size = MemoryStatus::format_bytes(avail_after - avail_before);
        push_str(&mut out, size.as_str());
        out
    } else {
        String::new()
    }
}

/// The freed text measures the memory gained, not where it ended: it is `+`
/// and the size of the gain when available memory grew, nothing otherwise,
/// and moving both readings by the same amount leaves it unchanged.
pub proof fn lemma_freed_message_is_the_gain(avail_before: u64, avail_after: u64, shift: u64)
    requires
        avail_before + shift <= u64::MAX,
        avail_after + shift <= u64::MAX,
    ensures
        avail_after > avail_before ==> spec_freed_message(avail_before, avail_after) == seq!['+']
            + spec_format_bytes((avail_after - avail_before) as u64),
        avail_after <= avail_before ==> spec_freed_message(avail_before, avail_after).len() == 0,
        spec_freed_message((avail_before + shift) as u64, (avail_after + shift) as u64)
            == spec_freed_message(avail_before, avail_after),
{
}

/// The cleanup effect: the freed size and the memory-pressure change (already
/// worded for the active locale), joined by ` · `; just the pressure change
/// when nothing was freed.
pub fn format_cleanup_effect(avail_before: u64, avail_after: u64, pressure_change: &str) -> (r: String)
    ensures
        r@ == (if avail_after > avail_before {
            spec_freed_message(avail_before, avail_after) + " · "@ + pressure_change@
        } else {
            pressure_change@
        }),
{
    let freed = format_freed_message(avail_before, avail_after);
    if freed.as_str().is_empty() {
        return pressure_change.to_owned();
    }
    let mut out = freed;
    push_str(&mut out, " · ");
    push_str(&mut out, pressure_change);
    out
}

/// The outcome of a cleanup run, by the translation key that words it.
#[derive(Debug, Clone)]
pub enum CleanupResultMessage {
    /// `cleanup.none`: nothing ran.
    NothingDone,
    /// `cleanup.failed`: every step failed.
    Failed { errors: String },
    /// `cleanup.completed`: every step succeeded.
    Completed { count: usize },
    /// `cleanup.completed_detail`: every step succeeded, with the freed size.
    CompletedDetail { detail: String },
    /// `cleanup.partial`: some steps failed.
    Partial { count: usize, errors: String },
    /// `cleanup.partial_detail`: some steps failed, with the freed size.
    PartialDetail { count: usize, errors: String, detail: String },
}

impl CleanupResultMessage {
    /// The translation key of this message.
    pub fn key(&self) -> (r: &'static str)
        ensures
            r@ == spec_message_key(*self),
    {
        match self {
            CleanupResultMessage::NothingDone => "cleanup.none",
            CleanupResultMessage::Failed { .. } => "cleanup.failed",
            CleanupResultMessage::Completed { .. } => "cleanup.completed",
            CleanupResultMessage::CompletedDetail { .. } => "cleanup.completed_detail",
            CleanupResultMessage::Partial { .. } => "cleanup.partial",
            CleanupResultMessage::PartialDetail { .. } => "cleanup.partial_detail",
        }
    }
}

pub open spec fn spec_message_key(m: CleanupResultMessage) -> Seq<char> {
    match m {
        CleanupResultMessage::NothingDone => "cleanup.none"@,
        CleanupResultMessage::Failed { .. } => "cleanup.failed"@,
        CleanupResultMessage::Completed { .. } => "cleanup.completed"@,
        CleanupResultMessage::CompletedDetail { .. } => "cleanup.completed_detail"@,
        CleanupResultMessage::Partial { .. } => "cleanup.partial"@,
        CleanupResultMessage::PartialDetail { .. } => "cleanup.partial_detail"@,
    }
}

pub open spec fn spec_str_views(s: Seq<&str>) -> Seq<Seq<char>> {
    s.map_values(|x: &str| x@)
}

/// `m` reports completed steps `completed`, failed steps `errors` (listed with
/// `sep`) and the freed size `detail` (empty when nothing was freed).
pub open spec fn spec_result_message(
    m: CleanupResultMessage,
    completed: Seq<Seq<char>>,
    errors: Seq<Seq<char>>,
    detail: Seq<char>,
    sep: Seq<char>,
) -> bool {
    let listed = spec_join(errors, sep);
    if completed.len() == 0 && errors.len() == 0 {
        m is NothingDone
    } else if completed.len() == 0 {
        m matches CleanupResultMessage::Failed { errors: e } && e@ == listed
    } else if errors.len() == 0 {
        if detail.len() == 0 {
            m matches CleanupResultMessage::Completed { count } && count == completed.len()
        } else {
            m matches CleanupResultMessage::CompletedDetail { detail: d } && d@ == detail
        }
    } else if detail.len() == 0 {
        m matches CleanupResultMessage::Partial { count, errors: e } && count == completed.len() && e@
            == listed
    } else {
        m matches CleanupResultMessage::PartialDetail { count, errors: e, detail: d } && count
            == completed.len() && e@ == listed && d@ == detail
    }
}

fn join_strs(parts: &[&str], sep: &str) -> (r: String)
    ensures
        r@ == spec_join(spec_str_views(parts@), sep@),
{
    let ghost v = spec_str_views(parts@);
    let mut out = String::new();
    let mut i: usize = 0;
    while i < parts.len()
        invariant
            i <= parts.len(),
            v == spec_str_views(parts@),
            out@ == spec_join(v.take(i as int), sep@),
        decreases parts.len() - i,
    {
        assert(v.take(i + 1).drop_last() =~= v.take(i as int));
        assert(v.take(i + 1).last() == parts@[i as int]@);
        if i > 0 {
            push_str(&mut out, sep);
        }
        push_str(&mut out, parts[i]);
        proof {
            if i == 0 {
                assert(v.take(1) =~= seq![v[0]]);
                assert(out@ =~= v.take(1)[0]);
            }
        }
        i += 1;
    }
    assert(v.take(parts.len() as int) =~= v);
    out
}

/// The outcome message of a cleanup, listing failed steps with `separator`.
pub fn cleanup_result_message(completed: &[&str], errors: &[&str], freed_detail: &str, separator: &str) -> (r:
    CleanupResultMessage)
    ensures
        spec_result_message(
            r,
            spec_str_views(completed@),
            spec_str_views(errors@),
            freed_detail@,
            separator@,
        ),
{
    let no_completed = completed.len() == 0;
    let no_errors = errors.len() == 0;
    if no_completed && no_errors {
        CleanupResultMessage::NothingDone
    } else if no_completed {
        CleanupResultMessage::Failed { errors: join_strs(errors, separator) }
    } else if no_errors {
        if freed_detail.is_empty() {
            CleanupResultMessage::Completed { count: completed.len() }
        } else {
            CleanupResultMessage::CompletedDetail { detail: freed_detail.to_owned() }
        }
    } else if freed_detail.is_empty() {
        CleanupResultMessage::Partial { count: completed.len(), errors: join_strs(errors, separator) }
    } else {
        CleanupResultMessage::PartialDetail {
            count: completed.len(),
            errors: join_strs(errors, separator),
            detail: freed_detail.to_owned(),
        }
    }
}

/// The outcome message of a cleanup, listing failed steps with the active
/// locale's list separator.
pub fn build_cleanup_result_message(completed: &[&str], errors: &[&str], freed_detail: &str) -> (r:
    CleanupResultMessage)
    ensures
        exists|locale: Seq<char>|
            spec_result_message(
                r,
                spec_str_views(completed@),
                spec_str_views(errors@),
                freed_detail@,
                #[trigger] spec_list_separator(locale),
            ),
{
    let separator = list_separator();
    cleanup_result_message(completed, errors, freed_detail, separator)
}

} // verus!
