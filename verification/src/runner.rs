//! A cleanup run as the tray host performs it: whether it may start, its
//! steps, and the result it reports.

use vstd::prelude::*;
use crate::messages::{
    CleanupResultMessage, build_cleanup_result_message, format_freed_message, spec_freed_message,
    spec_result_message, spec_str_views,
};
use crate::locale::spec_list_separator;
use crate::optimize::{MemoryAreas, OptimizeStep, spec_action_matches, spec_plan_bits,
    spec_strings_view, step_plan};

verus! {

/// The outcome of a cleanup run.
#[derive(Debug, Clone)]
pub struct OptimizeRunResult {
    pub completed: Vec<String>,
    pub errors: Vec<String>,
    pub freed_detail: String,
    pub status_message: String,
    pub has_errors: bool,
}

impl OptimizeRunResult {
    /// A run that did not start, with the message saying why.
    pub fn not_started(status_message: String) -> (r: Self)
        ensures
            r.completed@.len() == 0,
            r.errors@.len() == 0,
            r.freed_detail@.len() == 0,
            r.status_message == status_message,
            !r.has_errors,
    {
        OptimizeRunResult {
            completed: Vec::new(),
            errors: Vec::new(),
            freed_detail: String::new(),
            status_message,
            has_errors: false,
        }
    }

    /// A finished run; it has errors when some step failed.
    pub fn finished(
        completed: Vec<String>,
        errors: Vec<String>,
        freed_detail: String,
        status_message: String,
    ) -> (r: Self)
        ensures
            r.completed == completed,
            r.errors == errors,
            r.freed_detail == freed_detail,
            r.status_message == status_message,
            r.has_errors == (errors@.len() > 0),
    {
        let has_errors = errors.len() > 0;
        OptimizeRunResult { completed, errors, freed_detail, status_message, has_errors }
    }
}

/// Why a cleanup run did not start.
#[derive(Debug, Clone, Copy, PartialEq, Eq, Structural)]
pub enum RunBlocked {
    /// Another cleanup holds the system-wide lock.
    AlreadyRunning,
    /// No memory area is selected.
    NothingSelected,
}

impl RunBlocked {
    /// The translation key of the status message.
    pub fn message_key(self) -> (r: &'static str)
        ensures
            self is AlreadyRunning ==> r@ == "optimize.already_running"@,
            self is NothingSelected ==> r@ == "tooltip.select_areas"@,
    {
        match self {
            RunBlocked::AlreadyRunning => "optimize.already_running",
            RunBlocked::NothingSelected => "tooltip.select_areas",
        }
    }
}

/// The steps of a cleanup run, once the run lock was tried: none without the
/// lock or without a selected area.
pub fn prepare_run(lock_acquired: bool, areas: MemoryAreas, excluded: &[String]) -> (r: Result<
    Vec<OptimizeStep>,
    RunBlocked,
>)
    ensures
        !lock_acquired ==> r == Err::<Vec<OptimizeStep>, RunBlocked>(RunBlocked::AlreadyRunning),
        lock_acquired && spec_plan_bits(areas@, 8).len() == 0 ==> r == Err::<
            Vec<OptimizeStep>,
            RunBlocked,
        >(RunBlocked::NothingSelected),
        lock_acquired && spec_plan_bits(areas@, 8).len() > 0 ==> (r matches Ok(steps) && steps@.len()
            == spec_plan_bits(areas@, 8).len() && forall|i: int|
            0 <= i < steps@.len() ==> (#[trigger] steps@[i]).area@ == spec_plan_bits(areas@, 8)[i]
                && spec_action_matches(steps@[i].area@, steps@[i].action, spec_strings_view(excluded@))),
{
    if !lock_acquired {
        return Err(RunBlocked::AlreadyRunning);
    }
    match step_plan(areas, excluded) {
        Ok(steps) => {
            if steps.len() == 0 {
                Err(RunBlocked::NothingSelected)
            } else {
                Ok(steps)
            }
        },
        Err(_) => {
            proof {
                assert(spec_plan_bits(0, 8).len() == 0) by {
                    reveal_with_fuel(spec_plan_bits, 9);
                    assert(0u32 & 1 == 0 && 0u32 & 2 == 0 && 0u32 & 4 == 0 && 0u32 & 8 == 0 && 0u32 & 16 == 0
                        && 0u32 & 32 == 0 && 0u32 & 64 == 0 && 0u32 & 128 == 0) by (bit_vector);
                }
            }
            Err(RunBlocked::NothingSelected)
        },
    }
}

/// The freed size and the outcome message of a finished run. The memory
/// available afterwards counts as unchanged when it could not be read.
pub fn run_outcome(completed: &[&str], errors: &[&str], avail_before: u64, avail_after: Option<u64>) -> (r: (
    String,
    CleanupResultMessage,
))
    ensures
        r.0@ == spec_freed_message(
            avail_before,
            match avail_after {
                Some(a) => a,
                None => avail_before,
            },
        ),
        exists|locale: Seq<char>|
            spec_result_message(
                r.1,
                spec_str_views(completed@),
                spec_str_views(errors@),
                r.0@,
                #[trigger] spec_list_separator(locale),
            ),
{
    let after = match avail_after {
        Some(a) => a,
        None => avail_before,
    };
    let freed = format_freed_message(avail_before, after);
    let message = build_cleanup_result_message(completed, errors, freed.as_str());
    (freed, message)
}

} // verus!
