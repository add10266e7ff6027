//! Single-instance guard names and the outcome of waking a running instance.
//!
//! The first instance holds a named mutex and watches an auto-reset event; a
//! second launch opens the event, sets it, and exits.

use vstd::prelude::*;

verus! {

pub const MUTEX_NAME: &'static str = "MemoryCleaner_{B8F3A7E2-4C1D-4F5A-9B6E-2D8C3F7A1E9B}";
pub const SHOW_EVENT_NAME: &'static str = "MemoryCleaner_{B8F3A7E2-4C1D-4F5A-9B6E-2D8C3F7A1E9B}_ShowWindow";
/// `HRESULT_FROM_WIN32(ERROR_ACCESS_DENIED)`.
pub const HRESULT_ACCESS_DENIED: i32 = -2147024891i32;

/// Outcome of trying to wake a possibly running instance.
#[derive(Debug, Clone, Copy, PartialEq, Eq, Structural)]
pub enum InstanceSignal {
    /// No running instance was detected; startup may continue.
    NotRunning,
    /// A running instance was signaled to show its window; this launch should exit.
    Signaled,
    /// An instance is running but cannot be signaled from this process
    /// (integrity-level mismatch before elevation).
    AccessDenied,
}

/// The outcome when the show event could not be opened, by the error's HRESULT.
pub fn signal_from_open_event_error(code: i32) -> (r: InstanceSignal)
    ensures
        r == (if code == HRESULT_ACCESS_DENIED {
            InstanceSignal::AccessDenied
        } else {
            InstanceSignal::NotRunning
        }),
{
    if code == HRESULT_ACCESS_DENIED {
        InstanceSignal::AccessDenied
    } else {
        InstanceSignal::NotRunning
    }
}

/// The outcome once the show event was opened, by whether setting it succeeded.
pub fn signal_from_set_event(set_ok: bool) -> (r: InstanceSignal)
    ensures
        r == (if set_ok {
            InstanceSignal::Signaled
        } else {
            InstanceSignal::AccessDenied
        }),
{
    if set_ok {
        InstanceSignal::Signaled
    } else {
        InstanceSignal::AccessDenied
    }
}

/// The show event's name is the mutex name followed by `_ShowWindow`.
pub proof fn lemma_show_event_name_derived_from_mutex_name()
    ensures
        SHOW_EVENT_NAME@ == MUTEX_NAME@ + "_ShowWindow"@,
{
    reveal_strlit("MemoryCleaner_{B8F3A7E2-4C1D-4F5A-9B6E-2D8C3F7A1E9B}");
    reveal_strlit("MemoryCleaner_{B8F3A7E2-4C1D-4F5A-9B6E-2D8C3F7A1E9B}_ShowWindow");
    reveal_strlit("_ShowWindow");
    assert(SHOW_EVENT_NAME@ =~= MUTEX_NAME@ + "_ShowWindow"@);
}

} // verus!
