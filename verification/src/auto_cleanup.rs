//! Auto-cleanup trigger policy for the configurable memory-usage threshold.
//! The OS low-memory notification is delivered by the host application.

use vstd::prelude::*;

verus! {

/// How often, in seconds, the auto-cleanup monitor re-evaluates its triggers.
pub const AUTO_CLEANUP_POLL_INTERVAL_SECS: u64 = 5;

/// Consecutive polls above the threshold required before a threshold cleanup
/// fires, so a transient spike does not trigger a cleanup.
pub const AUTO_CLEANUP_SUSTAINED_TICKS: u32 = 2;

/// Minimum spacing, in seconds, between threshold-triggered automatic cleanups.
pub const AUTO_CLEANUP_THRESHOLD_COOLDOWN_SECS: u64 = 600;

/// What requested an automatic cleanup; recorded in the debug log.
#[derive(Debug, Clone, Copy, PartialEq, Eq, Structural)]
pub enum AutoCleanupSource {
    LowMemoryNotification,
    Threshold,
}

impl AutoCleanupSource {
    pub fn log_label(self) -> (r: &'static str)
        ensures
            self is LowMemoryNotification ==> r@ == "Windows low-memory notification"@,
            self is Threshold ==> r@ == "memory usage threshold"@,
    {
        match self {
            AutoCleanupSource::LowMemoryNotification => "Windows low-memory notification",
            AutoCleanupSource::Threshold => "memory usage threshold",
        }
    }
}

/// Whether the threshold trigger should fire on this poll.
pub fn threshold_trigger_due(above_threshold_ticks: u32, cooldown_elapsed: bool) -> (r: bool)
    ensures
        r == (above_threshold_ticks >= AUTO_CLEANUP_SUSTAINED_TICKS && cooldown_elapsed),
{
    above_threshold_ticks >= AUTO_CLEANUP_SUSTAINED_TICKS && cooldown_elapsed
}

/// Whether a threshold cleanup may run, given the whole seconds elapsed since
/// its most recent automatic run. A first cleanup has no prior run to cool down from.
pub fn threshold_cooldown_elapsed(elapsed_since_cleanup_secs: Option<u64>) -> (r: bool)
    ensures
        r == match elapsed_since_cleanup_secs {
            None => true,
            Some(secs) => secs >= AUTO_CLEANUP_THRESHOLD_COOLDOWN_SECS,
        },
{
    match elapsed_since_cleanup_secs {
        None => true,
        Some(secs) => secs >= AUTO_CLEANUP_THRESHOLD_COOLDOWN_SECS,
    }
}

/// Whether an automatic cleanup may start: auto-cleanup is on, nothing else
/// is running, and some memory area is selected.
pub fn auto_cleanup_allowed(auto_cleanup_enabled: bool, busy: bool, areas_empty: bool) -> (r: bool)
    ensures
        r == (auto_cleanup_enabled && !busy && !areas_empty),
{
    auto_cleanup_enabled && !busy && !areas_empty
}

/// The consecutive-poll counter and the trigger after one poll of the threshold
/// trigger.
pub open spec fn spec_poll_threshold(
    auto_cleanup_enabled: bool,
    busy: bool,
    threshold: u32,
    memory_load: Option<u32>,
    above_threshold_ticks: u32,
    elapsed_since_cleanup_secs: Option<u64>,
) -> (u32, Option<AutoCleanupSource>) {
    if !auto_cleanup_enabled || busy {
        (above_threshold_ticks, None)
    } else if threshold == 0 {
        (0, None)
    } else {
        let load = match memory_load {
            Some(l) => l,
            None => 0,
        };
        let ticks: u32 = if load >= threshold {
            if above_threshold_ticks == u32::MAX {
                u32::MAX
            } else {
                (above_threshold_ticks + 1) as u32
            }
        } else {
            0
        };
        let cooldown = match elapsed_since_cleanup_secs {
            None => true,
            Some(secs) => secs >= AUTO_CLEANUP_THRESHOLD_COOLDOWN_SECS,
        };
        if ticks >= AUTO_CLEANUP_SUSTAINED_TICKS && cooldown {
            (0, Some(AutoCleanupSource::Threshold))
        } else {
            (ticks, None)
        }
    }
}

/// One poll of the threshold trigger: count consecutive polls at or above the
/// threshold (an unreadable memory load counts as 0), and fire once the
/// pressure is sustained and the cooldown has passed, restarting the count.
pub fn poll_threshold_trigger(
    auto_cleanup_enabled: bool,
    busy: bool,
    threshold: u32,
    memory_load: Option<u32>,
    above_threshold_ticks: u32,
    elapsed_since_cleanup_secs: Option<u64>,
) -> (r: (u32, Option<AutoCleanupSource>))
    ensures
        r == spec_poll_threshold(
            auto_cleanup_enabled,
            busy,
            threshold,
            memory_load,
            above_threshold_ticks,
            elapsed_since_cleanup_secs,
        ),
{
    if !auto_cleanup_enabled || busy {
        return (above_threshold_ticks, None);
    }
    if threshold == 0 {
        return (0, None);
    }
    let load = match memory_load {
        Some(l) => l,
        None => 0,
    };
    let ticks = if load >= threshold {
        above_threshold_ticks.saturating_add(1)
    } else {
        0
    };
    if threshold_trigger_due(ticks, threshold_cooldown_elapsed(elapsed_since_cleanup_secs)) {
        (0, Some(AutoCleanupSource::Threshold))
    } else {
        (ticks, None)
    }
}

/// A single poll above the threshold never fires: pressure must be sustained.
pub proof fn lemma_single_spike_does_not_trigger(
    threshold: u32,
    memory_load: Option<u32>,
    elapsed_since_cleanup_secs: Option<u64>,
)
    ensures
        spec_poll_threshold(true, false, threshold, memory_load, 0, elapsed_since_cleanup_secs).1 is None,
{
}

/// With the cooldown not yet passed, the threshold trigger never fires.
pub proof fn lemma_cooldown_blocks_trigger(
    threshold: u32,
    memory_load: Option<u32>,
    above_threshold_ticks: u32,
    secs: u64,
)
    requires
        secs < AUTO_CLEANUP_THRESHOLD_COOLDOWN_SECS,
    ensures
        spec_poll_threshold(true, false, threshold, memory_load, above_threshold_ticks, Some(secs)).1 is None,
{
}

} // verus!
