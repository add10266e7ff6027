//! The memory areas a cleanup can target and the ordered plan of cleanup steps.

use vstd::prelude::*;
use crate::nt::SystemMemoryListCommand;

verus! {

/// A set of memory areas, one bit each.
#[derive(Clone, Copy, Debug, PartialEq, Eq, Structural)]
pub struct MemoryAreas {
    bits: u32,
}

pub const WORKING_SET_BIT: u32 = 1;
pub const SYSTEM_FILE_CACHE_BIT: u32 = 2;
pub const MODIFIED_PAGE_LIST_BIT: u32 = 4;
pub const STANDBY_LIST_BIT: u32 = 8;
pub const STANDBY_LIST_LOW_PRIORITY_BIT: u32 = 16;
pub const COMBINED_PAGE_LIST_BIT: u32 = 32;
pub const MODIFIED_FILE_CACHE_BIT: u32 = 64;
pub const REGISTRY_CACHE_BIT: u32 = 128;
/// Every defined area.
pub const ALL_AREAS_BITS: u32 = 255;
/// Working set, system file cache, standby list and combined page list.
pub const DEFAULT_AREAS_BITS: u32 = 43;

impl View for MemoryAreas {
    type V = u32;

    closed spec fn view(&self) -> u32 {
        self.bits
    }
}

impl MemoryAreas {
    pub fn bits(&self) -> (r: u32)
        ensures
            r == self@,
    {
        self.bits
    }

    pub fn empty() -> (r: Self)
        ensures
            r@ == 0,
    {
        MemoryAreas { bits: 0 }
    }

    pub fn all() -> (r: Self)
        ensures
            r@ == ALL_AREAS_BITS,
    {
        MemoryAreas { bits: ALL_AREAS_BITS }
    }

    /// The areas among `bits`; undefined bits are dropped.
    pub fn from_bits_truncate(bits: u32) -> (r: Self)
        ensures
            r@ == bits & ALL_AREAS_BITS,
    {
        MemoryAreas { bits: bits & ALL_AREAS_BITS }
    }

    pub fn is_empty(&self) -> (r: bool)
        ensures
            r == (self@ == 0),
    {
        self.bits == 0
    }

    /// Whether every area of `other` is in `self`.
    pub fn contains(&self, other: MemoryAreas) -> (r: bool)
        ensures
            r == (self@ & other@ == other@),
    {
        self.bits & other.bits == other.bits
    }

    pub fn insert(&mut self, other: MemoryAreas)
        ensures
            final(self)@ == old(self)@ | other@,
    {
        self.bits = self.bits | other.bits;
    }

    pub fn remove(&mut self, other: MemoryAreas)
        ensures
            final(self)@ == old(self)@ & !other@,
    {
        self.bits = self.bits & !other.bits;
    }

    pub fn union(self, other: MemoryAreas) -> (r: Self)
        ensures
            r@ == self@ | other@,
    {
        MemoryAreas { bits: self.bits | other.bits }
    }

    /// The i18n key of this area's display name.
    pub fn label_key(self) -> (r: &'static str)
        ensures
            r@ == spec_label_key(self@),
    {
        if self.bits == WORKING_SET_BIT {
            "area.working_set"
        } else if self.bits == SYSTEM_FILE_CACHE_BIT {
            "area.system_file_cache"
        } else if self.bits == MODIFIED_PAGE_LIST_BIT {
            "area.modified_page_list"
        } else if self.bits == STANDBY_LIST_BIT {
            "area.standby_list"
        } else if self.bits == STANDBY_LIST_LOW_PRIORITY_BIT {
            "area.standby_list_low_priority"
        } else if self.bits == COMBINED_PAGE_LIST_BIT {
            "area.combined_page_list"
        } else if self.bits == MODIFIED_FILE_CACHE_BIT {
            "area.modified_file_cache"
        } else if self.bits == REGISTRY_CACHE_BIT {
            "area.registry_cache"
        } else {
            "area.unknown"
        }
    }
}

pub open spec fn spec_label_key(bits: u32) -> Seq<char> {
    if bits == WORKING_SET_BIT {
        "area.working_set"@
    } else if bits == SYSTEM_FILE_CACHE_BIT {
        "area.system_file_cache"@
    } else if bits == MODIFIED_PAGE_LIST_BIT {
        "area.modified_page_list"@
    } else if bits == STANDBY_LIST_BIT {
        "area.standby_list"@
    } else if bits == STANDBY_LIST_LOW_PRIORITY_BIT {
        "area.standby_list_low_priority"@
    } else if bits == COMBINED_PAGE_LIST_BIT {
        "area.combined_page_list"@
    } else if bits == MODIFIED_FILE_CACHE_BIT {
        "area.modified_file_cache"@
    } else if bits == REGISTRY_CACHE_BIT {
        "area.registry_cache"@
    } else {
        "area.unknown"@
    }
}

/// The bit of the `i`-th cleanup step, in execution order.
pub open spec fn spec_step_bit(i: int) -> u32 {
    if i == 0 {
        WORKING_SET_BIT
    } else if i == 1 {
        SYSTEM_FILE_CACHE_BIT
    } else if i == 2 {
        MODIFIED_PAGE_LIST_BIT
    } else if i == 3 {
        STANDBY_LIST_BIT
    } else if i == 4 {
        STANDBY_LIST_LOW_PRIORITY_BIT
    } else if i == 5 {
        COMBINED_PAGE_LIST_BIT
    } else if i == 6 {
        MODIFIED_FILE_CACHE_BIT
    } else {
        REGISTRY_CACHE_BIT
    }
}

pub fn step_bit(i: usize) -> (r: u32)
    requires
        i < 8,
    ensures
        r == spec_step_bit(i as int),
{
    if i == 0 {
        WORKING_SET_BIT
    } else if i == 1 {
        SYSTEM_FILE_CACHE_BIT
    } else if i == 2 {
        MODIFIED_PAGE_LIST_BIT
    } else if i == 3 {
        STANDBY_LIST_BIT
    } else if i == 4 {
        STANDBY_LIST_LOW_PRIORITY_BIT
    } else if i == 5 {
        COMBINED_PAGE_LIST_BIT
    } else if i == 6 {
        MODIFIED_FILE_CACHE_BIT
    } else {
        REGISTRY_CACHE_BIT
    }
}

/// The bits of the steps among the first `k` that `areas` selects, in order.
pub open spec fn spec_plan_bits(areas: u32, k: int) -> Seq<u32>
    decreases k,
{
    if k <= 0 {
        Seq::empty()
    } else if areas & spec_step_bit(k - 1) == spec_step_bit(k - 1) {
        spec_plan_bits(areas, k - 1).push(spec_step_bit(k - 1))
    } else {
        spec_plan_bits(areas, k - 1)
    }
}

/// What a privileged system memory-list purge needs: the command, the privilege
/// to enable first, and the area's name for error context.
#[derive(Clone, Copy, Debug, PartialEq, Eq)]
pub struct PurgeRequest {
    pub command: SystemMemoryListCommand,
    pub privilege: &'static str,
    pub what: &'static str,
}

/// How the working set step runs.
#[derive(Clone, Debug, PartialEq, Eq)]
pub enum WorkingSetRequest {
    /// Empty every working set through the memory-list command.
    Purge(PurgeRequest),
    /// Empty each process's working set except the excluded base names,
    /// after enabling `privilege`.
    PerProcess { privilege: &'static str, excluded: Vec<String> },
}

/// One step of a cleanup run.
#[derive(Clone, Debug, PartialEq, Eq)]
pub enum OptimizeAction {
    WorkingSet(WorkingSetRequest),
    SystemFileCache,
    MemoryList(PurgeRequest),
    CombinedPageList,
    ModifiedFileCache,
    RegistryCache,
}

#[derive(Clone, Debug, PartialEq, Eq)]
pub struct OptimizeStep {
    pub area: MemoryAreas,
    pub action: OptimizeAction,
}

#[derive(Clone, Copy, Debug, PartialEq, Eq, Structural)]
pub enum OptimizeError {
    NoAreasSelected,
}

pub const PROFILE_PRIVILEGE: &'static str = "SeProfileSingleProcessPrivilege";
pub const DEBUG_PRIVILEGE: &'static str = "SeDebugPrivilege";

pub fn optimize_modified_page_list() -> (r: PurgeRequest)
    ensures
        r.command == SystemMemoryListCommand::FlushModifiedList,
        r.privilege@ == PROFILE_PRIVILEGE@,
        r.what@ == "Modified Page List"@,
{
    PurgeRequest {
        command: SystemMemoryListCommand::FlushModifiedList,
        privilege: PROFILE_PRIVILEGE,
        what: "Modified Page List",
    }
}

pub fn optimize_standby_list(low_priority: bool) -> (r: PurgeRequest)
    ensures
        r.command == (if low_priority {
            SystemMemoryListCommand::PurgeLowPriorityStandbyList
        } else {
            SystemMemoryListCommand::PurgeStandbyList
        }),
        r.privilege@ == PROFILE_PRIVILEGE@,
        r.what@ == "Standby List"@,
{
    let command = if low_priority {
        SystemMemoryListCommand::PurgeLowPriorityStandbyList
    } else {
        SystemMemoryListCommand::PurgeStandbyList
    };
    PurgeRequest { command, privilege: PROFILE_PRIVILEGE, what: "Standby List" }
}

pub open spec fn spec_strings_view(v: Seq<String>) -> Seq<Seq<char>> {
    v.map_values(|s: String| s@)
}

fn clone_strings(v: &[String]) -> (r: Vec<String>)
    ensures
        spec_strings_view(r@) == spec_strings_view(v@),
{
    let mut out: Vec<String> = Vec::new();
    let mut i: usize = 0;
    while i < v.len()
        invariant
            i <= v.len(),
            spec_strings_view(out@) == spec_strings_view(v@.subrange(0, i as int)),
        decreases v.len() - i,
    {
        let s = v[i].clone();
        out.push(s);
        assert(spec_strings_view(v@.subrange(0, i + 1)) =~= spec_strings_view(
            v@.subrange(0, i as int),
        ).push(v@[i as int]@));
        assert(spec_strings_view(out@) =~= spec_strings_view(
            v@.subrange(0, i as int),
        ).push(v@[i as int]@));
        i += 1;
    }
    assert(v@.subrange(0, v.len() as int) =~= v@);
    out
}

/// With no exclusions every working set is emptied at once; otherwise each
/// process is visited and the excluded ones are skipped.
pub fn optimize_working_set(excluded: &[String]) -> (r: WorkingSetRequest)
    ensures
        excluded@.len() == 0 ==> r == WorkingSetRequest::Purge(
            PurgeRequest {
                command: SystemMemoryListCommand::EmptyWorkingSets,
                privilege: PROFILE_PRIVILEGE,
                what: "Working Set",
            },
        ),
        excluded@.len() > 0 ==> (r matches WorkingSetRequest::PerProcess { privilege, excluded: ex }
            && privilege@ == DEBUG_PRIVILEGE@ && spec_strings_view(ex@) == spec_strings_view(excluded@)),
{
    if excluded.len() == 0 {
        WorkingSetRequest::Purge(
            PurgeRequest {
                command: SystemMemoryListCommand::EmptyWorkingSets,
                privilege: PROFILE_PRIVILEGE,
                what: "Working Set",
            },
        )
    } else {
        WorkingSetRequest::PerProcess { privilege: DEBUG_PRIVILEGE, excluded: clone_strings(excluded) }
    }
}

/// The step that cleans the area with bit `bit`.
pub open spec fn spec_action_matches(bit: u32, action: OptimizeAction, excluded: Seq<Seq<char>>) -> bool {
    if bit == WORKING_SET_BIT {
        &&& action matches OptimizeAction::WorkingSet(req)
        &&& excluded.len() == 0 ==> req == WorkingSetRequest::Purge(
            PurgeRequest {
                command: SystemMemoryListCommand::EmptyWorkingSets,
                privilege: PROFILE_PRIVILEGE,
                what: "Working Set",
            },
        )
        &&& excluded.len() > 0 ==> (req matches WorkingSetRequest::PerProcess { privilege, excluded: ex }
            && privilege@ == DEBUG_PRIVILEGE@ && spec_strings_view(ex@) == excluded)
    } else if bit == SYSTEM_FILE_CACHE_BIT {
        action == OptimizeAction::SystemFileCache
    } else if bit == MODIFIED_PAGE_LIST_BIT {
        action matches OptimizeAction::MemoryList(req) && req.command
            == SystemMemoryListCommand::FlushModifiedList && req.privilege@ == PROFILE_PRIVILEGE@
            && req.what@ == "Modified Page List"@
    } else if bit == STANDBY_LIST_BIT {
        action matches OptimizeAction::MemoryList(req) && req.command
            == SystemMemoryListCommand::PurgeStandbyList && req.privilege@ == PROFILE_PRIVILEGE@
            && req.what@ == "Standby List"@
    } else if bit == STANDBY_LIST_LOW_PRIORITY_BIT {
        action matches OptimizeAction::MemoryList(req) && req.command
            == SystemMemoryListCommand::PurgeLowPriorityStandbyList && req.privilege@
            == PROFILE_PRIVILEGE@ && req.what@ == "Standby List"@
    } else if bit == COMBINED_PAGE_LIST_BIT {
        action == OptimizeAction::CombinedPageList
    } else if bit == MODIFIED_FILE_CACHE_BIT {
        action == OptimizeAction::ModifiedFileCache
    } else {
        action == OptimizeAction::RegistryCache
    }
}

fn action_for(i: usize, excluded: &[String]) -> (r: OptimizeAction)
    requires
        i < 8,
    ensures
        spec_action_matches(spec_step_bit(i as int), r, spec_strings_view(excluded@)),
{
    if i == 0 {
        OptimizeAction::WorkingSet(optimize_working_set(excluded))
    } else if i == 1 {
        OptimizeAction::SystemFileCache
    } else if i == 2 {
        OptimizeAction::MemoryList(optimize_modified_page_list())
    } else if i == 3 {
        OptimizeAction::MemoryList(optimize_standby_list(false))
    } else if i == 4 {
        OptimizeAction::MemoryList(optimize_standby_list(true))
    } else if i == 5 {
        OptimizeAction::CombinedPageList
    } else if i == 6 {
        OptimizeAction::ModifiedFileCache
    } else {
        OptimizeAction::RegistryCache
    }
}

/// The cleanup steps for `areas`, in the fixed order working set, system file
/// cache, modified page list, standby list, low-priority standby list, combined

/// The single memory areas.
pub open spec fn spec_is_area_bit(bit: u32) -> bool {
    bit == WORKING_SET_BIT || bit == SYSTEM_FILE_CACHE_BIT || bit == MODIFIED_PAGE_LIST_BIT || bit
        == STANDBY_LIST_BIT || bit == STANDBY_LIST_LOW_PRIORITY_BIT || bit == COMBINED_PAGE_LIST_BIT || bit
        == MODIFIED_FILE_CACHE_BIT || bit == REGISTRY_CACHE_BIT
}

/// What each area's step does: the working sets are emptied, the modified
/// page list is flushed, the standby list and its low-priority part are
/// purged (each by its own memory-list command), and the file cache, the
/// combined pages, the volumes' modified data and the registry each have a
/// step of their own.
pub proof fn lemma_area_steps(bit: u32, action: OptimizeAction, excluded: Seq<Seq<char>>)
    requires
        spec_is_area_bit(bit),
        spec_action_matches(bit, action, excluded),
    ensures
        bit == WORKING_SET_BIT <==> action is WorkingSet,
        bit == WORKING_SET_BIT && excluded.len() == 0 ==> action == OptimizeAction::WorkingSet(
            WorkingSetRequest::Purge(
                PurgeRequest {
                    command: SystemMemoryListCommand::EmptyWorkingSets,
                    privilege: PROFILE_PRIVILEGE,
                    what: "Working Set",
                },
            ),
        ),
        bit == MODIFIED_PAGE_LIST_BIT ==> (action matches OptimizeAction::MemoryList(req) && req.command
            == SystemMemoryListCommand::FlushModifiedList && req.what@ == "Modified Page List"@),
        bit == STANDBY_LIST_BIT ==> (action matches OptimizeAction::MemoryList(req) && req.command
            == SystemMemoryListCommand::PurgeStandbyList),
        bit == STANDBY_LIST_LOW_PRIORITY_BIT ==> (action matches OptimizeAction::MemoryList(req)
            && req.command == SystemMemoryListCommand::PurgeLowPriorityStandbyList),
        bit == SYSTEM_FILE_CACHE_BIT <==> action is SystemFileCache,
        bit == COMBINED_PAGE_LIST_BIT <==> action is CombinedPageList,
        bit == MODIFIED_FILE_CACHE_BIT <==> action is ModifiedFileCache,
        bit == REGISTRY_CACHE_BIT <==> action is RegistryCache,
{
}

/// Different areas never get the same step: each memory-list command, and
/// each other kind of step, belongs to one area only.
pub proof fn lemma_distinct_areas_distinct_steps(
    b1: u32,
    b2: u32,
    a1: OptimizeAction,
    a2: OptimizeAction,
    excluded: Seq<Seq<char>>,
)
    requires
        spec_is_area_bit(b1),
        spec_is_area_bit(b2),
        spec_action_matches(b1, a1, excluded),
        spec_action_matches(b2, a2, excluded),
        b1 != b2,
    ensures
        a1 != a2,
        a1 is MemoryList && a2 is MemoryList ==> a1->MemoryList_0.command != a2->MemoryList_0.command,
{
}

/// In a cleanup plan, the step for the modified page list flushes it, and no
/// other step does.
pub proof fn lemma_plan_flushes_modified_list_once(
    areas: u32,
    steps: Seq<OptimizeStep>,
    excluded: Seq<Seq<char>>,
    i: int,
)
    requires
        steps.len() == spec_plan_bits(areas, 8).len(),
        forall|k: int|
            0 <= k < steps.len() ==> (#[trigger] steps[k]).area@ == spec_plan_bits(areas, 8)[k]
                && spec_action_matches(steps[k].area@, steps[k].action, excluded),
        0 <= i < steps.len(),
    ensures
        (steps[i].action matches OptimizeAction::MemoryList(req) && req.command
            == SystemMemoryListCommand::FlushModifiedList) <==> steps[i].area@ == MODIFIED_PAGE_LIST_BIT,
{
    lemma_plan_bits_are_areas(areas, 8);
    lemma_area_steps(steps[i].area@, steps[i].action, excluded);
}

proof fn lemma_plan_bits_are_areas(areas: u32, k: int)
    requires
        k <= 8,
    ensures
        forall|j: int| 0 <= j < spec_plan_bits(areas, k).len() ==> spec_is_area_bit(#[trigger] spec_plan_bits(areas, k)[j]),
    decreases k,
{
    if k > 0 {
        lemma_plan_bits_are_areas(areas, k - 1);
        let prev = spec_plan_bits(areas, k - 1);
        assert forall|j: int| 0 <= j < spec_plan_bits(areas, k).len() implies spec_is_area_bit(#[trigger] spec_plan_bits(areas, k)[j]) by {
            if j < prev.len() {
                assert(spec_plan_bits(areas, k)[j] == prev[j]);
            }
        }
    }
}

/// page list, modified file cache, registry cache. An empty selection is refused.
pub fn step_plan(areas: MemoryAreas, excluded_processes: &[String]) -> (r: Result<
    Vec<OptimizeStep>,
    OptimizeError,
>)
    ensures
        areas@ == 0 <==> r is Err,
        r matches Err(e) ==> e == OptimizeError::NoAreasSelected,
        r matches Ok(steps) ==> {
            &&& steps@.len() == spec_plan_bits(areas@, 8).len()
            &&& forall|i: int|
                0 <= i < steps@.len() ==> (#[trigger] steps@[i]).area@ == spec_plan_bits(areas@, 8)[i]
                    && spec_action_matches(
                    steps@[i].area@,
                    steps@[i].action,
                    spec_strings_view(excluded_processes@),
                )
        },
{
    if areas.is_empty() {
        return Err(OptimizeError::NoAreasSelected);
    }
    let mut steps: Vec<OptimizeStep> = Vec::new();
    let mut i: usize = 0;
    while i < 8
        invariant
            i <= 8,
            steps@.len() == spec_plan_bits(areas@, i as int).len(),
            forall|j: int|
                0 <= j < steps@.len() ==> (#[trigger] steps@[j]).area@ == spec_plan_bits(areas@, i as int)[j]
                    && spec_action_matches(
                    steps@[j].area@,
                    steps@[j].action,
                    spec_strings_view(excluded_processes@),
                ),
        decreases 8 - i,
    {
        let bit = step_bit(i);
        if areas.bits & bit == bit {
            let action = action_for(i, excluded_processes);
            steps.push(OptimizeStep { area: MemoryAreas { bits: bit }, action });
        }
        i += 1;
    }
    Ok(steps)
}

} // verus!
