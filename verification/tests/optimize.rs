use memory_cleaner::nt::{nt_status_to_result, InfoClass, SystemFileCacheInformation64, SystemMemoryListCommand};
use memory_cleaner::optimize::{
    step_plan, MemoryAreas, OptimizeAction, OptimizeError, WorkingSetRequest, ALL_AREAS_BITS,
    MODIFIED_FILE_CACHE_BIT, REGISTRY_CACHE_BIT, STANDBY_LIST_BIT, STANDBY_LIST_LOW_PRIORITY_BIT,
    WORKING_SET_BIT,
};

#[test]
fn step_plan_rejects_empty_selection() {
    assert!(step_plan(MemoryAreas::empty(), &[]).is_err());
    assert_eq!(step_plan(MemoryAreas::empty(), &[]).err(), Some(OptimizeError::NoAreasSelected));
}

#[test]
fn step_plan_keeps_the_fixed_area_order() {
    let areas = MemoryAreas::from_bits_truncate(MODIFIED_FILE_CACHE_BIT | WORKING_SET_BIT);
    let plan = step_plan(areas, &[]).expect("plan");
    let keys: Vec<&str> = plan.iter().map(|step| step.area.label_key()).collect();
    assert_eq!(keys, vec!["area.working_set", "area.modified_file_cache"]);
    assert_eq!(plan[1].action, OptimizeAction::ModifiedFileCache);
}

#[test]
fn every_area_has_one_step() {
    let plan = step_plan(MemoryAreas::all(), &["chrome".to_string()]).expect("plan");
    assert_eq!(plan.len(), 8);
    match &plan[0].action {
        OptimizeAction::WorkingSet(WorkingSetRequest::PerProcess { privilege, excluded }) => {
            assert_eq!(*privilege, "SeDebugPrivilege");
            assert_eq!(excluded, &vec!["chrome".to_string()]);
        }
        other => panic!("unexpected {other:?}"),
    }
    match &plan[3].action {
        OptimizeAction::MemoryList(req) => assert_eq!(req.command, SystemMemoryListCommand::PurgeStandbyList),
        other => panic!("unexpected {other:?}"),
    }
    match &plan[4].action {
        OptimizeAction::MemoryList(req) => {
            assert_eq!(req.command, SystemMemoryListCommand::PurgeLowPriorityStandbyList)
        }
        other => panic!("unexpected {other:?}"),
    }
    assert_eq!(plan[7].action, OptimizeAction::RegistryCache);
}

#[test]
fn memory_area_set_operations() {
    let mut areas = MemoryAreas::from_bits_truncate(0xFFFF);
    assert_eq!(areas.bits(), ALL_AREAS_BITS);
    areas.remove(MemoryAreas::from_bits_truncate(STANDBY_LIST_LOW_PRIORITY_BIT));
    assert!(!areas.contains(MemoryAreas::from_bits_truncate(STANDBY_LIST_LOW_PRIORITY_BIT)));
    assert!(areas.contains(MemoryAreas::from_bits_truncate(STANDBY_LIST_BIT)));
    let mut none = MemoryAreas::empty();
    assert!(none.is_empty());
    none.insert(MemoryAreas::from_bits_truncate(REGISTRY_CACHE_BIT));
    assert_eq!(none.bits(), REGISTRY_CACHE_BIT);
    assert_eq!(none.label_key(), "area.registry_cache");
    assert_eq!(MemoryAreas::from_bits_truncate(3).label_key(), "area.unknown");
}

#[test]
fn native_codes() {
    assert_eq!(InfoClass::MemoryList.code(), 80);
    assert_eq!(SystemMemoryListCommand::PurgeLowPriorityStandbyList.code(), 5);
    let request = SystemFileCacheInformation64::flush_request();
    assert_eq!(request.minimum_working_set, usize::MAX);
    assert_eq!(request.current_size, 0);
}

#[test]
fn nt_status_interpretation() {
    assert_eq!(nt_status_to_result(0, "x"), Ok(()));
    assert_eq!(nt_status_to_result(0x103, "x"), Ok(()));
    assert_eq!(
        nt_status_to_result(0xC000_0061_u32 as i32, "Standby List"),
        Err("Standby List: NTSTATUS 0xC0000061".to_string())
    );
}

fn plan_label_keys(areas: MemoryAreas) -> Vec<&'static str> {
    step_plan(areas, &[]).expect("plan").into_iter().map(|step| step.area.label_key()).collect()
}

#[test]
fn step_plan_preserves_optimize_order_zh() {
    let areas = MemoryAreas::from_bits_truncate(MODIFIED_FILE_CACHE_BIT | WORKING_SET_BIT);
    assert_eq!(plan_label_keys(areas), vec!["area.working_set", "area.modified_file_cache"]);
}

#[test]
fn step_plan_preserves_optimize_order_en() {
    let areas = MemoryAreas::from_bits_truncate(WORKING_SET_BIT | MODIFIED_FILE_CACHE_BIT);
    assert_eq!(plan_label_keys(areas), vec!["area.working_set", "area.modified_file_cache"]);
}

#[test]
fn memory_area_labels_are_stable_zh() {
    assert_eq!(MemoryAreas::from_bits_truncate(WORKING_SET_BIT).label_key(), "area.working_set");
    assert_eq!(MemoryAreas::from_bits_truncate(REGISTRY_CACHE_BIT).label_key(), "area.registry_cache");
}

#[test]
fn memory_area_labels_are_stable_en() {
    assert_eq!(MemoryAreas::from_bits_truncate(WORKING_SET_BIT).label_key(), "area.working_set");
    assert_eq!(MemoryAreas::from_bits_truncate(REGISTRY_CACHE_BIT).label_key(), "area.registry_cache");
}
