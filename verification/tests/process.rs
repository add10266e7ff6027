use memory_cleaner::memory::MemoryStatus;
use memory_cleaner::process::{
    has_sibling_process, is_picker_hidden_process, is_process_excluded, is_process_running,
    list_processes_for_exclusion_picker, matching_process_ids, normalize_process_name,
    process_picker_detail, working_set_targets, PickerDetail, ProcessPickerEntry, ProcessSnapshotEntry,
};

fn entry(pid: u32, name: &str, ws: Option<u64>) -> ProcessSnapshotEntry {
    let mut exe_file: Vec<u16> = name.encode_utf16().collect();
    exe_file.push(0);
    exe_file.extend([0x41u16, 0x42]);
    ProcessSnapshotEntry { pid, exe_file, working_set_bytes: ws }
}

#[test]
fn normalize_process_name_strips_exe_and_whitespace() {
    assert_eq!(normalize_process_name(" Chrome.EXE "), "chrome");
    assert_eq!(normalize_process_name("firefox"), "firefox");
}

#[test]
fn is_process_excluded_matches_case_insensitive_base_names() {
    let excluded = vec!["chrome".to_string()];
    assert!(is_process_excluded("Chrome.exe", &excluded));
    assert!(!is_process_excluded("firefox", &excluded));
}

#[test]
fn is_picker_hidden_process_matches_system_entries() {
    assert!(is_picker_hidden_process("[systemprocess]"));
    assert!(is_picker_hidden_process("systemidleprocess"));
    assert!(!is_picker_hidden_process("chrome"));
}

#[test]
fn process_picker_entry_memory_display() {
    let unknown = ProcessPickerEntry {
        name: "lsass".to_string(),
        instance_count: 1,
        working_set_bytes: 0,
        memory_readable_count: 0,
    };
    assert_eq!(unknown.memory_display(), None);

    let readable = ProcessPickerEntry {
        name: "chrome".to_string(),
        instance_count: 2,
        working_set_bytes: 512 * 1024 * 1024,
        memory_readable_count: 2,
    };
    assert_eq!(
        readable.memory_display(),
        Some(MemoryStatus::format_bytes(readable.working_set_bytes))
    );
}

#[test]
fn normalize_removes_inner_whitespace_and_one_exe() {
    assert_eq!(normalize_process_name("My App .Exe"), "myapp");
    assert_eq!(normalize_process_name("a.exe.exe"), "a.exe");
    assert_eq!(normalize_process_name("ÄBC.exe"), "Äbc");
    assert_eq!(normalize_process_name(".exe"), "");
}

#[test]
fn picker_aggregates_sorted_distinct_names() {
    let snapshot = vec![
        entry(1, "[System Process]", Some(0)),
        entry(2, "Zed.exe", Some(100)),
        entry(3, "chrome.exe", Some(300)),
        entry(4, "Chrome.EXE", None),
        entry(5, "cleaner.exe", Some(50)),
        entry(6, "chrome.exe", Some(200)),
        entry(7, "steam.exe", Some(1)),
        entry(8, "", Some(1)),
    ];
    let excluded = vec!["steam".to_string()];
    let picker = list_processes_for_exclusion_picker("Cleaner.exe", &excluded, &snapshot);
    assert_eq!(
        picker,
        vec![
            ProcessPickerEntry {
                name: "chrome".into(),
                instance_count: 3,
                working_set_bytes: 500,
                memory_readable_count: 2,
            },
            ProcessPickerEntry {
                name: "zed".into(),
                instance_count: 1,
                working_set_bytes: 100,
                memory_readable_count: 1,
            },
        ]
    );
}

#[test]
fn picker_working_sets_saturate() {
    let snapshot = vec![entry(1, "big.exe", Some(u64::MAX)), entry(2, "big.exe", Some(5))];
    let picker = list_processes_for_exclusion_picker("me", &[], &snapshot);
    assert_eq!(picker.len(), 1);
    assert_eq!(picker[0].working_set_bytes, u64::MAX);
    assert_eq!(picker[0].instance_count, 2);
}

#[test]
fn sibling_and_running_checks_match_exact_exe_names() {
    let snapshot = vec![entry(10, "MemoryCleaner.exe", None), entry(11, "other.exe", None)];
    assert!(!has_sibling_process(10, "MemoryCleaner.exe", &snapshot));
    assert!(has_sibling_process(99, "MemoryCleaner.exe", &snapshot));
    assert!(is_process_running("other.exe", &snapshot));
    assert!(!is_process_running("Other.exe", &snapshot));
    assert!(!is_process_running("other", &snapshot));
}

#[test]
fn process_ids_by_name_and_working_set_targets() {
    let snapshot = vec![
        entry(1, "a.exe", None),
        entry(2, "b.exe", None),
        entry(3, "a.exe", None),
    ];
    assert_eq!(matching_process_ids("a.exe", &snapshot), vec![1, 3]);
    assert_eq!(working_set_targets(&["a".to_string()], &snapshot), vec![2]);
}

#[test]
fn picker_detail_counts_instances_and_shows_memory() {
    let single = ProcessPickerEntry {
        name: "lsass".to_string(),
        instance_count: 1,
        working_set_bytes: 0,
        memory_readable_count: 0,
    };
    assert_eq!(process_picker_detail(&single), PickerDetail { instances: None, memory: None });
    let several = ProcessPickerEntry {
        name: "chrome".to_string(),
        instance_count: 3,
        working_set_bytes: 512 * 1024 * 1024,
        memory_readable_count: 2,
    };
    assert_eq!(
        process_picker_detail(&several),
        PickerDetail { instances: Some(3), memory: Some("512.00 MB".to_string()) }
    );
}
