use memory_cleaner::startup::{
    elevation_relaunch_args, is_startup_launch, is_task_not_found, schtasks_create_arguments,
    schtasks_delete_arguments, schtasks_exit_result, set_enabled, delete_task_after_lookup, task_trigger_value, StartupStep,
    ELEVATED_ARG, STARTUP_ARG, TASK_NAME, TASK_NOT_FOUND_HRESULT,
};

const EXE: &str = "C:\\Program Files\\Memory Cleaner\\MemoryCleaner.exe";

#[test]
fn task_trigger_value_quotes_exe_and_appends_startup_flag() {
    let trigger = task_trigger_value(EXE);
    assert_eq!(trigger, format!("\"{}\" {STARTUP_ARG}", EXE));
}

#[test]
fn create_arguments_escape_inner_quotes_for_tr_value() {
    let arguments = schtasks_create_arguments(EXE);
    assert!(arguments.contains("/SC ONLOGON"));
    assert!(arguments.contains("/RL HIGHEST"));
    assert!(arguments.contains(&format!("/TN \"{TASK_NAME}\"")));
    assert!(arguments.contains("\\\""));
    assert!(arguments.ends_with(format!("{STARTUP_ARG}\"").as_str()));
}

#[test]
fn task_query_only_treats_missing_task_as_absent() {
    assert!(is_task_not_found(TASK_NOT_FOUND_HRESULT));
    assert!(!is_task_not_found(0x8007_0005_u32 as i32));
}

#[test]
fn create_arguments_exact_text() {
    assert_eq!(
        schtasks_create_arguments("C:\\a b\\x.exe"),
        "/Create /F /SC ONLOGON /RL HIGHEST /TN \"MemoryCleaner_Autostart\" /TR \"\\\"C:\\a b\\x.exe\\\" --startup\""
    );
    assert_eq!(schtasks_delete_arguments(), "/Delete /F /TN \"MemoryCleaner_Autostart\"");
}

#[test]
fn relaunch_keeps_startup_mode() {
    let plain = vec!["app.exe".to_string()];
    let startup = vec!["app.exe".to_string(), STARTUP_ARG.to_string()];
    assert!(!is_startup_launch(&plain));
    assert!(is_startup_launch(&startup));
    assert_eq!(elevation_relaunch_args(&plain), ELEVATED_ARG);
    assert_eq!(elevation_relaunch_args(&startup), "--elevated --startup");
}

#[test]
fn enable_and_disable_plans() {
    let on = set_enabled(true, "x.exe");
    assert_eq!(on.len(), 2);
    match &on[0] {
        StartupStep::CreateTask { arguments } => assert_eq!(arguments, &schtasks_create_arguments("x.exe")),
        other => panic!("unexpected {other:?}"),
    }
    assert!(matches!(on[1], StartupStep::DeleteLegacyRunValue));
    let off = set_enabled(false, "x.exe");
    match &off[0] {
        StartupStep::DeleteTaskIfPresent { arguments } => assert_eq!(arguments, &schtasks_delete_arguments()),
        other => panic!("unexpected {other:?}"),
    }
    assert!(matches!(off[1], StartupStep::DeleteLegacyRunValue));
}

#[test]
fn schtasks_exit_codes() {
    assert_eq!(schtasks_exit_result("create", 0), Ok(()));
    assert_eq!(
        schtasks_exit_result("create", 1),
        Err("schtasks create failed with exit code 1".to_string())
    );
    assert_eq!(
        schtasks_exit_result("delete", -2147024891),
        Err("schtasks delete failed with exit code -2147024891".to_string())
    );
    assert_eq!(
        schtasks_exit_result("delete", i32::MIN),
        Err(format!("schtasks delete failed with exit code {}", i32::MIN))
    );
}

#[test]
fn delete_step_follows_the_task_lookup() {
    assert_eq!(delete_task_after_lookup(Ok(())), Ok(true));
    assert_eq!(delete_task_after_lookup(Err(TASK_NOT_FOUND_HRESULT)), Ok(false));
    let access_denied = 0x8007_0005_u32 as i32;
    assert_eq!(delete_task_after_lookup(Err(access_denied)), Err(access_denied));
}
