use memory_cleaner::instance::{
    signal_from_open_event_error, signal_from_set_event, InstanceSignal, HRESULT_ACCESS_DENIED,
    MUTEX_NAME, SHOW_EVENT_NAME,
};

#[test]
fn show_event_name_is_derived_from_mutex_name() {
    assert!(SHOW_EVENT_NAME.starts_with(MUTEX_NAME));
    assert!(SHOW_EVENT_NAME.ends_with("_ShowWindow"));
}

#[test]
fn access_denied_wake_signal_is_distinguished() {
    assert_eq!(signal_from_open_event_error(HRESULT_ACCESS_DENIED), InstanceSignal::AccessDenied);
    assert_eq!(
        signal_from_open_event_error(0x8007_0002_u32 as i32),
        InstanceSignal::NotRunning
    );
}

#[test]
fn set_event_outcome() {
    assert_eq!(HRESULT_ACCESS_DENIED, 0x8007_0005_u32 as i32);
    assert_eq!(signal_from_set_event(true), InstanceSignal::Signaled);
    assert_eq!(signal_from_set_event(false), InstanceSignal::AccessDenied);
}
