use memory_cleaner::ipc::{
    connect_attempts, decode_message, encode_frame, encode_message, frame_payload_len, message_frame,
    ready_wait_signaled, session_after_message, tray_ready_wait_ms, GuiSession, IpcError, IpcMessage,
    TAG_SPIN_START, TRAY_READY_WAIT_MS,
};

#[test]
fn register_gui_payload_roundtrip() {
    let payload = encode_message(&IpcMessage::RegisterGui { pid: 4242, hwnd: 0x1234 });
    let decoded = decode_message(&payload).expect("decode");
    assert_eq!(decoded, IpcMessage::RegisterGui { pid: 4242, hwnd: 0x1234 });
}

#[test]
fn simple_ipc_tags_roundtrip() {
    for message in [
        IpcMessage::UnregisterGui,
        IpcMessage::SpinStart,
        IpcMessage::SpinStop,
        IpcMessage::SettingsChanged,
    ] {
        let payload = encode_message(&message);
        assert_eq!(decode_message(&payload).expect("decode"), message);
    }
}

#[test]
fn frame_length_prefix_is_little_endian() {
    let frame = encode_frame(&[TAG_SPIN_START]);
    assert_eq!(frame, vec![1, 0, 0, 0, TAG_SPIN_START]);
}

#[test]
fn negative_window_handles_roundtrip() {
    let message = IpcMessage::RegisterGui { pid: 1, hwnd: -2 };
    assert_eq!(decode_message(&encode_message(&message)), Ok(message));
}

#[test]
fn malformed_payloads_are_rejected() {
    assert_eq!(decode_message(&[]), Err(IpcError::EmptyPayload));
    assert_eq!(decode_message(&[9]), Err(IpcError::UnknownTag(9)));
    assert_eq!(decode_message(&[1, 2, 3]), Err(IpcError::InvalidRegisterGuiLength));
}

#[test]
fn oversized_frames_are_refused() {
    assert_eq!(frame_payload_len(&[0, 16, 0, 0]), Ok(4096));
    assert_eq!(frame_payload_len(&[1, 16, 0, 0]), Err(IpcError::FrameTooLarge(4097)));
}

#[test]
fn message_frame_is_length_then_payload() {
    assert_eq!(message_frame(&IpcMessage::SpinStop), vec![1, 0, 0, 0, 4]);
}

#[test]
fn tray_session_follows_register_and_unregister() {
    let session = session_after_message(None, &IpcMessage::RegisterGui { pid: 7, hwnd: 9 });
    assert_eq!(session, Some(GuiSession { pid: 7, hwnd: 9 }));
    assert_eq!(session_after_message(session, &IpcMessage::SpinStart), session);
    assert_eq!(session_after_message(session, &IpcMessage::UnregisterGui), None);
}

#[test]
fn writer_connection_timing() {
    assert_eq!(connect_attempts(15_000), 300);
    assert_eq!(connect_attempts(10), 1);
    assert_eq!(tray_ready_wait_ms(50), 50);
    assert_eq!(tray_ready_wait_ms(60_000), TRAY_READY_WAIT_MS);
    assert!(ready_wait_signaled(0));
    assert!(ready_wait_signaled(0x80));
    assert!(!ready_wait_signaled(0x102));
}
