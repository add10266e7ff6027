use memory_cleaner::commands::{dispatch_command, handle_tray_action, TrayCommand, TrayHostAction, WindowTrayAction};

#[test]
fn dispatch_command_refreshes_tooltip_without_quitting() {
    let action = dispatch_command(&TrayCommand::RefreshTooltip);
    assert_eq!(action, TrayHostAction::RefreshTooltip);
    assert!(!action.quits());
}

#[test]
fn dispatch_command_applies_spin_frame_without_quitting() {
    let action = dispatch_command(&TrayCommand::SetSpinFrame(1));
    assert_eq!(action, TrayHostAction::ApplySpinFrame(1));
    assert!(!action.quits());
}

#[test]
fn dispatch_command_quits_on_menu_quit() {
    assert!(dispatch_command(&TrayCommand::MenuAction("quit".into())).quits());
}

#[test]
fn dispatch_menu_items() {
    assert_eq!(dispatch_command(&TrayCommand::MenuAction("optimize".into())), TrayHostAction::SpawnOptimize);
    assert_eq!(
        dispatch_command(&TrayCommand::MenuAction("toggle_window".into())),
        TrayHostAction::ToggleGuiWindow
    );
    assert_eq!(dispatch_command(&TrayCommand::MenuAction("other".into())), TrayHostAction::Ignore);
    assert_eq!(dispatch_command(&TrayCommand::Optimize), TrayHostAction::SpawnOptimize);
    assert_eq!(dispatch_command(&TrayCommand::ActivateWindow), TrayHostAction::ActivateGui);
}

#[test]
fn window_tray_actions() {
    assert_eq!(handle_tray_action("optimize", true), WindowTrayAction::RunOptimize);
    assert_eq!(handle_tray_action("toggle_window", true), WindowTrayAction::HideToTray);
    assert_eq!(handle_tray_action("toggle_window", false), WindowTrayAction::ActivateWindow);
    assert_eq!(handle_tray_action("quit", false), WindowTrayAction::SaveAndQuit);
    assert_eq!(handle_tray_action("?", false), WindowTrayAction::Ignore);
}
