//! Commands delivered to the tray host and the main window, and what each one
//! asks them to do.

use vstd::prelude::*;
use crate::text::str_eq;

verus! {

/// A command for the tray host, from the tray menu, the hotkey, another
/// instance or the GUI.
#[derive(Debug, Clone)]
pub enum TrayCommand {
    ActivateWindow,
    RefreshTooltip,
    Optimize,
    /// A tray menu item, by its id.
    MenuAction(String),
    /// Show this frame (in quarter turns) of the busy icon.
    SetSpinFrame(u8),
}

/// What the tray host does for a command.
#[derive(Debug, Clone, Copy, PartialEq, Eq, Structural)]
pub enum TrayHostAction {
    /// Show the GUI, starting it when it is not running.
    ActivateGui,
    /// Re-read memory figures and update the tray tooltip.
    RefreshTooltip,
    /// Start a cleanup in the background.
    SpawnOptimize,
    /// Show or hide the GUI window.
    ToggleGuiWindow,
    /// Save the settings, ask the GUI to shut down, and exit.
    SaveAndQuit,
    /// Show this frame of the busy icon.
    ApplySpinFrame(u8),
    /// Nothing to do.
    Ignore,
}

impl TrayHostAction {
    /// Whether the tray host exits after this action.
    pub fn quits(&self) -> (r: bool)
        ensures
            r == (*self is SaveAndQuit),
    {
        match self {
            TrayHostAction::SaveAndQuit => true,
            _ => false,
        }
    }
}

/// The action for a tray menu item id.
pub open spec fn spec_menu_action(id: Seq<char>) -> TrayHostAction {
    if id == "optimize"@ {
        TrayHostAction::SpawnOptimize
    } else if id == "toggle_window"@ {
        TrayHostAction::ToggleGuiWindow
    } else if id == "quit"@ {
        TrayHostAction::SaveAndQuit
    } else {
        TrayHostAction::Ignore
    }
}

pub open spec fn spec_dispatch(command: TrayCommand) -> TrayHostAction {
    match command {
        TrayCommand::ActivateWindow => TrayHostAction::ActivateGui,
        TrayCommand::RefreshTooltip => TrayHostAction::RefreshTooltip,
        TrayCommand::Optimize => TrayHostAction::SpawnOptimize,
        TrayCommand::MenuAction(id) => spec_menu_action(id@),
        TrayCommand::SetSpinFrame(q) => TrayHostAction::ApplySpinFrame(q),
    }
}

/// What the tray host does for `command`; it exits only for the menu's "quit".
pub fn dispatch_command(command: &TrayCommand) -> (r: TrayHostAction)
    ensures
        r == spec_dispatch(*command),
{
    match command {
        TrayCommand::ActivateWindow => TrayHostAction::ActivateGui,
        TrayCommand::RefreshTooltip => TrayHostAction::RefreshTooltip,
        TrayCommand::Optimize => TrayHostAction::SpawnOptimize,
        TrayCommand::MenuAction(id) => {
            if str_eq(id.as_str(), "optimize") {
                TrayHostAction::SpawnOptimize
            } else if str_eq(id.as_str(), "toggle_window") {
                TrayHostAction::ToggleGuiWindow
            } else if str_eq(id.as_str(), "quit") {
                TrayHostAction::SaveAndQuit
            } else {
                TrayHostAction::Ignore
            }
        },
        TrayCommand::SetSpinFrame(q) => TrayHostAction::ApplySpinFrame(*q),
    }
}

/// The tray host exits for exactly one command: the menu's "quit".
pub proof fn lemma_dispatch_quits_only_on_menu_quit(command: TrayCommand)
    ensures
        spec_dispatch(command) is SaveAndQuit <==> (command matches TrayCommand::MenuAction(id) && id@
            == "quit"@),
{
    reveal_strlit("optimize");
    reveal_strlit("toggle_window");
    reveal_strlit("quit");
    assert("optimize"@.len() != "quit"@.len());
    assert("toggle_window"@.len() != "quit"@.len());
}

/// What the main window does for a tray menu item.
#[derive(Debug, Clone, Copy, PartialEq, Eq, Structural)]
pub enum WindowTrayAction {
    RunOptimize,
    HideToTray,
    ActivateWindow,
    SaveAndQuit,
    Ignore,
}

/// The main window's action for tray menu item `action`; "toggle_window"
/// hides a visible window and shows a hidden one.
pub fn handle_tray_action(action: &str, window_visible: bool) -> (r: WindowTrayAction)
    ensures
        r == (if action@ == "optimize"@ {
            WindowTrayAction::RunOptimize
        } else if action@ == "toggle_window"@ {
            if window_visible {
                WindowTrayAction::HideToTray
            } else {
                WindowTrayAction::ActivateWindow
            }
        } else if action@ == "quit"@ {
            WindowTrayAction::SaveAndQuit
        } else {
            WindowTrayAction::Ignore
        }),
{
    if str_eq(action, "optimize") {
        WindowTrayAction::RunOptimize
    } else if str_eq(action, "toggle_window") {
        if window_visible {
            WindowTrayAction::HideToTray
        } else {
            WindowTrayAction::ActivateWindow
        }
    } else if str_eq(action, "quit") {
        WindowTrayAction::SaveAndQuit
    } else {
        WindowTrayAction::Ignore
    }
}

} // verus!
