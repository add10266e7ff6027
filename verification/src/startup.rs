//! Run-at-startup through a Task Scheduler logon task with highest privileges.
//!
//! A `HKCU\...\Run` value cannot grant elevation, so it would trigger a UAC
//! prompt at every sign-in. The autostart is therefore a scheduled task created
//! with `/RL HIGHEST`; the legacy Run value is still deleted so that users of
//! older versions are moved over. This module builds the command lines and the
//! plan; the host runs `schtasks` and edits the registry.

use vstd::prelude::*;
use crate::text::{decimal_chars, push_chars, push_str, spec_decimal_digits, str_chars, str_eq, string_push};

verus! {

/// Command-line flag for the silent login autostart (tray only, no main window).
pub const STARTUP_ARG: &'static str = "--startup";
/// Command-line flag of the elevated relaunch.
pub const ELEVATED_ARG: &'static str = "--elevated";
/// Name of the Task Scheduler task in the root folder.
pub const TASK_NAME: &'static str = "MemoryCleaner_Autostart";
/// Legacy autostart location (`HKCU\...\Run`), deleted for migration.
pub const RUN_KEY_PATH: &'static str = "Software\\Microsoft\\Windows\\CurrentVersion\\Run";
/// How long a `schtasks` run may take, in milliseconds.
pub const SCHTASKS_TIMEOUT_MS: u32 = 10_000;
/// `HRESULT_FROM_WIN32(ERROR_FILE_NOT_FOUND)`, returned by `ITaskFolder::GetTask`.
pub const TASK_NOT_FOUND_HRESULT: i32 = -2147024894i32;

pub open spec fn spec_has_arg(args: Seq<String>, arg: Seq<char>) -> bool {
    exists|i: int| 0 <= i < args.len() && #[trigger] args[i]@ == arg
}

/// Whether the process was started by the login autostart.
pub fn is_startup_launch(args: &[String]) -> (r: bool)
    ensures
        r == spec_has_arg(args@, STARTUP_ARG@),
{
    let mut i: usize = 0;
    while i < args.len()
        invariant
            i <= args.len(),
            forall|j: int| 0 <= j < i ==> (#[trigger] args@[j])@ != STARTUP_ARG@,
        decreases args.len() - i,
    {
        if str_eq(args[i].as_str(), STARTUP_ARG) {
            assert(args@[i as int]@ == STARTUP_ARG@);
            return true;
        }
        i += 1;
    }
    false
}

/// Arguments for the elevated child, so startup mode survives the UAC relaunch.
pub fn elevation_relaunch_args(args: &[String]) -> (r: String)
    ensures
        r@ == (if spec_has_arg(args@, STARTUP_ARG@) {
            ELEVATED_ARG@ + " "@ + STARTUP_ARG@
        } else {
            ELEVATED_ARG@
        }),
{
    let mut out = ELEVATED_ARG.to_owned();
    if is_startup_launch(args) {
        push_str(&mut out, " ");
        push_str(&mut out, STARTUP_ARG);
    }
    out
}

/// The task's action command line: the quoted executable path and the startup flag.
pub open spec fn spec_task_trigger_value(exe: Seq<char>) -> Seq<char> {
    "\""@ + exe + "\" "@ + STARTUP_ARG@
}

/// `s` with every `"` written as `\"`.
pub open spec fn spec_escape_quotes(s: Seq<char>) -> Seq<char>
    decreases s.len(),
{
    if s.len() == 0 {
        seq![]
    } else if s.last() == '"' {
        spec_escape_quotes(s.drop_last()) + seq!['\\', '"']
    } else {
        spec_escape_quotes(s.drop_last()).push(s.last())
    }
}

pub fn task_trigger_value(exe_display: &str) -> (r: String)
    ensures
        r@ == spec_task_trigger_value(exe_display@),
{
    let mut out = String::new();
    push_str(&mut out, "\"");
    push_str(&mut out, exe_display);
    push_str(&mut out, "\" ");
    push_str(&mut out, STARTUP_ARG);
    out
}

fn escape_quotes(s: &str) -> (r: String)
    ensures
        r@ == spec_escape_quotes(s@),
{
    let chars = str_chars(s);
    let mut out = String::new();
    let mut i: usize = 0;
    while i < chars.len()
        invariant
            i <= chars.len(),
            chars@ == s@,
            out@ == spec_escape_quotes(chars@.take(i as int)),
        decreases chars.len() - i,
    {
        assert(chars@.take(i + 1).drop_last() =~= chars@.take(i as int));
        assert(chars@.take(i + 1).last() == chars@[i as int]);
        if chars[i] == '"' {
            string_push(&mut out, '\\');
            string_push(&mut out, '"');
            assert(out@ =~= spec_escape_quotes(chars@.take(i + 1)));
        } else {
            string_push(&mut out, chars[i]);
        }
        i += 1;
    }
    assert(chars@.take(chars.len() as int) =~= chars@);
    out
}

pub open spec fn spec_create_arguments(exe: Seq<char>) -> Seq<char> {
    "/Create /F /SC ONLOGON /RL HIGHEST /TN \""@ + TASK_NAME@ + "\" /TR \""@ + spec_escape_quotes(
        spec_task_trigger_value(exe),
    ) + "\""@
}

/// `schtasks` arguments that create (or replace) the logon task. The inner
/// quotes are written as `\"` so that a path with spaces stays one `/TR` value.
pub fn schtasks_create_arguments(exe_display: &str) -> (r: String)
    ensures
        r@ == spec_create_arguments(exe_display@),
{
    let trigger = task_trigger_value(exe_display);
    let escaped = escape_quotes(trigger.as_str());
    let mut out = String::new();
    push_str(&mut out, "/Create /F /SC ONLOGON /RL HIGHEST /TN \"");
    push_str(&mut out, TASK_NAME);
    push_str(&mut out, "\" /TR \"");
    push_str(&mut out, escaped.as_str());
    push_str(&mut out, "\"");
    out
}

pub open spec fn spec_delete_arguments() -> Seq<char> {
    "/Delete /F /TN \""@ + TASK_NAME@ + "\""@
}

/// `schtasks` arguments that delete the logon task.
pub fn schtasks_delete_arguments() -> (r: String)
    ensures
        r@ == spec_delete_arguments(),
{
    let mut out = String::new();
    push_str(&mut out, "/Delete /F /TN \"");
    push_str(&mut out, TASK_NAME);
    push_str(&mut out, "\"");
    out
}

/// Whether a `ITaskFolder::GetTask` error only says that the task is absent.
pub fn is_task_not_found(code: i32) -> (r: bool)
    ensures
        r == (code == TASK_NOT_FOUND_HRESULT),
{
    code == TASK_NOT_FOUND_HRESULT
}

/// One step of changing the autostart.
#[derive(Debug, Clone)]
pub enum StartupStep {
    /// Run `schtasks` with these arguments; a non-zero exit code is an error.
    CreateTask { arguments: String },
    /// If the task exists, run `schtasks` with these arguments; a non-zero exit code is an error.
    DeleteTaskIfPresent { arguments: String },
    /// Delete the legacy Run value, ignoring any failure.
    DeleteLegacyRunValue,
}

/// The steps that turn the autostart on or off, in order. The first step's
/// failure ends the change.
pub fn set_enabled(enabled: bool, exe_display: &str) -> (r: Vec<StartupStep>)
    ensures
        r@.len() == 2,
        r@[1] is DeleteLegacyRunValue,
        enabled ==> (r@[0] matches StartupStep::CreateTask { arguments } && arguments@
            == spec_create_arguments(exe_display@)),
        !enabled ==> (r@[0] matches StartupStep::DeleteTaskIfPresent { arguments } && arguments@
            == spec_delete_arguments()),
{
    let mut steps: Vec<StartupStep> = Vec::new();
    if enabled {
        steps.push(StartupStep::CreateTask { arguments: schtasks_create_arguments(exe_display) });
    } else {
        steps.push(StartupStep::DeleteTaskIfPresent { arguments: schtasks_delete_arguments() });
    }
    steps.push(StartupStep::DeleteLegacyRunValue);
    steps
}

/// Whether the delete step runs `schtasks`, once the Task Scheduler was asked
/// for the task: `lookup` is `Ok` when it returned the task, else the HRESULT
/// the lookup failed with. An existing task is deleted (`Ok(true)`); a task
/// that is not there leaves nothing to do (`Ok(false)`); any other failure
/// ends the change with its code, and nothing runs.
pub fn delete_task_after_lookup(lookup: Result<(), i32>) -> (r: Result<bool, i32>)
    ensures
        lookup is Ok ==> r == Ok::<bool, i32>(true),
        lookup matches Err(code) ==> r == (if code == TASK_NOT_FOUND_HRESULT {
            Ok::<bool, i32>(false)
        } else {
            Err(code)
        }),
{
    match lookup {
        Ok(()) => Ok(true),
        Err(code) => if is_task_not_found(code) {
            Ok(false)
        } else {
            Err(code)
        },
    }
}

/// `x` in decimal, with a leading `-` when negative.
pub open spec fn spec_i32_text(x: i32) -> Seq<char> {
    if x < 0 {
        seq!['-'] + spec_decimal_digits((-x) as nat)
    } else {
        spec_decimal_digits(x as nat)
    }
}

/// The outcome of a `schtasks` run that exited with `exit_code`.
pub fn schtasks_exit_result(action: &str, exit_code: i32) -> (r: Result<(), String>)
    ensures
        exit_code == 0 ==> r is Ok,
        exit_code != 0 ==> (r matches Err(m) && m@ == "schtasks "@ + action@ + " failed with exit code "@
            + spec_i32_text(exit_code)),
{
    if exit_code == 0 {
        return Ok(());
    }
    let mut out = String::new();
    push_str(&mut out, "schtasks ");
    push_str(&mut out, action);
    push_str(&mut out, " failed with exit code ");
    if exit_code < 0 {
        string_push(&mut out, '-');
        let magnitude: u64 = (0i64 - (exit_code as i64)) as u64;
        let digits = decimal_chars(magnitude);
        push_chars(&mut out, &digits);
    } else {
        let digits = decimal_chars(exit_code as u64);
        push_chars(&mut out, &digits);
    }
    Err(out)
}

} // verus!
