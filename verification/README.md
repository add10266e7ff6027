# Memory Cleaner

A Windows notification-area tool that frees memory: it trims process working
sets, purges the standby and modified page lists, flushes the system file
cache, the modified file cache of every volume and the registry hives, either
on demand, from a global hotkey, or automatically under memory pressure.

## Layout

- `src/` is the library, written in Verus. Every decision the program takes is
  here with its contract and proof: the settings and their normalisation, the
  settings page's edits, the cleanup plan and its result message, the hotkey
  chords, the Mount Manager reply and the volume flush report, the process
  snapshot filters, the IPC frames, the debug log's retention, the tray
  commands and the auto-cleanup triggers.
- `tests/` exercises the library on concrete values.
- `app/` is the Windows program around it: the tray icon and its message loop,
  the calls into Win32 and the native API, the settings file and the log file.
