# observer

A Windows syscall observer. It subscribes to ETW telemetry (the
Microsoft-Windows-Kernel-Audit-API-Calls provider and the NT Kernel Logger),
collects the user-mode call stack of each syscall, and flags syscalls that
are issued directly, or reached indirectly, from memory that should not issue
them.

## Layout

- `src/` is the library, verified with Verus:
  - `guid` — GUIDs: parsing of their text form and canonical formatting.
  - `text` — character-level helpers (substring tests, number formatting,
    UTF-16 encoding).
  - `etw` — the model of an event record and the extraction of its call
    stack; the configuration of user-mode and kernel sessions and the
    parameters handed to Windows; the dispatch of events to callbacks; the
    schemas of manifest-based providers.
  - `detect` — the detection engine and the rules of the direct and indirect
    syscall detectors.
- `app/` is the program: the Windows API calls (session control, event
  consumption, TDH queries, process and symbol queries), the detectors'
  background workers, and `main`.
- `tests/` exercises the library on concrete values.
