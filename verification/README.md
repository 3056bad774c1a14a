# filelocksmith

Find and quit the processes that lock a file or folder on Windows.

- `src/` is the verified library (Verus). It holds what the work decides and
  reads: which processes lock a path given the open handles of the system
  (`locking`), the handle table and object names that `ntdll` returns
  (`system_info`), naming the handles of other processes (`scan`), quitting
  processes (`process`), the token tasks behind elevation and
  `SeDebugPrivilege` (`token`), counted and wide strings (`text`), and handle
  validity (`handle`). Each sequence of system calls is a state machine: it
  says which call comes next and takes back the call's outcome.
- `app/` makes the Windows system calls through `windows-sys`, drives those
  state machines, and offers the public functions `find_processes_locking_path`,
  `is_process_elevated`, `set_debug_privilege`, `pid_to_process_path` and
  `quit_processes`.
- `tests/` exercise the library on concrete values.
