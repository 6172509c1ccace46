# agent-flock

`agent-flock [--lock <name>] -- <command> [args...]` runs a command while it
holds a named, per-user advisory lock, so that commands using the same name
run one at a time across processes and Git worktrees.

Layout:

- `src/` — the verified library.
  - `cli.rs`: the command line and its meaning, with laws on the separator,
    pass-through of the command, named locks, `--help` and `--version`.
  - `lock.rs`: lock file names (`v1-<sha256>.lock`), the lock directory, the
    checks on the default directory, and the errors of acquisition.
  - `acquire.rs`: the waiting protocol as a state machine, with laws over
    every run of it (quiet immediate acquisition, one waiting notice, no
    timeout, interruption by a signal).
  - `process.rs`: running the command as a state machine, with laws on signal
    forwarding and on how the wrapper ends.
  - `signals.rs`: the pending-signal slot and exit codes.
  - `text.rs`: decimal and hexadecimal text.
- `app/` — the program: file locks, directories, processes and signal
  handlers, driven by the library's decisions.
- `tests/` — tests of the library.
