# onekey_run

A small process orchestrator for local projects: it reads `onekey-tasks.yaml`,
starts the configured services in dependency order, runs hook actions around
their lifecycle, restarts them when watched files change, and stops them again.

- `src/` is the library, verified with Verus: configuration checks and
  resolution, `${name}` placeholders, run planning, the start, stop, restart,
  hook and single-run state machines, the dashboard state, file-watch
  snapshots and debouncing, runtime records and the listings printed by the
  commands.
- `app/` is the program around it: command-line parsing, reading and writing
  files, spawning processes, signals, threads and the terminal dashboard.
  It performs what the library's machines ask for and hands them back what
  happened.
- `tests/` runs the library on concrete values.
