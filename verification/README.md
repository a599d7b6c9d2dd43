# tsk_core

`tsk` keeps track of work threads and the tasks within them. A daemon
(`tskd`) owns the thread registry and answers JSON-RPC requests on a
per-project Unix socket; the `tsk` program sends those requests from the
command line or shows the threads and tasks in a terminal view.

The library under `src/` holds the logic, verified with Verus:

- `model` — threads, tasks, priorities and their states, events, JSON-RPC
  messages;
- `paths` — the storage layout and the socket path;
- `threads`, `tasks` — what each daemon request decides, with the
  registry's invariants as laws;
- `protocol` — the daemon's method names;
- `index_md`, `date` — a thread's `index.md` and its creation date;
- `order` — stable ordering by key;
- `layout`, `navigation`, `help` — the terminal view's panes, its response
  to keys and mouse events, and its help popup;
- `cli` — the request each command sends and the `tsk context` listing;
- `text` — decimal rendering, padding and string helpers.

`app/` is the program around it: socket and file I/O, JSON with serde, the
command-line schema with clap and drawing with ratatui and crossterm. It is
started as `tskd` for the daemon, and under any other name as `tsk`.
