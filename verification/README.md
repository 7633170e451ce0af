# codex_monitor

Watches for active Codex sessions and streams the latest assistant response of
each to WebSocket clients. A session is active while a task runs in it, or, as
long as no task has ended in it, while its rollout file was modified recently.

- `src/` is the library, verified with Verus. `tracker` follows one session
  through its records, `status` makes a report of a whole rollout file, `history`
  proves what such a status means. `scan` and `order` build a snapshot of all
  sessions, `publish` and `socket` decide what is sent when. `command` and
  `config` check what the monitor is started with.
- `app/` is the program around it: the command line, the files, the sockets, and
  the other crates of the Codex workspace.
- `tests/` runs the library.

Two things the library takes without proof: the system clock, of whose reading it
claims nothing, and the standard parser of socket addresses, of which it claims
only that its verdict depends on the text alone.
