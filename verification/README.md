# coclash

A terminal front end for the mihomo proxy kernel. The decisions it makes are a
library verified with Verus; the terminal, the network and the processes
around it are ordinary Rust.

- `src/`: the verified library.
  - `strings.rs`, `text.rs`: character-level helpers, display widths, wrapping, cursors.
  - `config.rs`: the `config.yaml` model, the default configuration, subscriptions
    and proxy groups (backed by `indexmap`/`serde_yaml` values that pass through).
  - `state.rs`, `heartbeat.rs`, `tasks.rs`: the shared state, how a heartbeat
    snapshot or a finished task changes it, and the log lines each step writes.
  - `keymap.rs`, `windows.rs`, `settings_page.rs`, `views.rs`: key bindings and the
    key handling and scrolling of every window.
  - `binary.rs`, `process.rs`, `embedded.rs`: locating the mihomo executable,
    start/stop decisions, `/proc` and `netstat` parsing, PID files.
  - `subscription.rs`: naming a subscription from its URL and `Content-Disposition`.
  - `cli.rs`, `settings.rs`, `api.rs`, `operation_log.rs`, `error.rs`, `system_proxy.rs`.
- `tests/`: tests of the library.
- `app/`: the program: terminal loop, HTTP client, file and process I/O, and the
  serde forms of the library's types.
