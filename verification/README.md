# herdr-espresso

A herdr plugin that keeps a Mac awake (through the `espresso` CLI) while a
monitored pane's coding agent is working or blocked, and lets it sleep again a
short grace period after the agent goes idle.

- `src/` is the verified library (Verus):
  - `policy.rs` — the per-pane keep-awake state machine (lease rotation,
    stop-grace, retries) and its laws;
  - `watcher.rs` — the watcher loop that drives the policy through the
    `Rpc`, `Waiter` and `EspressoCtl` traits; its contract says that the
    calls it makes are a replay of the policy over the statuses read, the
    wake-ups and the clock readings;
  - `state.rs` — pane-id sanitisation (collision-free), pidfile paths and
    pidfile contents;
  - `herdr/` — request framing, `pane.get` reply decoding, poll decisions;
  - `espresso.rs`, `toggle.rs`, `status.rs`, `cli.rs`, `text.rs` — the rest.
- `app/` is the program around it: clap, sockets, processes, signals, files.
- `tests/` runs the library on concrete cases.
