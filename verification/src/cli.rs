use vstd::prelude::*;

verus! {

/// The parsed command line.
#[derive(Debug)]
pub struct Cli {
    pub command: Command,
}

/// The subcommands of `herdr-espresso`.
#[derive(Debug)]
pub enum Command {
    /// Toggle monitoring for the focused pane.
    Toggle,
    /// The per-pane watcher (spawned detached by `toggle`).
    Watch { pane_id: String },
    /// List the monitored panes.
    Status,
}

} // verus!
