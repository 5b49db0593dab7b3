//! Keeps a Mac awake while a herdr pane's coding agent is working: the
//! verified core of the `herdr-espresso` plugin (keep-awake policy, watcher
//! loop, pane-id sanitisation, herdr request framing and reply decoding).
pub mod cli;
pub mod consts;
pub mod policy;
pub mod text;
pub mod state;
pub mod espresso;
pub mod herdr;
pub mod watcher;
pub mod status;
pub mod toggle;
