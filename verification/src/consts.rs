use vstd::prelude::*;

verus! {

/// The plugin's id in herdr.
pub const PLUGIN_ID: &'static str = "espresso";

/// The `source` under which the sidebar marker is reported.
pub const METADATA_SOURCE: &'static str = "espresso";

/// The sidebar custom-status label (at most 32 characters).
pub const MARKER: &'static str = "espresso";

/// Times are milliseconds on a monotonic clock.
/// How long one espresso hold lasts if it is never renewed.
pub const LEASE: u64 = 90_000;

/// How often an active pane's hold is rotated.
pub const RENEW_INTERVAL: u64 = 60_000;

/// How long a pane must stay inactive before espresso is released.
pub const STOP_GRACE: u64 = 5_000;

/// How soon a failed rotation is retried.
pub const RENEW_RETRY: u64 = 10_000;

/// The latest clock reading at which every deadline the policy schedules still
/// fits in a `u64`.
pub const MAX_TIME: u64 = 18_446_744_073_709_491_615;

} // verus!
