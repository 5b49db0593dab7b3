use vstd::prelude::*;

use crate::herdr::HerdrError;

verus! {

/// What a toggle does for the focused pane.
#[derive(Debug, Clone, Copy, PartialEq, Eq, Structural)]
pub enum TogglePlan {
    /// A live watcher holds the pane: stop it (SIGTERM) and drop its pidfile.
    TurnOff(i32),
    /// The pidfile names a dead watcher: drop it, then start monitoring.
    ReplaceStale,
    /// No pidfile: start monitoring.
    TurnOn,
}

/// Decides a toggle from the pane's pidfile (if any) and whether the pid it
/// names is alive: monitoring is on exactly while a live watcher is recorded.
pub fn toggle_plan(recorded: Option<i32>, alive: bool) -> (p: TogglePlan)
    ensures
        p == match recorded {
            Some(pid) => if alive {
                TogglePlan::TurnOff(pid)
            } else {
                TogglePlan::ReplaceStale
            },
            None => TogglePlan::TurnOn,
        },
{
    match recorded {
        Some(pid) => if alive {
            TogglePlan::TurnOff(pid)
        } else {
            TogglePlan::ReplaceStale
        },
        None => TogglePlan::TurnOn,
    }
}

/// The message a toggle prints.
pub open spec fn toggle_text(on: bool, pane_id: Seq<char>) -> Seq<char> {
    if on {
        "espresso: monitoring on for "@ + pane_id
    } else {
        "espresso: monitoring off for "@ + pane_id
    }
}

/// The line announcing the pane's new monitoring state.
pub fn toggle_message(on: bool, pane_id: &str) -> (m: String)
    ensures
        m@ == toggle_text(on, pane_id@),
{
    let mut m = if on {
        String::from_str("espresso: monitoring on for ")
    } else {
        String::from_str("espresso: monitoring off for ")
    };
    m.append(pane_id);
    m
}

/// Toggling on is declined when herdr reports that the pane holds no agent (a
/// plain shell has no working/idle state to follow) or is gone; a failed read
/// does not decline.
pub fn declines_start(status: &Result<Option<String>, HerdrError>) -> (d: bool)
    ensures
        d == (status matches Ok(None)),
{
    match status {
        Ok(None) => true,
        _ => false,
    }
}

/// The title of the notification that declines a pane without an agent.
pub open spec fn decline_text(pane_id: Seq<char>) -> Seq<char> {
    "espresso: no agent in "@ + pane_id
}

/// The notification title for a declined toggle.
pub fn decline_message(pane_id: &str) -> (m: String)
    ensures
        m@ == decline_text(pane_id@),
{
    let mut m = String::from_str("espresso: no agent in ");
    m.append(pane_id);
    m
}

} // verus!
