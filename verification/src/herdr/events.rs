use vstd::prelude::*;

use super::rpc::{json_quoted, push_quoted};

verus! {

/// What woke a [`Waiter`].
#[derive(Debug, Clone, Copy, PartialEq, Eq, Structural)]
pub enum Wake {
    /// herdr pushed one or more events on the subscription: re-read the status.
    Event,
    /// The stop signal fired (toggle-off / SIGTERM).
    Stop,
    /// The timeout elapsed with nothing else pending.
    Timeout,
    /// The herdr event stream closed (server gone).
    Eof,
}

/// Blocks until an event arrives, the stop signal fires, the stream closes, or
/// the timeout (milliseconds; `None` = no limit) elapses. `waits` is the ghost
/// history of the waits made, oldest first: the timeout asked and the wake-up
/// returned.
pub trait Waiter {
    /// The waits made so far.
    closed spec fn waits(&self) -> Seq<(Option<u64>, Wake)> {
        Seq::empty()
    }

    fn wait(&mut self, timeout: Option<u64>) -> (w: Wake)
        ensures
            final(self).waits() == old(self).waits().push((timeout, w)),
    ;
}

/// What one `poll()` on the event socket and the stop pipe calls for.
#[derive(Debug, Clone, Copy, PartialEq, Eq, Structural)]
pub enum PollOutcome {
    /// Report [`Wake::Timeout`]: the wait elapsed or was interrupted.
    Timeout,
    /// Report [`Wake::Stop`].
    Stop,
    /// Drain the event socket, then report what [`after_drain`] says.
    Drain,
}

/// The `poll()` timeout in milliseconds: the wait clamped to `i32::MAX`, or
/// `-1` (no limit) for none.
pub fn poll_timeout_ms(timeout: Option<u64>) -> (ms: i32)
    ensures
        match timeout {
            Some(t) => ms == if t > i32::MAX as u64 {
                i32::MAX as int
            } else {
                t as int
            },
            None => ms == -1,
        },
{
    match timeout {
        Some(t) => if t > 2_147_483_647u64 {
            2_147_483_647i32
        } else {
            t as i32
        },
        None => -1,
    }
}

/// Reads `poll()`'s result: a return of zero or less (timeout, or an
/// interruption to be re-checked next time) is a timeout; otherwise a readable
/// (or hung-up) stop pipe wins over a readable event socket.
pub fn poll_outcome(rc: i32, stop_ready: bool, events_ready: bool) -> (o: PollOutcome)
    ensures
        o == if rc <= 0 {
            PollOutcome::Timeout
        } else if stop_ready {
            PollOutcome::Stop
        } else if events_ready {
            PollOutcome::Drain
        } else {
            PollOutcome::Timeout
        },
{
    if rc <= 0 {
        PollOutcome::Timeout
    } else if stop_ready {
        PollOutcome::Stop
    } else if events_ready {
        PollOutcome::Drain
    } else {
        PollOutcome::Timeout
    }
}

/// After draining the event socket: an event if it is still open, the end of
/// the stream if herdr closed it.
pub fn after_drain(still_open: bool) -> (w: Wake)
    ensures
        w == if still_open {
            Wake::Event
        } else {
            Wake::Eof
        },
{
    if still_open {
        Wake::Event
    } else {
        Wake::Eof
    }
}

/// What one wait came to: `poll()`'s result read as [`poll_outcome`] says, and
/// on a readable event socket, what draining it found (`still_open`; it is
/// looked at only then).
pub fn wake_of(rc: i32, stop_ready: bool, events_ready: bool, still_open: bool) -> (w: Wake)
    ensures
        w == if rc <= 0 {
            Wake::Timeout
        } else if stop_ready {
            Wake::Stop
        } else if events_ready {
            if still_open {
                Wake::Event
            } else {
                Wake::Eof
            }
        } else {
            Wake::Timeout
        },
{
    match poll_outcome(rc, stop_ready, events_ready) {
        PollOutcome::Timeout => Wake::Timeout,
        PollOutcome::Stop => Wake::Stop,
        PollOutcome::Drain => after_drain(still_open),
    }
}

/// A `pollfd` is ready when its returned events meet `mask` (the caller
/// passes `POLLIN | POLLHUP | POLLERR`).
pub fn revents_ready(revents: i16, mask: i16) -> (b: bool)
    ensures
        b == ((revents & mask) != 0),
{
    (revents & mask) != 0
}

/// What one wait on the event socket and the stop pipe came to, from `poll()`'s
/// result `rc`, the two descriptors' returned events, the readiness `mask`, and
/// what draining the event socket found (`still_open`, looked at only when the
/// socket is drained).
pub fn poll_wake(rc: i32, events_revents: i16, stop_revents: i16, mask: i16, still_open: bool) -> (w: Wake)
    ensures
        w == if rc <= 0 {
            Wake::Timeout
        } else if (stop_revents & mask) != 0 {
            Wake::Stop
        } else if (events_revents & mask) != 0 {
            if still_open {
                Wake::Event
            } else {
                Wake::Eof
            }
        } else {
            Wake::Timeout
        },
{
    wake_of(rc, revents_ready(stop_revents, mask), revents_ready(events_revents, mask), still_open)
}

/// The params of `events.subscribe` for one pane: its agent-status changes and
/// its closing (keys in sorted order, as serde_json writes an object).
pub open spec fn subscribe_text(pane_id: Seq<char>) -> Seq<char> {
    "{\"subscriptions\":[{\"pane_id\":"@ + json_quoted(pane_id)
        + ",\"type\":\"pane.agent_status_changed\"},{\"pane_id\":"@ + json_quoted(pane_id)
        + ",\"type\":\"pane.closed\"}]}"@
}

/// The params that subscribe to one pane's status changes and closing.
pub fn subscribe_params(pane_id: &str) -> (p: String)
    ensures
        p@ == subscribe_text(pane_id@),
{
    let mut p = String::from_str("{\"subscriptions\":[{\"pane_id\":");
    push_quoted(&mut p, pane_id);
    p.append(",\"type\":\"pane.agent_status_changed\"},{\"pane_id\":");
    push_quoted(&mut p, pane_id);
    p.append(",\"type\":\"pane.closed\"}]}");
    p
}

} // verus!
