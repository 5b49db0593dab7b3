use herdr_espresso::espresso::{EspressoCtl, EspressoError};
use herdr_espresso::herdr::{HerdrError, Rpc, Waiter, Wake};
use herdr_espresso::policy::{Action, Machine};
use herdr_espresso::watcher::{apply, run_loop, Clock};

// A clock read from a closure.
struct FnClock<F>(F);
impl<F: FnMut() -> u64> Clock for FnClock<F> {
    fn now(&mut self) -> u64 {
        (self.0)()
    }
}

// Scripted waiter: yields a sequence of Wake values, then Eof forever.
struct FakeWaiter {
    script: Vec<Wake>,
    i: usize,
    timeouts: Vec<Option<u64>>,
}
impl Waiter for FakeWaiter {
    fn wait(&mut self, t: Option<u64>) -> Wake {
        self.timeouts.push(t);
        let w = self.script.get(self.i).copied().unwrap_or(Wake::Eof);
        self.i += 1;
        w
    }
}

fn waiter(script: Vec<Wake>) -> FakeWaiter {
    FakeWaiter { script, i: 0, timeouts: vec![] }
}

struct FakeRpc {
    statuses: Vec<Option<String>>,
    i: usize,
    marker_cleared: bool,
    notes: u32,
    panes: Vec<String>,
}
impl Rpc for FakeRpc {
    fn pane_status(&mut self, p: &str) -> Result<Option<String>, HerdrError> {
        self.panes.push(p.to_string());
        let s = self.statuses.get(self.i).cloned().unwrap_or(None);
        self.i += 1;
        Ok(s)
    }
    fn set_marker(&mut self, _p: &str) -> Result<(), HerdrError> {
        Ok(())
    }
    fn clear_marker(&mut self, p: &str) -> Result<(), HerdrError> {
        self.panes.push(p.to_string());
        self.marker_cleared = true;
        Ok(())
    }
    fn notify(&mut self, _t: &str, _b: &str) -> Result<(), HerdrError> {
        self.notes += 1;
        Ok(())
    }
}

fn rpc(statuses: Vec<Option<String>>) -> FakeRpc {
    FakeRpc { statuses, i: 0, marker_cleared: false, notes: 0, panes: vec![] }
}

#[derive(Default)]
struct FakeEsp {
    up: bool,
    rotates: u32,
    kills: u32,
    missing: bool,
}
impl EspressoCtl for FakeEsp {
    fn held(&self) -> bool {
        self.up
    }
    fn rotate(&mut self) -> Result<(), EspressoError> {
        self.rotates += 1;
        if self.missing {
            return Err(EspressoError::NotFound);
        }
        self.up = true;
        Ok(())
    }
    fn kill(&mut self) {
        // Idempotent: only counts a kill that actually stops a running hold, so
        // the final cleanup kill is a no-op when espresso is already down.
        if self.up {
            self.up = false;
            self.kills += 1;
        }
    }
    fn is_up(&self) -> bool {
        self.up
    }
}

const T0: u64 = 5_000_000;

#[test]
fn seeded_working_opens_then_pane_closed_cleans_up() {
    // Seed reads working -> rotate. First event's status read returns None
    // (pane gone) -> break -> cleanup.
    let mut waiter = waiter(vec![Wake::Event]);
    let mut rpc = rpc(vec![Some("working".into()), None]);
    let mut esp = FakeEsp::default();
    let t0 = T0;
    run_loop("w1:p1", &mut rpc, &mut waiter, &mut esp, &mut FnClock(move || t0));
    assert_eq!(esp.rotates, 1); // opened from the seed
    assert_eq!(esp.kills, 1); // killed during cleanup
    assert!(rpc.marker_cleared);
}

#[test]
fn seeded_active_opens_without_any_event() {
    // No events at all (Waiter yields Eof immediately). A pane already working
    // at toggle-on must acquire the lease from the seed alone.
    let mut waiter = waiter(vec![]);
    let mut rpc = rpc(vec![Some("working".into())]);
    let mut esp = FakeEsp::default();
    let t0 = T0;
    run_loop("w1:p1", &mut rpc, &mut waiter, &mut esp, &mut FnClock(move || t0));
    assert_eq!(esp.rotates, 1);
    assert_eq!(esp.kills, 1); // cleanup
    assert!(rpc.marker_cleared);
}

#[test]
fn stop_signal_closes_immediately() {
    // Toggle-off: the Stop wake breaks the loop at once and cleanup kills
    // espresso — no stop-grace involved.
    let mut waiter = waiter(vec![Wake::Stop]);
    let mut rpc = rpc(vec![Some("working".into())]);
    let mut esp = FakeEsp::default();
    let t0 = T0;
    run_loop("w1:p1", &mut rpc, &mut waiter, &mut esp, &mut FnClock(move || t0));
    assert_eq!(esp.rotates, 1); // opened from seed
    assert_eq!(esp.kills, 1); // closed by cleanup on stop
    assert!(rpc.marker_cleared);
}

#[test]
fn idle_event_then_stop_grace_timer_closes() {
    // Working -> an idle event arms the 5s stop-grace (no immediate close);
    // a later timer wake (deadline elapsed) fires the close via on_timer, not
    // via the final cleanup.
    let mut waiter = waiter(vec![Wake::Event, Wake::Timeout]);
    let mut rpc = rpc(vec![Some("working".into()), Some("idle".into())]);
    let mut esp = FakeEsp::default();
    // Advancing clock (+10s per call) so the 5s stop-grace elapses between the
    // idle event and the next timer wake.
    let start = T0;
    let mut ticks = 0u64;
    let clock = move || {
        let t = start + ticks * 10_000;
        ticks += 1;
        t
    };
    run_loop("w1:p1", &mut rpc, &mut waiter, &mut esp, &mut FnClock(clock));
    assert_eq!(esp.rotates, 1); // opened from seed (working)
                                // Closed by the stop-grace timer; cleanup kill is then a no-op, so a
                                // count of exactly 1 proves the timer (not cleanup) did the close.
    assert_eq!(esp.kills, 1);
}

#[test]
fn pane_gone_at_start_is_not_watched() {
    let mut waiter = waiter(vec![Wake::Event]);
    let mut rpc = rpc(vec![None]);
    let mut esp = FakeEsp::default();
    run_loop("w1:p1", &mut rpc, &mut waiter, &mut esp, &mut FnClock(move || T0));
    assert_eq!(esp.rotates, 0);
    assert_eq!(esp.kills, 0);
    assert!(waiter.timeouts.is_empty()); // never waited
    assert!(rpc.marker_cleared); // cleanup still runs
}

#[test]
fn idle_seed_waits_at_most_the_poll_cap() {
    let mut waiter = waiter(vec![Wake::Timeout, Wake::Timeout]);
    let mut rpc = rpc(vec![Some("idle".into()), Some("idle".into()), Some("idle".into())]);
    let mut esp = FakeEsp::default();
    run_loop("w1:p1", &mut rpc, &mut waiter, &mut esp, &mut FnClock(move || T0));
    assert_eq!(esp.rotates, 0);
    assert_eq!(waiter.timeouts, vec![Some(1_000), Some(1_000), Some(1_000)]);
}

#[test]
fn missing_espresso_warns_once_and_retries_sooner() {
    // espresso is missing: the seed's rotation fails (one notification), the
    // retry comes 10s later instead of 60s, and fails again without a second
    // notification.
    let mut waiter = waiter(vec![Wake::Timeout]);
    let mut rpc = rpc(vec![Some("working".into()); 4]);
    let mut esp = FakeEsp { missing: true, ..FakeEsp::default() };
    let start = T0;
    let mut ticks = 0u64;
    let clock = move || {
        let t = start + ticks * 4_000;
        ticks += 1;
        t
    };
    run_loop("w1:p1", &mut rpc, &mut waiter, &mut esp, &mut FnClock(clock));
    assert_eq!(rpc.notes, 1);
    assert_eq!(esp.rotates, 2); // seed at 0s, retry due at 10s fires at 12s
}

#[test]
fn cleanup_releases_and_asks_marker_off_on_every_exit() {
    for script in [vec![], vec![Wake::Stop], vec![Wake::Event], vec![Wake::Timeout, Wake::Eof]] {
        let mut waiter = waiter(script);
        let mut rpc = rpc(vec![Some("blocked".into()), Some("working".into())]);
        let mut esp = FakeEsp::default();
        run_loop("w1:p1", &mut rpc, &mut waiter, &mut esp, &mut FnClock(move || T0));
        assert!(!esp.is_up());
        assert!(rpc.marker_cleared);
        assert!(rpc.i >= 1);
    }
}

#[test]
fn inactive_pane_never_takes_a_lease() {
    let mut waiter = waiter(vec![Wake::Event, Wake::Timeout, Wake::Event]);
    let mut rpc = rpc(vec![
        Some("idle".into()),
        Some("done".into()),
        Some("unknown".into()),
        Some("idle".into()),
    ]);
    let mut esp = FakeEsp::default();
    run_loop("w1:p1", &mut rpc, &mut waiter, &mut esp, &mut FnClock(move || T0));
    assert_eq!(esp.rotates, 0);
}

#[test]
fn apply_carries_out_every_action_in_order() {
    let mut esp = FakeEsp::default();
    let mut rpc = rpc(vec![]);
    let mut machine = Machine::new();
    machine.on_status(true, T0);
    let mut warned = false;
    let acts = vec![Action::RotateLease, Action::KillEspresso, Action::RotateLease];
    apply(&acts, &mut esp, &mut rpc, &mut machine, T0, &mut warned);
    assert_eq!(esp.rotates, 2);
    assert_eq!(esp.kills, 1);
    assert!(esp.is_up());
    assert_eq!(rpc.notes, 0);
    assert!(!warned);
    assert_eq!(machine.next_deadline(), Some(T0 + 60_000));
}

#[test]
fn apply_failed_rotation_schedules_retry_and_warns_once() {
    let mut esp = FakeEsp { missing: true, ..FakeEsp::default() };
    let mut rpc = rpc(vec![]);
    let mut machine = Machine::new();
    machine.on_status(true, T0);
    let mut warned = false;
    let acts = vec![Action::RotateLease];
    apply(&acts, &mut esp, &mut rpc, &mut machine, T0, &mut warned);
    assert_eq!(machine.next_deadline(), Some(T0 + 10_000));
    assert!(warned);
    assert_eq!(rpc.notes, 1);
    // A second missing espresso, with the warning already given: no new note.
    apply(&acts, &mut esp, &mut rpc, &mut machine, T0 + 10_000, &mut warned);
    assert_eq!(machine.next_deadline(), Some(T0 + 20_000));
    assert_eq!(rpc.notes, 1);
    assert_eq!(esp.rotates, 2);
}

#[test]
fn apply_with_no_actions_changes_nothing() {
    let mut esp = FakeEsp::default();
    let mut rpc = rpc(vec![]);
    let mut machine = Machine::new();
    let mut warned = false;
    apply(&vec![], &mut esp, &mut rpc, &mut machine, T0, &mut warned);
    assert_eq!(esp.rotates + esp.kills, 0);
    assert_eq!(machine.next_deadline(), None);
    assert_eq!(rpc.notes, 0);
}

#[test]
fn every_read_and_the_marker_off_are_for_the_watched_pane() {
    let mut waiter = waiter(vec![Wake::Event, Wake::Timeout]);
    let mut rpc = rpc(vec![Some("working".into()); 3]);
    let mut esp = FakeEsp::default();
    run_loop("w7:p3", &mut rpc, &mut waiter, &mut esp, &mut FnClock(move || T0));
    assert_eq!(rpc.panes.len(), 4); // three reads, then the marker-off request
    assert!(rpc.panes.iter().all(|p| p == "w7:p3"));
}

#[test]
fn each_step_takes_a_fresh_clock_reading() {
    // Working at 0s, idle at the next reads: the clock advances 3s per
    // reading, so the 5s stop-grace elapses only if every step reads it anew.
    let mut waiter = waiter(vec![Wake::Event, Wake::Timeout, Wake::Timeout]);
    let mut rpc = rpc(vec![
        Some("working".into()),
        Some("idle".into()),
        Some("idle".into()),
        Some("idle".into()),
    ]);
    let mut esp = FakeEsp::default();
    let mut readings = 0u64;
    let clock = move || {
        let t = T0 + readings * 3_000;
        readings += 1;
        t
    };
    run_loop("w1:p1", &mut rpc, &mut waiter, &mut esp, &mut FnClock(clock));
    assert_eq!(esp.rotates, 1);
    assert_eq!(esp.kills, 1);
    assert!(!esp.is_up());
    // The second wait is sized by a reading past the stop-grace deadline (0);
    // after the release no deadline is pending.
    assert_eq!(waiter.timeouts, vec![Some(1_000), Some(0), Some(1_000), Some(1_000)]);
}
