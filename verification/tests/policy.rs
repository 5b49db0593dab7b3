use herdr_espresso::consts::{LEASE, RENEW_INTERVAL, RENEW_RETRY, STOP_GRACE};
use herdr_espresso::policy::{active, Action, Machine};

const T0: u64 = 1_000_000;

#[test]
fn active_only_for_working_and_blocked() {
    assert!(active("working"));
    assert!(active("blocked"));
    assert!(!active("idle"));
    assert!(!active("done"));
    assert!(!active("unknown"));
    assert!(!active(""));
}

#[test]
fn activating_opens_espresso_immediately_and_schedules_renew() {
    let t0 = T0;
    let mut m = Machine::new();
    assert_eq!(m.on_status(true, t0), vec![Action::RotateLease]);
    assert_eq!(m.next_deadline(), Some(t0 + RENEW_INTERVAL));
}

#[test]
fn repeat_active_status_does_nothing() {
    let t0 = T0;
    let mut m = Machine::new();
    m.on_status(true, t0);
    assert_eq!(m.on_status(true, t0), vec![]);
}

#[test]
fn renew_timer_rotates_and_reschedules() {
    let t0 = T0;
    let mut m = Machine::new();
    m.on_status(true, t0);
    let t1 = t0 + RENEW_INTERVAL;
    assert_eq!(m.on_timer(t1), vec![Action::RotateLease]);
    assert_eq!(m.next_deadline(), Some(t1 + RENEW_INTERVAL));
}

#[test]
fn inactive_arms_stop_grace_then_kills() {
    let t0 = T0;
    let mut m = Machine::new();
    m.on_status(true, t0);
    assert_eq!(m.on_status(false, t0), vec![]); // no immediate kill
    assert_eq!(m.next_deadline(), Some(t0 + STOP_GRACE));
    let t1 = t0 + STOP_GRACE;
    assert_eq!(m.on_timer(t1), vec![Action::KillEspresso]);
    assert_eq!(m.next_deadline(), None);
}

#[test]
fn reactivating_before_grace_cancels_kill() {
    let t0 = T0;
    let mut m = Machine::new();
    m.on_status(true, t0);
    m.on_status(false, t0);
    // back to active before grace fires: no new open (espresso still up), grace cancelled
    assert_eq!(m.on_status(true, t0), vec![]);
    assert_eq!(m.next_deadline(), Some(t0 + RENEW_INTERVAL));
}

#[test]
fn note_rotate_failed_shortens_next_renew() {
    let t0 = T0;
    let mut m = Machine::new();
    m.on_status(true, t0);
    m.note_rotate_failed(t0);
    assert_eq!(m.next_deadline(), Some(t0 + RENEW_RETRY));
}

#[test]
fn timer_before_any_deadline_does_nothing() {
    let t0 = T0;
    let mut m = Machine::new();
    m.on_status(true, t0);
    assert_eq!(m.on_timer(t0 + RENEW_INTERVAL - 1), vec![]);
    assert_eq!(m.next_deadline(), Some(t0 + RENEW_INTERVAL));
    assert_eq!(Machine::new().on_timer(t0), vec![]);
    assert_eq!(Machine::new().next_deadline(), None);
}

#[test]
fn inactive_without_hold_arms_nothing() {
    let mut m = Machine::new();
    assert_eq!(m.on_status(false, T0), vec![]);
    assert_eq!(m.next_deadline(), None);
}

#[test]
fn grace_counts_from_first_inactive_report() {
    let t0 = T0;
    let mut m = Machine::new();
    m.on_status(true, t0);
    m.on_status(false, t0);
    m.on_status(false, t0 + 3_000);
    assert_eq!(m.next_deadline(), Some(t0 + STOP_GRACE));
    assert_eq!(m.on_timer(t0 + STOP_GRACE - 1), vec![]);
    assert_eq!(m.on_timer(t0 + STOP_GRACE), vec![Action::KillEspresso]);
}

#[test]
fn release_wins_over_due_renewal() {
    let t0 = T0;
    let mut m = Machine::new();
    m.on_status(true, t0);
    m.on_status(false, t0 + RENEW_INTERVAL - 1);
    // both the release and the renewal are due: the release wins
    assert_eq!(m.on_timer(t0 + RENEW_INTERVAL + STOP_GRACE), vec![Action::KillEspresso]);
    assert_eq!(m.next_deadline(), None);
}

#[test]
fn inactive_pane_is_not_renewed() {
    let t0 = T0;
    let mut m = Machine::new();
    m.on_status(true, t0);
    m.on_status(false, t0);
    m.on_status(true, t0 + 1);
    m.on_status(false, t0 + RENEW_INTERVAL - 10);
    // the renewal time comes while inactive but before the release: no rotation
    assert_eq!(m.on_timer(t0 + RENEW_INTERVAL), vec![]);
}

#[test]
fn renewal_comes_before_lease_expires() {
    let t0 = T0;
    let mut m = Machine::new();
    m.on_status(true, t0);
    let d = m.next_deadline().unwrap();
    assert!(d < t0 + LEASE);
    let t1 = d;
    assert_eq!(m.on_timer(t1), vec![Action::RotateLease]);
    assert!(m.next_deadline().unwrap() < t1 + LEASE);
    m.note_rotate_failed(t1);
    assert!(m.next_deadline().unwrap() < t1 + LEASE);
}

#[test]
fn inactive_does_not_surface_stale_renew_deadline() {
    // Deactivating shortly before a scheduled renew must expose only the
    // stop-grace deadline, not the (suppressed) renew — otherwise the
    // scheduler wakes on a deadline that fires nothing and stalls.
    let t0 = T0;
    let mut m = Machine::new();
    m.on_status(true, t0); // next_renew = t0 + RENEW_INTERVAL
    let t1 = t0 + 58_000;
    m.on_status(false, t1); // pending_stop = t1 + STOP_GRACE
    assert_eq!(m.next_deadline(), Some(t1 + STOP_GRACE));
}
