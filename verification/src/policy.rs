use vstd::prelude::*;

use crate::consts::{LEASE, MAX_TIME, RENEW_INTERVAL, RENEW_RETRY, STOP_GRACE};

verus! {

/// An agent status keeps the Mac awake exactly when it is `working` or `blocked`.
pub open spec fn is_active_status(status: Seq<char>) -> bool {
    status == "working"@ || status == "blocked"@
}

/// Whether an agent status counts as active (espresso should be held).
pub fn active(status: &str) -> (r: bool)
    ensures
        r == is_active_status(status@),
{
    crate::text::str_eq(status, "working") || crate::text::str_eq(status, "blocked")
}

/// What the watcher must do to the espresso hold.
#[derive(Debug, Clone, Copy, PartialEq, Eq, Structural)]
pub enum Action {
    /// Start a fresh lease (and drop the previous one).
    RotateLease,
    /// Release espresso.
    KillEspresso,
}

/// The keep-awake policy of one monitored pane, driven by status reports and
/// timer ticks. Times are milliseconds on a monotonic clock.
pub struct Machine {
    active: bool,
    espresso_up: bool,
    pending_stop: Option<u64>,
    next_renew: Option<u64>,
}

/// The abstract state of a [`Machine`].
#[derive(Clone, Copy)]
pub struct MachineView {
    /// The last reported status was active.
    pub active: bool,
    /// A lease is believed to be held.
    pub espresso_up: bool,
    /// When the pending release is due, if one is armed.
    pub pending_stop: Option<u64>,
    /// When the lease is next rotated, if one is scheduled.
    pub next_renew: Option<u64>,
}

impl View for Machine {
    type V = MachineView;

    closed spec fn view(&self) -> MachineView {
        MachineView {
            active: self.active,
            espresso_up: self.espresso_up,
            pending_stop: self.pending_stop,
            next_renew: self.next_renew,
        }
    }
}

/// The state of a machine that has seen nothing yet.
pub open spec fn initial() -> MachineView {
    MachineView { active: false, espresso_up: false, pending_stop: None, next_renew: None }
}

/// The state invariant: a lease is scheduled for renewal exactly while one is
/// held, and a release is only pending for a held lease of an inactive pane.
pub open spec fn wf(m: MachineView) -> bool {
    &&& (m.next_renew is Some <==> m.espresso_up)
    &&& (m.pending_stop is Some ==> m.espresso_up && !m.active)
}

/// The state after a status report.
pub open spec fn after_status(m: MachineView, active: bool, now: u64) -> MachineView {
    if active {
        if m.espresso_up {
            MachineView { active: true, pending_stop: None, ..m }
        } else {
            MachineView {
                active: true,
                espresso_up: true,
                pending_stop: None,
                next_renew: Some((now + RENEW_INTERVAL) as u64),
            }
        }
    } else {
        let pending = if m.espresso_up && m.pending_stop is None {
            Some((now + STOP_GRACE) as u64)
        } else {
            m.pending_stop
        };
        MachineView { active: false, pending_stop: pending, ..m }
    }
}

/// The actions a status report calls for: a lease is opened at once when a
/// pane becomes active and none is held; nothing else happens immediately.
pub open spec fn status_actions(m: MachineView, active: bool) -> Seq<Action> {
    if active && !m.espresso_up {
        seq![Action::RotateLease]
    } else {
        seq![]
    }
}

/// The pending release has come due.
pub open spec fn stop_due(m: MachineView, now: u64) -> bool {
    m.pending_stop matches Some(s) && now >= s
}

/// The lease of an active pane is due for rotation.
pub open spec fn renew_due(m: MachineView, now: u64) -> bool {
    &&& m.active
    &&& m.next_renew matches Some(r) && now >= r
}

/// The state after a timer tick.
pub open spec fn after_timer(m: MachineView, now: u64) -> MachineView {
    if stop_due(m, now) {
        MachineView { espresso_up: false, pending_stop: None, next_renew: None, ..m }
    } else if renew_due(m, now) {
        MachineView { next_renew: Some((now + RENEW_INTERVAL) as u64), ..m }
    } else {
        m
    }
}

/// The actions a timer tick calls for: a due release wins over a due rotation.
pub open spec fn timer_actions(m: MachineView, now: u64) -> Seq<Action> {
    if stop_due(m, now) {
        seq![Action::KillEspresso]
    } else if renew_due(m, now) {
        seq![Action::RotateLease]
    } else {
        seq![]
    }
}

/// The renewal time that counts: a stored renewal is hidden while the pane is
/// inactive (it would fire nothing).
pub open spec fn live_renew(m: MachineView) -> Option<u64> {
    if m.active {
        m.next_renew
    } else {
        None
    }
}

/// The earliest deadline at which a timer tick has work to do, if any: the
/// pending release, or the renewal of an active pane.
pub open spec fn deadline(m: MachineView) -> Option<u64> {
    match (m.pending_stop, live_renew(m)) {
        (Some(s), Some(r)) => Some(if s <= r { s } else { r }),
        (Some(s), None) => Some(s),
        (None, Some(r)) => Some(r),
        (None, None) => None,
    }
}

impl Default for Machine {
    fn default() -> (m: Self)
        ensures
            m@ == initial(),
    {
        Machine { active: false, espresso_up: false, pending_stop: None, next_renew: None }
    }
}

impl Machine {
    /// A machine for a pane that has reported nothing yet.
    pub fn new() -> (m: Self)
        ensures
            m@ == initial(),
            wf(m@),
    {
        Machine { active: false, espresso_up: false, pending_stop: None, next_renew: None }
    }

    /// Records the pane's status at time `now` and returns what to do.
    pub fn on_status(&mut self, active: bool, now: u64) -> (acts: Vec<Action>)
        requires
            now <= MAX_TIME,
        ensures
            final(self)@ == after_status(old(self)@, active, now),
            acts@ == status_actions(old(self)@, active),
    {
        self.active = active;
        if active {
            self.pending_stop = None;
            if !self.espresso_up {
                self.espresso_up = true;
                self.next_renew = Some(now + RENEW_INTERVAL);
                return vec![Action::RotateLease];
            }
            return Vec::new();
        }
        if self.espresso_up && self.pending_stop.is_none() {
            self.pending_stop = Some(now + STOP_GRACE);
        }
        Vec::new()
    }

    /// Handles a clock tick at time `now` and returns what to do.
    pub fn on_timer(&mut self, now: u64) -> (acts: Vec<Action>)
        requires
            now <= MAX_TIME,
        ensures
            final(self)@ == after_timer(old(self)@, now),
            acts@ == timer_actions(old(self)@, now),
    {
        if let Some(stop) = self.pending_stop {
            if now >= stop {
                self.pending_stop = None;
                self.next_renew = None;
                self.espresso_up = false;
                return vec![Action::KillEspresso];
            }
        }
        if self.active {
            if let Some(renew) = self.next_renew {
                if now >= renew {
                    self.next_renew = Some(now + RENEW_INTERVAL);
                    return vec![Action::RotateLease];
                }
            }
        }
        Vec::new()
    }

    /// After a failed rotation at time `now`, retries sooner than the normal
    /// renewal cadence.
    pub fn note_rotate_failed(&mut self, now: u64)
        requires
            now <= MAX_TIME,
        ensures
            final(self)@ == (MachineView {
                next_renew: Some((now + RENEW_RETRY) as u64),
                ..old(self)@
            }),
    {
        self.next_renew = Some(now + RENEW_RETRY);
    }

    /// The earliest time at which [`Machine::on_timer`] may have work to do.
    pub fn next_deadline(&self) -> (d: Option<u64>)
        ensures
            d == deadline(self@),
    {
        let renew = if self.active {
            self.next_renew
        } else {
            None
        };
        match (self.pending_stop, renew) {
            (Some(s), Some(r)) => Some(if s <= r { s } else { r }),
            (Some(s), None) => Some(s),
            (None, Some(r)) => Some(r),
            (None, None) => None,
        }
    }
}

/// The invariant holds initially and every transition keeps it; a failed
/// rotation keeps it while a lease is held (the only time the watcher reports one).
pub proof fn lemma_transitions_keep_wf(m: MachineView, active: bool, now: u64)
    requires
        wf(m),
        now <= MAX_TIME,
    ensures
        wf(initial()),
        wf(after_status(m, active, now)),
        wf(after_timer(m, now)),
        m.espresso_up ==> wf(MachineView { next_renew: Some((now + RENEW_RETRY) as u64), ..m }),
{
}

/// Opening is immediate: a pane that becomes active while no lease is held
/// gets a lease at once, renewed one interval later.
pub proof fn lemma_activation_opens_immediately(m: MachineView, now: u64)
    requires
        !m.espresso_up,
        now <= MAX_TIME,
    ensures
        status_actions(m, true) == seq![Action::RotateLease],
        after_status(m, true, now).espresso_up,
        after_status(m, true, now).next_renew == Some((now + RENEW_INTERVAL) as u64),
        deadline(after_status(m, true, now)) == Some((now + RENEW_INTERVAL) as u64),
{
}

/// Repeating an active status (or moving between `working` and `blocked`)
/// does nothing: no action, and the state stays as it is.
pub proof fn lemma_repeat_active_is_quiet(m: MachineView, t1: u64, t2: u64)
    requires
        t1 <= MAX_TIME,
        t2 <= MAX_TIME,
    ensures
        status_actions(after_status(m, true, t1), true) == Seq::<Action>::empty(),
        after_status(after_status(m, true, t1), true, t2) == after_status(m, true, t1),
{
}

/// Going inactive never releases espresso on the spot: it arms a release one
/// stop-grace later, counted from the first inactive report.
pub proof fn lemma_inactive_arms_grace(m: MachineView, t1: u64, t2: u64)
    requires
        wf(m),
        m.espresso_up,
        m.pending_stop is None,
        t1 <= MAX_TIME,
        t2 <= MAX_TIME,
    ensures
        status_actions(m, false) == Seq::<Action>::empty(),
        after_status(m, false, t1).espresso_up,
        after_status(m, false, t1).pending_stop == Some((t1 + STOP_GRACE) as u64),
        status_actions(after_status(m, false, t1), false) == Seq::<Action>::empty(),
        after_status(after_status(m, false, t1), false, t2).pending_stop == Some(
            (t1 + STOP_GRACE) as u64,
        ),
{
}

/// Espresso is released only by a timer tick at or after the armed release
/// time, and afterwards nothing is scheduled.
pub proof fn lemma_release_only_after_grace(m: MachineView, now: u64)
    requires
        wf(m),
        now <= MAX_TIME,
    ensures
        timer_actions(m, now).contains(Action::KillEspresso) ==> (m.pending_stop matches Some(
            s,
        ) && now >= s && m.espresso_up && !m.active),
        timer_actions(m, now).contains(Action::KillEspresso) ==> deadline(after_timer(m, now))
            is None && !after_timer(m, now).espresso_up,
{
    if timer_actions(m, now).contains(Action::KillEspresso) {
        if !stop_due(m, now) {
            assert(timer_actions(m, now)[0] != Action::KillEspresso);
        }
    }
}

/// Becoming active again before the grace ends cancels the release and keeps
/// the lease held, with no action.
pub proof fn lemma_reactivation_cancels_release(m: MachineView, now: u64)
    requires
        wf(m),
        m.pending_stop is Some,
        now <= MAX_TIME,
    ensures
        status_actions(m, true) == Seq::<Action>::empty(),
        after_status(m, true, now).pending_stop is None,
        after_status(m, true, now).espresso_up,
        after_status(m, true, now).next_renew == m.next_renew,
{
}

/// The next rotation is scheduled strictly before `t`.
pub open spec fn renews_before(m: MachineView, t: int) -> bool {
    m.next_renew matches Some(r) && r < t
}

/// No coverage gap: every rotation (from a status report or a timer tick)
/// schedules the next one strictly before the new lease runs out, and so does a
/// retry after a failed rotation.
pub proof fn lemma_renewal_before_lease_expiry(m: MachineView, active: bool, now: u64)
    requires
        now <= MAX_TIME,
    ensures
        status_actions(m, active).contains(Action::RotateLease) ==> renews_before(
            after_status(m, active, now),
            (now + LEASE) as int,
        ),
        timer_actions(m, now).contains(Action::RotateLease) ==> renews_before(
            after_timer(m, now),
            (now + LEASE) as int,
        ),
        now + RENEW_RETRY < now + LEASE,
{
    if status_actions(m, active).contains(Action::RotateLease) {
        if !(active && !m.espresso_up) {
            assert(status_actions(m, active) =~= Seq::<Action>::empty());
        }
    }
    if timer_actions(m, now).contains(Action::RotateLease) {
        if stop_due(m, now) {
            assert(timer_actions(m, now)[0] != Action::RotateLease);
        } else if !renew_due(m, now) {
            assert(timer_actions(m, now) =~= Seq::<Action>::empty());
        }
    }
}

/// A tick before every deadline changes nothing; the deadline is the earliest
/// scheduled time.
pub proof fn lemma_quiet_before_deadline(m: MachineView, now: u64)
    requires
        deadline(m) matches Some(d) ==> now < d,
    ensures
        timer_actions(m, now) == Seq::<Action>::empty(),
        after_timer(m, now) == m,
{
}

/// A rotation is only ever asked for with a lease marked held, so a failed
/// rotation keeps the invariant.
pub proof fn lemma_rotation_only_when_held(m: MachineView, active: bool, now: u64)
    requires
        wf(m),
        now <= MAX_TIME,
    ensures
        status_actions(m, active).contains(Action::RotateLease) ==> after_status(
            m,
            active,
            now,
        ).espresso_up,
        timer_actions(m, now).contains(Action::RotateLease) ==> after_timer(m, now).espresso_up,
{
    if status_actions(m, active).contains(Action::RotateLease) {
        if !(active && !m.espresso_up) {
            assert(status_actions(m, active) =~= Seq::<Action>::empty());
        }
    }
    if timer_actions(m, now).contains(Action::RotateLease) {
        if stop_due(m, now) {
            assert(timer_actions(m, now)[0] != Action::RotateLease);
        } else if !renew_due(m, now) {
            assert(timer_actions(m, now) =~= Seq::<Action>::empty());
        }
    }
}

/// No stall: a tick at or after the reported deadline always has work to do,
/// so the loop never wakes for a deadline that fires nothing.
pub proof fn lemma_deadline_fires(m: MachineView, now: u64)
    requires
        deadline(m) matches Some(d) && now >= d,
    ensures
        timer_actions(m, now).len() == 1,
{
}

/// A status report never moves the renewal of a lease: an inactive report
/// only arms the release, and while a lease is held no report, active or not,
/// changes when it is next rotated. So a short idle blip cannot push the
/// renewal past the end of the lease taken.
pub proof fn lemma_status_keeps_renewal(m: MachineView, active: bool, now: u64)
    requires
        now <= MAX_TIME,
    ensures
        !active ==> after_status(m, active, now).next_renew == m.next_renew,
        m.espresso_up ==> after_status(m, active, now).next_renew == m.next_renew,
        m.espresso_up ==> after_status(m, active, now).espresso_up,
{
}

/// Only the first active report of an unheld pane schedules a renewal, one
/// interval after it.
pub proof fn lemma_renewal_set_by_opening(m: MachineView, active: bool, now: u64)
    requires
        now <= MAX_TIME,
        after_status(m, active, now).next_renew != m.next_renew,
    ensures
        active,
        !m.espresso_up,
        after_status(m, active, now).next_renew == Some((now + RENEW_INTERVAL) as u64),
{
}

} // verus!
