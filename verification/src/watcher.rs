use vstd::prelude::*;

use crate::consts::{MAX_TIME, RENEW_RETRY};
use crate::espresso::{EspCall, EspressoCtl, EspressoError, RotateOutcome};
use crate::herdr::{Rpc, Wake, Waiter};
use crate::policy::{
    active, after_status, after_timer, deadline, initial, is_active_status, status_actions,
    timer_actions, Action, Machine, MachineView,
};

verus! {

/// The longest single wait, in milliseconds, so that the loop re-reads the
/// status and notices the stop signal promptly even with no deadline pending.
pub const POLL_CAP: u64 = 1_000;

/// How long to wait at time `now`: until the next deadline, but never longer
/// than [`POLL_CAP`].
pub open spec fn wait_timeout(m: MachineView, now: u64) -> u64 {
    match deadline(m) {
        Some(d) => if d <= now {
            0
        } else if d - now < POLL_CAP {
            (d - now) as u64
        } else {
            POLL_CAP
        },
        None => POLL_CAP,
    }
}

/// The wait before the next look at the pane.
pub fn next_timeout(machine: &Machine, now: u64) -> (t: u64)
    ensures
        t == wait_timeout(machine@, now),
{
    match machine.next_deadline() {
        Some(d) => if d <= now {
            0
        } else if d - now < POLL_CAP {
            d - now
        } else {
            POLL_CAP
        },
        None => POLL_CAP,
    }
}

/// The loop never sleeps past a deadline, nor longer than [`POLL_CAP`].
pub proof fn lemma_wait_is_bounded(m: MachineView, now: u64)
    ensures
        wait_timeout(m, now) <= POLL_CAP,
        deadline(m) matches Some(d) ==> now + wait_timeout(m, now) <= d || d <= now,
{
}

/// A wake-up after which the watcher keeps going (and re-reads the status).
pub open spec fn keeps_watching(w: Wake) -> bool {
    w is Event || w is Timeout
}

/// Whether the loop goes on after this wake-up: a stop signal or a closed
/// event stream ends it.
pub fn continues_after(w: Wake) -> (r: bool)
    ensures
        r == keeps_watching(w),
{
    match w {
        Wake::Event | Wake::Timeout => true,
        Wake::Stop | Wake::Eof => false,
    }
}

/// The machine after a failed rotation at time `now`.
pub open spec fn rotate_failed(m: MachineView, now: u64) -> MachineView {
    MachineView { next_renew: Some((now + RENEW_RETRY) as u64), ..m }
}

/// Takes in the outcome of one rotation: a failure retries sooner; a missing
/// `espresso` also asks for a notification, the first time only. Returns
/// whether to notify.
pub fn note_rotate_result(
    result: &Result<(), EspressoError>,
    machine: &mut Machine,
    now: u64,
    warned_missing: &mut bool,
) -> (notify: bool)
    requires
        now <= MAX_TIME,
    ensures
        match result {
            Ok(()) => final(machine)@ == old(machine)@
                && *final(warned_missing) == *old(warned_missing) && !notify,
            Err(EspressoError::NotFound) => final(machine)@ == rotate_failed(old(machine)@, now)
                && *final(warned_missing) && notify == !*old(warned_missing),
            Err(EspressoError::Spawn(_)) => final(machine)@ == rotate_failed(old(machine)@, now)
                && *final(warned_missing) == *old(warned_missing) && !notify,
        },
{
    match result {
        Ok(()) => false,
        Err(EspressoError::NotFound) => {
            machine.note_rotate_failed(now);
            let first = !*warned_missing;
            *warned_missing = true;
            first
        },
        Err(EspressoError::Spawn(_)) => {
            machine.note_rotate_failed(now);
            false
        },
    }
}

/// The actions were carried out one for one and in order: a rotation for each
/// `RotateLease`, a release for each `KillEspresso`.
pub open spec fn carried_out(actions: Seq<Action>, calls: Seq<EspCall>) -> bool {
    &&& calls.len() == actions.len()
    &&& forall|i: int|
        0 <= i < actions.len() ==> (#[trigger] calls[i] is Rotate) == (actions[i]
            == Action::RotateLease)
}

/// A rotation that did not start a lease.
pub open spec fn failed_rotation(c: EspCall) -> bool {
    c is Rotate && c != EspCall::Rotate(RotateOutcome::Started)
}

/// Some rotation among the calls failed.
pub open spec fn some_failed(calls: Seq<EspCall>) -> bool
    decreases calls.len(),
{
    if calls.len() == 0 {
        false
    } else {
        some_failed(calls.drop_last()) || failed_rotation(calls.last())
    }
}

/// Some rotation among the calls found no `espresso` on `PATH`.
pub open spec fn some_missing(calls: Seq<EspCall>) -> bool
    decreases calls.len(),
{
    if calls.len() == 0 {
        false
    } else {
        some_missing(calls.drop_last()) || calls.last() == EspCall::Rotate(RotateOutcome::Missing)
    }
}

/// The notification shown when `espresso` is missing, as (title, body).
pub open spec fn missing_notice() -> (Seq<char>, Seq<char>) {
    ("espresso not found"@, "Install espresso and keep it on PATH."@)
}

/// The notifications owed for `calls`, given whether the missing-espresso
/// warning was already given: that warning, once, if a rotation found
/// `espresso` missing.
pub open spec fn notices_for(warned: bool, calls: Seq<EspCall>) -> Seq<(Seq<char>, Seq<char>)> {
    if some_missing(calls) && !warned {
        seq![missing_notice()]
    } else {
        Seq::empty()
    }
}

/// What was appended to a history that grew from `before` to `after`.
pub open spec fn added<T>(before: Seq<T>, after: Seq<T>) -> Seq<T> {
    after.skip(before.len() as int)
}

/// Carries out the policy's actions on the espresso hold, one for one and in
/// order: a rotation for each `RotateLease`, a release for each
/// `KillEspresso`. A failed rotation schedules the retry; a missing
/// `espresso` is reported once, the first time (tracked by
/// `warned_missing`). No status is read and the marker is left alone.
pub fn apply<R: Rpc, C: EspressoCtl>(
    actions: &Vec<Action>,
    esp: &mut C,
    rpc: &mut R,
    machine: &mut Machine,
    now: u64,
    warned_missing: &mut bool,
)
    requires
        now <= MAX_TIME,
    ensures
        final(esp).calls() == old(esp).calls() + added(old(esp).calls(), final(esp).calls()),
        carried_out(actions@, added(old(esp).calls(), final(esp).calls())),
        final(machine)@ == (if some_failed(added(old(esp).calls(), final(esp).calls())) {
            rotate_failed(old(machine)@, now)
        } else {
            old(machine)@
        }),
        *final(warned_missing) == (*old(warned_missing) || some_missing(
            added(old(esp).calls(), final(esp).calls()),
        )),
        final(rpc).notices() == old(rpc).notices() + notices_for(
            *old(warned_missing),
            added(old(esp).calls(), final(esp).calls()),
        ),
        final(rpc).statuses() == old(rpc).statuses(),
        final(rpc).markers() == old(rpc).markers(),
        actions@.len() == 0 ==> final(esp).held() == old(esp).held(),
        actions@.len() > 0 && actions@.last() == Action::KillEspresso ==> !final(esp).held(),
        actions@.len() > 0 && added(old(esp).calls(), final(esp).calls()).last() == EspCall::Rotate(
            RotateOutcome::Started,
        ) ==> final(esp).held(),
{
    let ghost c0 = esp.calls();
    let ghost m0 = machine@;
    let ghost w0 = *warned_missing;
    let ghost n0 = rpc.notices();
    let mut i: usize = 0;
    while i < actions.len()
        invariant
            now <= MAX_TIME,
            i <= actions@.len(),
            esp.calls().len() == c0.len() + i,
            esp.calls() == c0 + added(c0, esp.calls()),
            carried_out(actions@.take(i as int), added(c0, esp.calls())),
            machine@ == (if some_failed(added(c0, esp.calls())) {
                rotate_failed(m0, now)
            } else {
                m0
            }),
            *warned_missing == (w0 || some_missing(added(c0, esp.calls()))),
            rpc.notices() == n0 + notices_for(w0, added(c0, esp.calls())),
            rpc.statuses() == old(rpc).statuses(),
            rpc.markers() == old(rpc).markers(),
            c0 == old(esp).calls(),
            m0 == old(machine)@,
            w0 == *old(warned_missing),
            n0 == old(rpc).notices(),
            i == 0 ==> esp.held() == old(esp).held(),
            i > 0 && actions@[i - 1] == Action::KillEspresso ==> !esp.held(),
            i > 0 && added(c0, esp.calls()).last() == EspCall::Rotate(RotateOutcome::Started)
                ==> esp.held(),
        decreases actions@.len() - i,
    {
        let ghost seg = added(c0, esp.calls());
        let ghost before = esp.calls();
        match actions[i] {
            Action::RotateLease => {
                let result = esp.rotate();
                let ghost x = EspCall::Rotate(crate::espresso::rotate_outcome(result));
                assert(added(c0, esp.calls()) =~= seg.push(x));
                assert(seg.push(x).drop_last() =~= seg);
                let notify = note_rotate_result(&result, machine, now, warned_missing);
                if notify {
                    let _ = rpc.notify("espresso not found", "Install espresso and keep it on PATH.");
                    assert(rpc.notices() =~= n0 + seq![missing_notice()]);
                }
            },
            Action::KillEspresso => {
                esp.kill();
                assert(added(c0, esp.calls()) =~= seg.push(EspCall::Kill));
                assert(seg.push(EspCall::Kill).drop_last() =~= seg);
            },
        }
        assert(esp.calls() =~= c0 + added(c0, esp.calls()));
        assert(actions@.take(i + 1).drop_last() =~= actions@.take(i as int));
        assert forall|j: int| 0 <= j < i + 1 implies (#[trigger] added(c0, esp.calls())[j] is Rotate)
            == (actions@.take(i + 1)[j] == Action::RotateLease) by {
            if j < i {
                assert(added(c0, esp.calls())[j] == seg[j]);
                assert(actions@.take(i as int)[j] == actions@.take(i + 1)[j]);
            }
        }
        i = i + 1;
    }
    assert(actions@.take(actions@.len() as int) =~= actions@);
}

/// A clock reading as the policy takes it: the clock's value, held at
/// [`MAX_TIME`].
pub open spec fn clamped(raw: u64) -> u64 {
    if raw <= MAX_TIME {
        raw
    } else {
        MAX_TIME
    }
}

/// Each reading as the policy takes it.
pub open spec fn clamp_all(readings: Seq<u64>) -> Seq<u64> {
    readings.map_values(|r: u64| clamped(r))
}

/// A monotonic clock in milliseconds. `readings` is the ghost history of what
/// it returned, oldest first.
pub trait Clock {
    /// The readings taken so far.
    closed spec fn readings(&self) -> Seq<u64> {
        Seq::empty()
    }

    /// Reads the clock.
    fn now(&mut self) -> (t: u64)
        ensures
            final(self).readings() == old(self).readings().push(t),
    ;
}

/// The clock history grew from `before` to `after` by readings that, held at
/// [`MAX_TIME`], are `times`.
pub open spec fn extends_by(before: Seq<u64>, after: Seq<u64>, times: Seq<u64>) -> bool {
    after == before + added(before, after) && clamp_all(added(before, after)) == times
}

proof fn lemma_extends_trans(a: Seq<u64>, b: Seq<u64>, c: Seq<u64>, x: Seq<u64>, y: Seq<u64>)
    requires
        extends_by(a, b, x),
        extends_by(b, c, y),
    ensures
        extends_by(a, c, x + y),
{
    assert(added(a, c) =~= added(a, b) + added(b, c));
    assert(c =~= a + added(a, c));
    assert(clamp_all(added(a, b) + added(b, c)) =~= clamp_all(added(a, b)) + clamp_all(added(b, c)));
}

proof fn lemma_extends_none(a: Seq<u64>)
    ensures
        extends_by(a, a, Seq::empty()),
{
    assert(added(a, a) =~= Seq::<u64>::empty());
    assert(a =~= a + added(a, a));
    assert(clamp_all(added(a, a)) =~= Seq::<u64>::empty());
}

/// Reads the clock once, held at [`MAX_TIME`].
fn read_clock<K: Clock>(clock: &mut K) -> (t: u64)
    ensures
        t <= MAX_TIME,
        extends_by(old(clock).readings(), final(clock).readings(), seq![t]),
{
    let n = clock.now();
    let t = if n <= MAX_TIME {
        n
    } else {
        MAX_TIME
    };
    assert(added(old(clock).readings(), clock.readings()) =~= seq![n]);
    assert(clock.readings() =~= old(clock).readings() + seq![n]);
    assert(clamp_all(seq![n]) =~= seq![t]);
    t
}

/// The largest number of rounds one watcher runs.
pub const MAX_WAKES: u64 = 18_446_744_073_709_551_615;

/// What the watcher carries from step to step: the policy, and whether the
/// missing-espresso warning was given.
pub struct WatchState {
    /// The policy.
    pub machine: MachineView,
    /// The missing-espresso warning was given.
    pub warned: bool,
}

/// The state of a watcher that has seen nothing yet.
pub open spec fn start_state() -> WatchState {
    WatchState { machine: initial(), warned: false }
}

/// The state once `calls` were made at time `now`.
pub open spec fn after_calls(s: WatchState, now: u64, calls: Seq<EspCall>) -> WatchState {
    WatchState {
        machine: if some_failed(calls) {
            rotate_failed(s.machine, now)
        } else {
            s.machine
        },
        warned: s.warned || some_missing(calls),
    }
}

/// A status report `status` read at time `at`, whose actions `calls` carried
/// out.
pub open spec fn status_ok(s: WatchState, status: Seq<char>, at: u64, calls: Seq<EspCall>) -> bool {
    at <= MAX_TIME && carried_out(status_actions(s.machine, is_active_status(status)), calls)
}

/// The state after that status report.
pub open spec fn after_status_step(
    s: WatchState,
    status: Seq<char>,
    at: u64,
    calls: Seq<EspCall>,
) -> WatchState {
    after_calls(
        WatchState { machine: after_status(s.machine, is_active_status(status), at), ..s },
        at,
        calls,
    )
}

/// A timer tick at time `at`, whose actions `calls` carried out.
pub open spec fn timer_ok(s: WatchState, at: u64, calls: Seq<EspCall>) -> bool {
    at <= MAX_TIME && carried_out(timer_actions(s.machine, at), calls)
}

/// The state after that tick.
pub open spec fn after_timer_step(s: WatchState, at: u64, calls: Seq<EspCall>) -> WatchState {
    after_calls(WatchState { machine: after_timer(s.machine, at), ..s }, at, calls)
}

/// The wait asked in state `s`, where `clock` is the reading taken for it
/// (one is taken only while a deadline is pending).
pub open spec fn wait_asked(s: WatchState, clock: u64) -> u64 {
    if deadline(s.machine) is Some {
        wait_timeout(s.machine, clock)
    } else {
        POLL_CAP
    }
}

/// One full round of the watch loop: a wait that woke with an event or a
/// timeout, the status read after it, and the tick that follows.
pub struct Round {
    /// The clock reading that sized the wait, if a deadline was pending.
    pub clock: u64,
    /// What ended the wait.
    pub wake: Wake,
    /// The status read after it.
    pub status: Seq<char>,
    /// When the status was fed to the policy.
    pub status_at: u64,
    /// What the status's actions asked of the hold.
    pub status_calls: Seq<EspCall>,
    /// When the tick was fed to the policy.
    pub timer_at: u64,
    /// What the tick's actions asked of the hold.
    pub timer_calls: Seq<EspCall>,
}

/// The round is what the loop does in state `s`.
pub open spec fn round_ok(s: WatchState, r: Round) -> bool {
    &&& keeps_watching(r.wake)
    &&& status_ok(s, r.status, r.status_at, r.status_calls)
    &&& timer_ok(
        after_status_step(s, r.status, r.status_at, r.status_calls),
        r.timer_at,
        r.timer_calls,
    )
}

/// The clock readings taken for a wait in state `s`: one, `clock`, while a
/// deadline is pending, none otherwise.
pub open spec fn wait_times(s: WatchState, clock: u64) -> Seq<u64> {
    if deadline(s.machine) is Some {
        seq![clock]
    } else {
        Seq::empty()
    }
}

/// The clock readings a round takes, in order: for the wait, for the status,
/// for the tick.
pub open spec fn round_times(s: WatchState, r: Round) -> Seq<u64> {
    wait_times(s, r.clock) + seq![r.status_at, r.timer_at]
}

/// The state after a round.
pub open spec fn round_after(s: WatchState, r: Round) -> WatchState {
    after_timer_step(
        after_status_step(s, r.status, r.status_at, r.status_calls),
        r.timer_at,
        r.timer_calls,
    )
}

/// The notifications a round sends.
pub open spec fn round_notices(s: WatchState, r: Round) -> Seq<(Seq<char>, Seq<char>)> {
    notices_for(s.warned, r.status_calls) + notices_for(
        after_status_step(s, r.status, r.status_at, r.status_calls).warned,
        r.timer_calls,
    )
}

/// The state after the rounds, from `s0`.
pub open spec fn state_after(s0: WatchState, rounds: Seq<Round>) -> WatchState
    decreases rounds.len(),
{
    if rounds.len() == 0 {
        s0
    } else {
        round_after(state_after(s0, rounds.drop_last()), rounds.last())
    }
}

/// Each round is what the loop does in the state the earlier ones left.
pub open spec fn rounds_ok(s0: WatchState, rounds: Seq<Round>) -> bool
    decreases rounds.len(),
{
    if rounds.len() == 0 {
        true
    } else {
        rounds_ok(s0, rounds.drop_last()) && round_ok(
            state_after(s0, rounds.drop_last()),
            rounds.last(),
        )
    }
}

/// The waits of the rounds: the timeout asked and the wake-up.
pub open spec fn rounds_waits(s0: WatchState, rounds: Seq<Round>) -> Seq<(Option<u64>, Wake)>
    decreases rounds.len(),
{
    if rounds.len() == 0 {
        Seq::empty()
    } else {
        rounds_waits(s0, rounds.drop_last()).push(
            (Some(wait_asked(state_after(s0, rounds.drop_last()), rounds.last().clock)), rounds.last().wake),
        )
    }
}

/// The clock readings of the rounds.
pub open spec fn rounds_times(s0: WatchState, rounds: Seq<Round>) -> Seq<u64>
    decreases rounds.len(),
{
    if rounds.len() == 0 {
        Seq::empty()
    } else {
        rounds_times(s0, rounds.drop_last()) + round_times(
            state_after(s0, rounds.drop_last()),
            rounds.last(),
        )
    }
}

/// The status reads of the rounds.
pub open spec fn rounds_reads(rounds: Seq<Round>) -> Seq<Option<Seq<char>>>
    decreases rounds.len(),
{
    if rounds.len() == 0 {
        Seq::empty()
    } else {
        rounds_reads(rounds.drop_last()).push(Some(rounds.last().status))
    }
}

/// The requests the rounds made of the hold.
pub open spec fn rounds_calls(rounds: Seq<Round>) -> Seq<EspCall>
    decreases rounds.len(),
{
    if rounds.len() == 0 {
        Seq::empty()
    } else {
        rounds_calls(rounds.drop_last()) + rounds.last().status_calls + rounds.last().timer_calls
    }
}

/// The notifications the rounds sent.
pub open spec fn rounds_notices(s0: WatchState, rounds: Seq<Round>) -> Seq<(Seq<char>, Seq<char>)>
    decreases rounds.len(),
{
    if rounds.len() == 0 {
        Seq::empty()
    } else {
        rounds_notices(s0, rounds.drop_last()) + round_notices(
            state_after(s0, rounds.drop_last()),
            rounds.last(),
        )
    }
}

proof fn lemma_push_round(s0: WatchState, rounds: Seq<Round>, r: Round)
    ensures
        state_after(s0, rounds.push(r)) == round_after(state_after(s0, rounds), r),
        rounds_ok(s0, rounds.push(r)) == (rounds_ok(s0, rounds) && round_ok(
            state_after(s0, rounds),
            r,
        )),
        rounds_waits(s0, rounds.push(r)) == rounds_waits(s0, rounds).push(
            (Some(wait_asked(state_after(s0, rounds), r.clock)), r.wake),
        ),
        rounds_reads(rounds.push(r)) == rounds_reads(rounds).push(Some(r.status)),
        rounds_times(s0, rounds.push(r)) == rounds_times(s0, rounds) + round_times(
            state_after(s0, rounds),
            r,
        ),
        rounds_calls(rounds.push(r)) == rounds_calls(rounds) + r.status_calls + r.timer_calls,
        rounds_notices(s0, rounds.push(r)) == rounds_notices(s0, rounds) + round_notices(
            state_after(s0, rounds),
            r,
        ),
{
    assert(rounds.push(r).drop_last() =~= rounds);
}

/// How a watch ended.
pub enum Ending {
    /// The pane reported no status at the start: it was not watched.
    Unwatched,
    /// The loop ran its full count of rounds.
    Exhausted,
    /// A stop signal or a closed event stream ended the last wait (`clock` is
    /// the reading that sized it).
    Woken { clock: u64, wake: Wake },
    /// After the last wait the pane reported no status (gone, agent-less, or
    /// unreachable).
    Gone { clock: u64, wake: Wake },
}

/// The first status read of a watched pane, when it was fed to the policy,
/// and what its actions did.
pub struct Seed {
    /// The status read.
    pub status: Seq<char>,
    /// When it was fed to the policy.
    pub at: u64,
    /// What its actions asked of the hold.
    pub calls: Seq<EspCall>,
}

/// One whole watch: the seed (none for a pane that reported no status), the
/// full rounds, and how it ended.
pub struct Run {
    /// The first status read, when it reported one.
    pub seed: Option<Seed>,
    /// The full rounds, in order.
    pub rounds: Seq<Round>,
    /// How the watch ended.
    pub ending: Ending,
}

/// The state after the seed.
pub open spec fn seeded(sd: Seed) -> WatchState {
    after_status_step(start_state(), sd.status, sd.at, sd.calls)
}

/// The ending fits the state `s` that `k` rounds left.
pub open spec fn ending_ok(k: nat, e: Ending) -> bool {
    match e {
        Ending::Unwatched => false,
        Ending::Exhausted => k == MAX_WAKES,
        Ending::Woken { wake, .. } => !keeps_watching(wake),
        Ending::Gone { wake, .. } => keeps_watching(wake),
    }
}

/// The run is what the watch loop does.
pub open spec fn run_ok(run: Run) -> bool {
    match run.seed {
        None => run.rounds.len() == 0 && run.ending is Unwatched,
        Some(sd) => {
            &&& status_ok(start_state(), sd.status, sd.at, sd.calls)
            &&& rounds_ok(seeded(sd), run.rounds)
            &&& ending_ok(run.rounds.len(), run.ending)
        },
    }
}

/// The clock readings of the last, unfinished wait of a run that ended in
/// state `s`.
pub open spec fn ending_times(s: WatchState, e: Ending) -> Seq<u64> {
    match e {
        Ending::Woken { clock, .. } => wait_times(s, clock),
        Ending::Gone { clock, .. } => wait_times(s, clock),
        _ => Seq::empty(),
    }
}

/// The clock readings of a run, in the order taken.
pub open spec fn run_times(run: Run) -> Seq<u64> {
    match run.seed {
        None => Seq::empty(),
        Some(sd) => seq![sd.at] + rounds_times(seeded(sd), run.rounds) + ending_times(
            state_after(seeded(sd), run.rounds),
            run.ending,
        ),
    }
}

/// The status reads `reads`, all of pane `pane`.
pub open spec fn for_pane(
    pane: Seq<char>,
    reads: Seq<Option<Seq<char>>>,
) -> Seq<(Seq<char>, Option<Seq<char>>)> {
    reads.map_values(|x: Option<Seq<char>>| (pane, x))
}

/// The status reads a tail makes: one that found nothing, after a `Gone`.
pub open spec fn ending_reads(e: Ending) -> Seq<Option<Seq<char>>> {
    if e is Gone {
        seq![None]
    } else {
        Seq::empty()
    }
}

/// The last, unfinished wait of a run that ended in state `s`.
pub open spec fn ending_waits(s: WatchState, e: Ending) -> Seq<(Option<u64>, Wake)> {
    match e {
        Ending::Woken { clock, wake } => seq![(Some(wait_asked(s, clock)), wake)],
        Ending::Gone { clock, wake } => seq![(Some(wait_asked(s, clock)), wake)],
        _ => Seq::empty(),
    }
}

/// The status reads of a run.
pub open spec fn run_reads(run: Run) -> Seq<Option<Seq<char>>> {
    match run.seed {
        None => seq![None],
        Some(sd) => seq![Some(sd.status)] + rounds_reads(run.rounds) + ending_reads(run.ending),
    }
}

/// The waits of a run.
pub open spec fn run_waits(run: Run) -> Seq<(Option<u64>, Wake)> {
    match run.seed {
        None => Seq::empty(),
        Some(sd) => rounds_waits(seeded(sd), run.rounds) + ending_waits(
            state_after(seeded(sd), run.rounds),
            run.ending,
        ),
    }
}

/// The requests a run made of the hold before its cleanup.
pub open spec fn run_calls(run: Run) -> Seq<EspCall> {
    match run.seed {
        None => Seq::empty(),
        Some(sd) => sd.calls + rounds_calls(run.rounds),
    }
}

/// The notifications a run sent.
pub open spec fn run_notices(run: Run) -> Seq<(Seq<char>, Seq<char>)> {
    match run.seed {
        None => Seq::empty(),
        Some(sd) => notices_for(false, sd.calls) + rounds_notices(seeded(sd), run.rounds),
    }
}

proof fn lemma_some_missing_concat(a: Seq<EspCall>, b: Seq<EspCall>)
    ensures
        some_missing(a + b) == (some_missing(a) || some_missing(b)),
    decreases b.len(),
{
    if b.len() == 0 {
        assert(a + b =~= a);
    } else {
        lemma_some_missing_concat(a, b.drop_last());
        assert((a + b).drop_last() =~= a + b.drop_last());
        assert((a + b).last() == b.last());
    }
}

proof fn lemma_rounds_warn_once(s0: WatchState, rounds: Seq<Round>)
    ensures
        state_after(s0, rounds).warned == (s0.warned || some_missing(rounds_calls(rounds))),
        rounds_notices(s0, rounds) == (if some_missing(rounds_calls(rounds)) && !s0.warned {
            seq![missing_notice()]
        } else {
            Seq::empty()
        }),
    decreases rounds.len(),
{
    if rounds.len() > 0 {
        let rs = rounds.drop_last();
        let r = rounds.last();
        lemma_rounds_warn_once(s0, rs);
        lemma_some_missing_concat(rounds_calls(rs), r.status_calls);
        lemma_some_missing_concat(rounds_calls(rs) + r.status_calls, r.timer_calls);
        assert(rounds_notices(s0, rs) + round_notices(state_after(s0, rs), r) =~= (
        if some_missing(rounds_calls(rounds)) && !s0.warned {
            seq![missing_notice()]
        } else {
            Seq::empty()
        }));
    }
}

/// A watch sends exactly one notification when some rotation finds
/// `espresso` missing, the missing-espresso warning, and none otherwise: the
/// warning is given once, however often espresso is still missing later.
pub proof fn lemma_missing_espresso_warned_once(run: Run)
    ensures
        run_notices(run) == (if some_missing(run_calls(run)) {
            seq![missing_notice()]
        } else {
            Seq::empty()
        }),
{
    if let Some(sd) = run.seed {
        lemma_rounds_warn_once(seeded(sd), run.rounds);
        lemma_some_missing_concat(sd.calls, rounds_calls(run.rounds));
        assert(run_notices(run) =~= (if some_missing(run_calls(run)) {
            seq![missing_notice()]
        } else {
            Seq::empty()
        }));
    }
}

/// No rotation is among the calls.
pub open spec fn no_rotation(calls: Seq<EspCall>) -> bool {
    forall|i: int| 0 <= i < calls.len() ==> !(#[trigger] calls[i] is Rotate)
}

/// No read among these reported an active agent.
pub open spec fn no_active_read(reads: Seq<Option<Seq<char>>>) -> bool {
    forall|i: int|
        0 <= i < reads.len() ==> !(#[trigger] reads[i] matches Some(s) && is_active_status(s))
}

proof fn lemma_no_rotation_concat(a: Seq<EspCall>, b: Seq<EspCall>)
    requires
        no_rotation(a),
        no_rotation(b),
    ensures
        no_rotation(a + b),
{
    assert forall|i: int| 0 <= i < (a + b).len() implies !(#[trigger] (a + b)[i] is Rotate) by {
        if i < a.len() {
            assert((a + b)[i] == a[i]);
        } else {
            assert((a + b)[i] == b[i - a.len()]);
        }
    }
}

proof fn lemma_quiet_rounds(s0: WatchState, rounds: Seq<Round>)
    requires
        !s0.machine.active,
        rounds_ok(s0, rounds),
        no_active_read(rounds_reads(rounds)),
    ensures
        !state_after(s0, rounds).machine.active,
        no_rotation(rounds_calls(rounds)),
    decreases rounds.len(),
{
    if rounds.len() == 0 {
        assert(no_rotation(rounds_calls(rounds)));
    } else {
        let rs = rounds.drop_last();
        let r = rounds.last();
        assert(no_active_read(rounds_reads(rs))) by {
            assert forall|i: int| 0 <= i < rounds_reads(rs).len() implies !(
            #[trigger] rounds_reads(rs)[i] matches Some(s) && is_active_status(s)) by {
                assert(rounds_reads(rounds)[i] == rounds_reads(rs)[i]);
            }
        }
        lemma_quiet_rounds(s0, rs);
        let s = state_after(s0, rs);
        assert(rounds_reads(rounds)[rounds_reads(rs).len() as int] == Some(r.status));
        assert(!is_active_status(r.status));
        assert(status_actions(s.machine, false) =~= Seq::<Action>::empty());
        assert(no_rotation(r.status_calls));
        let mid = after_status_step(s, r.status, r.status_at, r.status_calls);
        assert(!mid.machine.active);
        assert(no_rotation(r.timer_calls)) by {
            assert forall|i: int| 0 <= i < r.timer_calls.len() implies !(
            #[trigger] r.timer_calls[i] is Rotate) by {
                assert(timer_actions(mid.machine, r.timer_at)[i] != Action::RotateLease);
            }
        }
        lemma_no_rotation_concat(rounds_calls(rs), r.status_calls);
        lemma_no_rotation_concat(rounds_calls(rs) + r.status_calls, r.timer_calls);
    }
}

/// A watch in which no status read reports an active agent never takes a
/// lease: every request made of the hold is a release.
pub proof fn lemma_no_lease_without_active_read(run: Run)
    requires
        run_ok(run),
        no_active_read(run_reads(run)),
    ensures
        no_rotation(run_calls(run)),
{
    if let Some(sd) = run.seed {
        let reads = run_reads(run);
        assert(reads[0] == Some(sd.status));
        assert(!is_active_status(sd.status));
        assert(status_actions(start_state().machine, false) =~= Seq::<Action>::empty());
        assert(no_rotation(sd.calls));
        assert(no_active_read(rounds_reads(run.rounds))) by {
            assert forall|i: int| 0 <= i < rounds_reads(run.rounds).len() implies !(
            #[trigger] rounds_reads(run.rounds)[i] matches Some(s) && is_active_status(s)) by {
                assert(reads[i + 1] == rounds_reads(run.rounds)[i]);
            }
        }
        lemma_quiet_rounds(seeded(sd), run.rounds);
        lemma_no_rotation_concat(sd.calls, rounds_calls(run.rounds));
    } else {
        assert(no_rotation(run_calls(run)));
    }
}

/// One round after an event or a timeout woke the wait (for which `at_wait`
/// was read): feeds the status read to the policy, then a timer tick, each at a
/// fresh clock reading, and carries out their actions.
fn feed_round<R: Rpc, C: EspressoCtl, K: Clock>(
    status: &str,
    wake: Wake,
    Ghost(at_wait): Ghost<u64>,
    rpc: &mut R,
    esp: &mut C,
    clock: &mut K,
    machine: &mut Machine,
    warned_missing: &mut bool,
) -> (r: Ghost<Round>)
    requires
        keeps_watching(wake),
    ensures
        r@.clock == at_wait,
        r@.wake == wake,
        r@.status == status@,
        round_ok(WatchState { machine: old(machine)@, warned: *old(warned_missing) }, r@),
        round_after(WatchState { machine: old(machine)@, warned: *old(warned_missing) }, r@)
            == (WatchState { machine: final(machine)@, warned: *final(warned_missing) }),
        final(esp).calls() == old(esp).calls() + r@.status_calls + r@.timer_calls,
        final(rpc).notices() == old(rpc).notices() + round_notices(
            WatchState { machine: old(machine)@, warned: *old(warned_missing) },
            r@,
        ),
        final(rpc).statuses() == old(rpc).statuses(),
        final(rpc).markers() == old(rpc).markers(),
        extends_by(
            old(clock).readings(),
            final(clock).readings(),
            seq![r@.status_at, r@.timer_at],
        ),
{
    let ghost s = WatchState { machine: machine@, warned: *warned_missing };
    let ghost k0 = clock.readings();
    let st = active(status);
    let n1 = read_clock(clock);
    let ghost k1 = clock.readings();
    let ghost cb1 = esp.calls();
    let acts = machine.on_status(st, n1);
    apply(&acts, esp, rpc, machine, n1, warned_missing);
    let ghost seg1 = added(cb1, esp.calls());
    let n2 = read_clock(clock);
    proof {
        lemma_extends_trans(k0, k1, clock.readings(), seq![n1], seq![n2]);
        assert(seq![n1] + seq![n2] =~= seq![n1, n2]);
    }
    let ghost cb2 = esp.calls();
    let acts = machine.on_timer(n2);
    apply(&acts, esp, rpc, machine, n2, warned_missing);
    let ghost seg2 = added(cb2, esp.calls());
    let ghost r = Round {
        clock: at_wait,
        wake,
        status: status@,
        status_at: n1,
        status_calls: seg1,
        timer_at: n2,
        timer_calls: seg2,
    };
    assert(esp.calls() =~= old(esp).calls() + seg1 + seg2);
    assert(rpc.notices() =~= old(rpc).notices() + round_notices(s, r));
    Ghost(r)
}

/// The watcher of one pane. Reads the pane's status once: a pane that is
/// gone, agent-less or unreachable is not watched. Otherwise it feeds that
/// status to the policy, then goes round: waits (until the next deadline, at
/// most [`POLL_CAP`]); on an event or a timeout re-reads the status, feeds it
/// and then a timer tick to the policy, carrying out their actions with
/// [`apply`]; a stop signal or a closed event stream ends the watch, and so
/// does a re-read that finds no status. On every way out espresso is released
/// and the pane's marker asked off, once each, in that order. The ghost
/// histories of `rpc`, `waiter`, `esp` and `clock` are exactly those of one
/// such run: every status read and marker request is for `pane_id`, and the
/// times fed to the policy are the clock's readings in the order taken (a
/// reading past [`MAX_TIME`] counts as [`MAX_TIME`]).
#[verifier::rlimit(40)]
pub fn run_loop<R: Rpc, W: Waiter, C: EspressoCtl, K: Clock>(
    pane_id: &str,
    rpc: &mut R,
    waiter: &mut W,
    esp: &mut C,
    clock: &mut K,
)
    ensures
        exists|run: Run|
            #[trigger] run_ok(run) && final(rpc).statuses() == old(rpc).statuses() + for_pane(
                pane_id@,
                run_reads(run),
            ) && final(waiter).waits() == old(waiter).waits() + run_waits(run)
                && final(esp).calls() == old(esp).calls() + run_calls(run).push(EspCall::Kill)
                && final(rpc).notices() == old(rpc).notices() + run_notices(run) && extends_by(
                old(clock).readings(),
                final(clock).readings(),
                run_times(run),
            ),
        final(rpc).markers() == old(rpc).markers().push((pane_id@, false)),
        !final(esp).held(),
{
    let ghost p = pane_id@;
    let ghost r0 = rpc.statuses();
    let ghost w0 = waiter.waits();
    let ghost c0 = esp.calls();
    let ghost n0 = rpc.notices();
    let ghost k0 = rpc.markers();
    let ghost t0 = clock.readings();
    let ghost mut run = Run { seed: None, rounds: Seq::empty(), ending: Ending::Unwatched };
    let mut machine = Machine::new();
    let mut warned_missing = false;

    // herdr sends no snapshot on subscribe: seed from the current status, so a
    // pane already working at toggle-on takes a lease at once.
    let seed = rpc.pane_status(pane_id);
    match seed {
        Ok(Some(text)) => {
            let st = active(text.as_str());
            let n = read_clock(clock);
            let ghost cb = esp.calls();
            let acts = machine.on_status(st, n);
            apply(&acts, esp, rpc, &mut machine, n, &mut warned_missing);
            let ghost sd = Seed { status: text@, at: n, calls: added(cb, esp.calls()) };
            let ghost mut rounds: Seq<Round> = Seq::empty();
            let ghost mut ending = Ending::Exhausted;
            assert(esp.calls() =~= c0 + sd.calls + rounds_calls(rounds));
            assert(rpc.statuses() =~= r0 + for_pane(p, seq![Some(sd.status)] + rounds_reads(rounds)));
            assert(waiter.waits() =~= w0 + rounds_waits(seeded(sd), rounds));
            assert(rpc.notices() =~= n0 + notices_for(false, sd.calls) + rounds_notices(
                seeded(sd),
                rounds,
            ));
            assert(seq![sd.at] + rounds_times(seeded(sd), rounds) =~= seq![sd.at]);
            let mut wakes: u64 = 0;
            loop
                invariant_except_break
                    p == pane_id@,
                    status_ok(start_state(), sd.status, sd.at, sd.calls),
                    wakes == rounds.len(),
                    machine@ == state_after(seeded(sd), rounds).machine,
                    warned_missing == state_after(seeded(sd), rounds).warned,
                    rounds_ok(seeded(sd), rounds),
                    rpc.statuses() == r0 + for_pane(p, seq![Some(sd.status)] + rounds_reads(rounds)),
                    waiter.waits() == w0 + rounds_waits(seeded(sd), rounds),
                    esp.calls() == c0 + sd.calls + rounds_calls(rounds),
                    rpc.notices() == n0 + notices_for(false, sd.calls) + rounds_notices(
                        seeded(sd),
                        rounds,
                    ),
                    rpc.markers() == k0,
                    extends_by(
                        t0,
                        clock.readings(),
                        seq![sd.at] + rounds_times(seeded(sd), rounds),
                    ),
                ensures
                    status_ok(start_state(), sd.status, sd.at, sd.calls),
                    rounds_ok(seeded(sd), rounds),
                    ending_ok(rounds.len(), ending),
                    rpc.statuses() == r0 + for_pane(
                        p,
                        seq![Some(sd.status)] + rounds_reads(rounds) + ending_reads(ending),
                    ),
                    waiter.waits() == w0 + rounds_waits(seeded(sd), rounds) + ending_waits(
                        state_after(seeded(sd), rounds),
                        ending,
                    ),
                    esp.calls() == c0 + sd.calls + rounds_calls(rounds),
                    rpc.notices() == n0 + notices_for(false, sd.calls) + rounds_notices(
                        seeded(sd),
                        rounds,
                    ),
                    rpc.markers() == k0,
                    extends_by(
                        t0,
                        clock.readings(),
                        seq![sd.at] + rounds_times(seeded(sd), rounds) + ending_times(
                            state_after(seeded(sd), rounds),
                            ending,
                        ),
                    ),
                decreases MAX_WAKES - wakes,
            {
                let ghost s = state_after(seeded(sd), rounds);
                let ghost before = seq![sd.at] + rounds_times(seeded(sd), rounds);
                if wakes == MAX_WAKES {
                    proof {
                        ending = Ending::Exhausted;
                        assert(seq![Some(sd.status)] + rounds_reads(rounds) + ending_reads(ending)
                            =~= seq![Some(sd.status)] + rounds_reads(rounds));
                        assert(waiter.waits() =~= w0 + rounds_waits(seeded(sd), rounds)
                            + ending_waits(s, ending));
                        assert(before + ending_times(s, ending) =~= before);
                    }
                    break;
                }
                let ghost tb = clock.readings();
                let ghost mut at_wait: u64 = 0;
                // The clock is read for the timeout only while a deadline is pending.
                let timeout = if machine.next_deadline().is_some() {
                    let t = read_clock(clock);
                    proof {
                        at_wait = t;
                    }
                    next_timeout(&machine, t)
                } else {
                    proof {
                        lemma_extends_none(tb);
                    }
                    POLL_CAP
                };
                proof {
                    assert(wait_times(s, at_wait) =~= (if deadline(s.machine) is Some {
                        seq![at_wait]
                    } else {
                        Seq::empty()
                    }));
                    lemma_extends_trans(t0, tb, clock.readings(), before, wait_times(s, at_wait));
                }
                assert(timeout == wait_asked(s, at_wait));
                let ghost tw = clock.readings();
                let wake = waiter.wait(Some(timeout));
                if !continues_after(wake) {
                    proof {
                        ending = Ending::Woken { clock: at_wait, wake };
                        assert(seq![Some(sd.status)] + rounds_reads(rounds) + ending_reads(ending)
                            =~= seq![Some(sd.status)] + rounds_reads(rounds));
                        assert(waiter.waits() =~= w0 + rounds_waits(seeded(sd), rounds)
                            + ending_waits(s, ending));
                    }
                    break;
                }
                // Re-read the authoritative status on every wake-up: herdr does
                // not push an event for every transition.
                let read = rpc.pane_status(pane_id);
                match read {
                    Ok(Some(text)) => {
                        let r = feed_round(
                            text.as_str(),
                            wake,
                            Ghost(at_wait),
                            rpc,
                            esp,
                            clock,
                            &mut machine,
                            &mut warned_missing,
                        );
                        proof {
                            lemma_extends_trans(
                                t0,
                                tw,
                                clock.readings(),
                                before + wait_times(s, at_wait),
                                seq![r@.status_at, r@.timer_at],
                            );
                            lemma_push_round(seeded(sd), rounds, r@);
                            assert(before + wait_times(s, at_wait) + seq![r@.status_at, r@.timer_at]
                                =~= seq![sd.at] + rounds_times(seeded(sd), rounds.push(r@)));
                            rounds = rounds.push(r@);
                            assert(rpc.statuses() =~= r0 + for_pane(
                                p,
                                seq![Some(sd.status)] + rounds_reads(rounds),
                            ));
                            assert(waiter.waits() =~= w0 + rounds_waits(seeded(sd), rounds));
                            assert(esp.calls() =~= c0 + sd.calls + rounds_calls(rounds));
                            assert(rpc.notices() =~= n0 + notices_for(false, sd.calls)
                                + rounds_notices(seeded(sd), rounds));
                        }
                        wakes = wakes + 1;
                    },
                    _ => {
                        proof {
                            ending = Ending::Gone { clock: at_wait, wake };
                            assert(rpc.statuses() =~= r0 + for_pane(
                                p,
                                seq![Some(sd.status)] + rounds_reads(rounds) + ending_reads(ending),
                            ));
                            assert(waiter.waits() =~= w0 + rounds_waits(seeded(sd), rounds)
                                + ending_waits(s, ending));
                        }
                        break;
                    },
                }
            }
            proof {
                run = Run { seed: Some(sd), rounds, ending };
                assert(run_ok(run));
                assert(rpc.statuses() =~= r0 + for_pane(p, run_reads(run)));
                assert(waiter.waits() =~= w0 + run_waits(run));
                assert(esp.calls() =~= c0 + run_calls(run));
                assert(rpc.notices() =~= n0 + run_notices(run));
            }
        },
        _ => {
            proof {
                lemma_extends_none(t0);
                assert(run_ok(run));
                assert(rpc.statuses() =~= r0 + for_pane(p, run_reads(run)));
                assert(waiter.waits() =~= w0 + run_waits(run));
                assert(esp.calls() =~= c0 + run_calls(run));
                assert(rpc.notices() =~= n0 + run_notices(run));
            }
        },
    }

    // Cleanup, on every way out.
    esp.kill();
    let _ = rpc.clear_marker(pane_id);
    assert(esp.calls() =~= c0 + run_calls(run).push(EspCall::Kill));
}

/// The wait never outlasts the cap nor overshoots the next deadline, and
/// reaches whichever comes first: a deadline nearer than [`POLL_CAP`] is waited
/// for exactly, a passed one not at all, and with none pending the wait is the
/// full cap.
pub proof fn lemma_wait_reaches_deadline(m: MachineView, now: u64, d: u64)
    ensures
        deadline(m) is None ==> wait_timeout(m, now) == POLL_CAP,
        deadline(m) == Some(d) && d <= now ==> wait_timeout(m, now) == 0,
        deadline(m) == Some(d) && now < d ==> wait_timeout(m, now) <= POLL_CAP,
        deadline(m) == Some(d) && now < d ==> now + wait_timeout(m, now) <= d,
        deadline(m) == Some(d) && now < d ==> wait_timeout(m, now) == POLL_CAP || now
            + wait_timeout(m, now) == d,
{
}

proof fn lemma_rounds_wake_on_event_or_timeout(s0: WatchState, rounds: Seq<Round>)
    requires
        rounds_ok(s0, rounds),
    ensures
        rounds_waits(s0, rounds).len() == rounds.len(),
        forall|i: int|
            0 <= i < rounds.len() ==> (#[trigger] rounds_waits(s0, rounds)[i]).1 == Wake::Event
                || rounds_waits(s0, rounds)[i].1 == Wake::Timeout,
    decreases rounds.len(),
{
    if rounds.len() > 0 {
        lemma_rounds_wake_on_event_or_timeout(s0, rounds.drop_last());
        assert forall|i: int| 0 <= i < rounds.len() implies (#[trigger] rounds_waits(
            s0,
            rounds,
        )[i]).1 == Wake::Event || rounds_waits(s0, rounds)[i].1 == Wake::Timeout by {
            if i < rounds.len() - 1 {
                assert(rounds_waits(s0, rounds)[i] == rounds_waits(s0, rounds.drop_last())[i]);
            }
        }
    }
}

/// A stop signal or a closed event stream ends the watch: a wait that woke
/// with `Stop` or `Eof` is the last wait of the run, after which nothing is
/// read; every earlier wait woke with an event or a timeout.
pub proof fn lemma_stop_ends_watch(run: Run, i: int)
    requires
        run_ok(run),
        0 <= i < run_waits(run).len(),
        run_waits(run)[i].1 == Wake::Stop || run_waits(run)[i].1 == Wake::Eof,
    ensures
        i == run_waits(run).len() - 1,
        run.ending matches Ending::Woken { wake, .. } && wake == run_waits(run)[i].1,
        run_reads(run).len() == run.rounds.len() + 1,
{
    if let Some(sd) = run.seed {
        let s0 = seeded(sd);
        lemma_rounds_wake_on_event_or_timeout(s0, run.rounds);
        let rw = rounds_waits(s0, run.rounds);
        let ew = ending_waits(state_after(s0, run.rounds), run.ending);
        assert(run_waits(run) == rw + ew);
        if i < rw.len() {
            assert(run_waits(run)[i] == rw[i]);
            assert(false);
        }
        assert(run_waits(run)[i] == ew[i - rw.len()]);
        assert(rounds_reads(run.rounds).len() == run.rounds.len()) by {
            lemma_rounds_reads_len(run.rounds);
        }
    }
}

proof fn lemma_rounds_reads_len(rounds: Seq<Round>)
    ensures
        rounds_reads(rounds).len() == rounds.len(),
    decreases rounds.len(),
{
    if rounds.len() > 0 {
        lemma_rounds_reads_len(rounds.drop_last());
    }
}

/// Only a stop signal or a closed event stream ends a wait for good; after
/// an event or a timeout the status is read again (a watch that ends on a read
/// finding no status woke with one of those).
pub proof fn lemma_what_ends_a_wait(run: Run)
    requires
        run_ok(run),
    ensures
        run.ending matches Ending::Woken { wake, .. } ==> wake == Wake::Stop || wake == Wake::Eof,
        run.ending matches Ending::Gone { wake, .. } ==> wake == Wake::Event || wake
            == Wake::Timeout,
{
}

} // verus!
