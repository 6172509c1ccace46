//! The decisions of acquiring a lock, as a state machine. The caller performs
//! each action (try the lock without blocking, print the waiting notice, take
//! a pending signal, sleep) and reports what happened as the next event.
//!
//! Acquisition that succeeds at once is silent; on contention one notice is
//! printed, the lock is polled every 100 milliseconds without a timeout, and a
//! pending termination signal stops the wait before the command runs.

use vstd::prelude::*;

verus! {

/// How long to sleep between two attempts on a busy lock.
pub const POLL_INTERVAL_MILLIS: u64 = 100;

/// The notice printed once when the lock is busy.
pub open spec fn waiting_notice_text(name: Seq<char>) -> Seq<char> {
    "agent-flock: waiting for lock \""@ + name + "\""@
}

/// The waiting notice holds the whole lock name, unchanged, between the quotes
/// after the fixed words `agent-flock: waiting for lock `.
pub proof fn lemma_waiting_notice_holds_the_name(name: Seq<char>)
    ensures
        waiting_notice_text(name) == "agent-flock: waiting for lock \""@ + name + "\""@,
        waiting_notice_text(name).len() == 32 + name.len(),
        waiting_notice_text(name).subrange(31, 31 + name.len() as int) == name,
        waiting_notice_text(name).last() == '"',
{
    reveal_strlit("agent-flock: waiting for lock \"");
    reveal_strlit("\"");
    let text = waiting_notice_text(name);
    assert(text.subrange(31, 31 + name.len() as int) =~= name);
}

/// The notice printed once when the lock is busy: `agent-flock: waiting for lock "<name>"`.
pub fn waiting_notice(name: &str) -> (notice: String)
    ensures
        notice@ == waiting_notice_text(name@),
        notice@ == "agent-flock: waiting for lock \""@ + name@ + "\""@,
        notice@.subrange(31, notice@.len() - 1) == name@,
{
    proof { lemma_waiting_notice_holds_the_name(name@); }
    let mut notice = String::from_str("agent-flock: waiting for lock \"");
    notice.append(name);
    notice.append("\"");
    notice
}

/// What one attempt to take the lock without blocking found.
#[derive(PartialEq, Eq, Structural, Clone, Copy, Debug)]
pub enum LockAttempt {
    /// The lock is now held.
    Acquired,
    /// Another process holds the lock.
    Busy,
    /// The attempt failed with an I/O error.
    Failed,
}

/// How acquisition ends.
#[derive(PartialEq, Eq, Structural, Clone, Copy, Debug)]
pub enum AcquireOutcome {
    /// The lock is held; `waited` tells whether the waiting notice was printed.
    Acquired { waited: bool },
    /// A termination signal arrived; the command must not run.
    Interrupted(i32),
    /// An attempt failed with an I/O error.
    Failed,
}

/// Where acquisition stands.
#[derive(PartialEq, Eq, Structural, Clone, Copy, Debug)]
pub enum AcquireState {
    /// Nothing has been done yet.
    Start,
    /// An attempt on the lock is under way.
    Trying { waited: bool },
    /// The waiting notice is being printed.
    Announcing,
    /// A pending signal is being taken; `locked` tells whether the lock is held.
    Checking { locked: bool, waited: bool },
    /// The caller sleeps before the next attempt.
    Sleeping,
    /// Acquisition has ended; `waited` tells whether the waiting notice was printed.
    Done { waited: bool },
}

/// What the caller reports back after an action.
#[derive(PartialEq, Eq, Structural, Clone, Copy, Debug)]
pub enum AcquireEvent {
    /// Acquisition begins.
    Begin,
    /// The result of an attempt on the lock.
    Attempted(LockAttempt),
    /// The waiting notice has been printed.
    Announced,
    /// The pending signal that was taken, if any.
    Checked(Option<i32>),
    /// The sleep is over.
    Slept,
}

/// What the caller must do next.
#[derive(PartialEq, Eq, Structural, Clone, Copy, Debug)]
pub enum AcquireAction {
    /// Try to take the lock without blocking.
    TryLock,
    /// Print the waiting notice and note the time.
    AnnounceWait,
    /// Take the pending termination signal, if any.
    TakeSignal,
    /// Sleep this many milliseconds.
    Sleep(u64),
    /// Stop: acquisition has ended this way.
    Finish(AcquireOutcome),
}

/// Whether `event` is the report that `state` waits for.
pub open spec fn acquire_accepts(state: AcquireState, event: AcquireEvent) -> bool {
    match (state, event) {
        (AcquireState::Start, AcquireEvent::Begin) => true,
        (AcquireState::Trying { .. }, AcquireEvent::Attempted(_)) => true,
        (AcquireState::Announcing, AcquireEvent::Announced) => true,
        (AcquireState::Checking { .. }, AcquireEvent::Checked(_)) => true,
        (AcquireState::Sleeping, AcquireEvent::Slept) => true,
        _ => false,
    }
}

/// One step of acquisition: the next state and the next action.
pub open spec fn acquire_step(state: AcquireState, event: AcquireEvent) -> (AcquireState, AcquireAction) {
    match (state, event) {
        (AcquireState::Start, AcquireEvent::Begin) =>
            (AcquireState::Trying { waited: false }, AcquireAction::TryLock),
        (AcquireState::Trying { waited }, AcquireEvent::Attempted(attempt)) => match attempt {
            LockAttempt::Acquired =>
                (AcquireState::Checking { locked: true, waited }, AcquireAction::TakeSignal),
            LockAttempt::Busy => if waited {
                (AcquireState::Checking { locked: false, waited: true }, AcquireAction::TakeSignal)
            } else {
                (AcquireState::Announcing, AcquireAction::AnnounceWait)
            },
            LockAttempt::Failed =>
                (AcquireState::Done { waited }, AcquireAction::Finish(AcquireOutcome::Failed)),
        },
        (AcquireState::Announcing, AcquireEvent::Announced) =>
            (AcquireState::Checking { locked: false, waited: true }, AcquireAction::TakeSignal),
        (AcquireState::Checking { locked, waited }, AcquireEvent::Checked(pending)) => match pending {
            Some(signal) =>
                (AcquireState::Done { waited }, AcquireAction::Finish(AcquireOutcome::Interrupted(signal))),
            None => if locked {
                (AcquireState::Done { waited }, AcquireAction::Finish(AcquireOutcome::Acquired { waited }))
            } else {
                (AcquireState::Sleeping, AcquireAction::Sleep(POLL_INTERVAL_MILLIS))
            },
        },
        (AcquireState::Sleeping, AcquireEvent::Slept) =>
            (AcquireState::Trying { waited: true }, AcquireAction::TryLock),
        _ => (state, AcquireAction::Finish(AcquireOutcome::Failed)),
    }
}

impl AcquireState {
    /// The state before acquisition begins.
    pub fn new() -> (state: AcquireState)
        ensures
            state == AcquireState::Start,
    {
        AcquireState::Start
    }

    /// Moves to the next state on `event` and tells the caller what to do next.
    pub fn advance(&mut self, event: AcquireEvent) -> (action: AcquireAction)
        requires
            acquire_accepts(*old(self), event),
        ensures
            (*final(self), action) == acquire_step(*old(self), event),
    {
        let (next, action) = match (*self, event) {
            (AcquireState::Start, AcquireEvent::Begin) =>
                (AcquireState::Trying { waited: false }, AcquireAction::TryLock),
            (AcquireState::Trying { waited }, AcquireEvent::Attempted(attempt)) => match attempt {
                LockAttempt::Acquired =>
                    (AcquireState::Checking { locked: true, waited }, AcquireAction::TakeSignal),
                LockAttempt::Busy => if waited {
                    (AcquireState::Checking { locked: false, waited: true }, AcquireAction::TakeSignal)
                } else {
                    (AcquireState::Announcing, AcquireAction::AnnounceWait)
                },
                LockAttempt::Failed =>
                    (AcquireState::Done { waited }, AcquireAction::Finish(AcquireOutcome::Failed)),
            },
            (AcquireState::Announcing, AcquireEvent::Announced) =>
                (AcquireState::Checking { locked: false, waited: true }, AcquireAction::TakeSignal),
            (AcquireState::Checking { locked, waited }, AcquireEvent::Checked(pending)) => match pending {
                Some(signal) =>
                    (AcquireState::Done { waited }, AcquireAction::Finish(AcquireOutcome::Interrupted(signal))),
                None => if locked {
                    (AcquireState::Done { waited }, AcquireAction::Finish(AcquireOutcome::Acquired { waited }))
                } else {
                    (AcquireState::Sleeping, AcquireAction::Sleep(POLL_INTERVAL_MILLIS))
                },
            },
            (AcquireState::Sleeping, AcquireEvent::Slept) =>
                (AcquireState::Trying { waited: true }, AcquireAction::TryLock),
            _ => (*self, AcquireAction::Finish(AcquireOutcome::Failed)),
        };
        *self = next;
        action
    }
}

/// Whether each event of `events` is, in turn, the report that the machine waits for.
pub open spec fn acquire_accepts_all(state: AcquireState, events: Seq<AcquireEvent>) -> bool
    decreases events.len(),
{
    events.len() == 0 || (acquire_accepts(state, events[0])
        && acquire_accepts_all(acquire_step(state, events[0]).0, events.drop_first()))
}

/// The actions answered to `events`, one per event, from `state`.
pub open spec fn acquire_actions(state: AcquireState, events: Seq<AcquireEvent>) -> Seq<AcquireAction>
    decreases events.len(),
{
    if events.len() == 0 {
        seq![]
    } else {
        let (next, action) = acquire_step(state, events[0]);
        seq![action] + acquire_actions(next, events.drop_first())
    }
}

/// The state after `events`, from `state`.
pub open spec fn acquire_final(state: AcquireState, events: Seq<AcquireEvent>) -> AcquireState
    decreases events.len(),
{
    if events.len() == 0 {
        state
    } else {
        acquire_final(acquire_step(state, events[0]).0, events.drop_first())
    }
}

/// The state before the event at position `k`.
pub open spec fn acquire_state_at(state: AcquireState, events: Seq<AcquireEvent>, k: int) -> AcquireState {
    acquire_final(state, events.take(k))
}

/// States that acquisition can reach: it polls a busy lock only after the
/// waiting notice.
pub open spec fn acquire_reachable(state: AcquireState) -> bool {
    match state {
        AcquireState::Checking { locked, waited } => locked || waited,
        _ => true,
    }
}

/// Each step keeps acquisition among its reachable states.
proof fn lemma_acquire_step_reachable(state: AcquireState, event: AcquireEvent)
    requires
        acquire_reachable(state),
    ensures
        acquire_reachable(acquire_step(state, event).0),
{
}

/// The answers to a run of events, position by position: the action at `k`
/// is the step from the state reached before `k`.
pub proof fn lemma_acquire_positions(state: AcquireState, events: Seq<AcquireEvent>, k: int)
    requires
        acquire_accepts_all(state, events),
        0 <= k < events.len(),
    ensures
        acquire_actions(state, events).len() == events.len(),
        acquire_accepts(acquire_state_at(state, events, k), events[k]),
        acquire_actions(state, events)[k] == acquire_step(acquire_state_at(state, events, k), events[k]).1,
        acquire_state_at(state, events, k + 1) == acquire_step(acquire_state_at(state, events, k), events[k]).0,
    decreases k,
{
    lemma_acquire_actions_len(state, events);
    let next = acquire_step(state, events[0]).0;
    assert(events.take(k + 1)[0] == events[0]);
    assert(acquire_final(state, events.take(k + 1)) == acquire_final(next, events.take(k + 1).drop_first()));
    if k == 0 {
        assert(events.take(0) =~= Seq::<AcquireEvent>::empty());
        assert(events.take(1).drop_first() =~= Seq::<AcquireEvent>::empty());
        assert(acquire_final(next, Seq::<AcquireEvent>::empty()) == next);
    } else {
        assert(events.take(k)[0] == events[0]);
        assert(acquire_final(state, events.take(k)) == acquire_final(next, events.take(k).drop_first()));
        lemma_acquire_positions(next, events.drop_first(), k - 1);
        assert(events.take(k).drop_first() =~= events.drop_first().take(k - 1));
        assert(events.take(k + 1).drop_first() =~= events.drop_first().take(k));
        assert(events.drop_first()[k - 1] == events[k]);
    }
}

proof fn lemma_acquire_actions_len(state: AcquireState, events: Seq<AcquireEvent>)
    ensures
        acquire_actions(state, events).len() == events.len(),
    decreases events.len(),
{
    if events.len() > 0 {
        lemma_acquire_actions_len(acquire_step(state, events[0]).0, events.drop_first());
    }
}

/// Every state reached from the start is reachable.
proof fn lemma_acquire_states_reachable(events: Seq<AcquireEvent>, k: int)
    requires
        acquire_accepts_all(AcquireState::Start, events),
        0 <= k <= events.len(),
    ensures
        acquire_reachable(acquire_state_at(AcquireState::Start, events, k)),
    decreases k,
{
    if k == 0 {
        assert(events.take(0) =~= Seq::<AcquireEvent>::empty());
    } else {
        lemma_acquire_states_reachable(events, k - 1);
        lemma_acquire_positions(AcquireState::Start, events, k - 1);
        lemma_acquire_step_reachable(acquire_state_at(AcquireState::Start, events, k - 1), events[k - 1]);
    }
}

/// Once acquisition has ended, no event is accepted: the last action of a run
/// that ends is its only `Finish`.
pub proof fn lemma_acquire_finish_is_last(state: AcquireState, events: Seq<AcquireEvent>, k: int)
    requires
        acquire_accepts_all(state, events),
        0 <= k < events.len(),
        acquire_actions(state, events)[k] is Finish,
    ensures
        k == events.len() - 1,
{
    lemma_acquire_positions(state, events, k);
    if k + 1 < events.len() {
        lemma_acquire_positions(state, events, k + 1);
    }
}

/// A termination signal taken while acquiring ends acquisition: the answer is
/// `Interrupted` with that signal, and nothing follows, so the command never runs.
pub proof fn lemma_acquire_signal_interrupts(events: Seq<AcquireEvent>, k: int, signal: i32)
    requires
        acquire_accepts_all(AcquireState::Start, events),
        0 <= k < events.len(),
        events[k] == AcquireEvent::Checked(Some(signal)),
    ensures
        acquire_actions(AcquireState::Start, events)[k] == AcquireAction::Finish(AcquireOutcome::Interrupted(signal)),
        k == events.len() - 1,
{
    lemma_acquire_positions(AcquireState::Start, events, k);
    lemma_acquire_finish_is_last(AcquireState::Start, events, k);
}

/// The lock is reported acquired only right after an attempt that took it,
/// followed by a check that found no pending signal.
pub proof fn lemma_acquire_only_when_held(events: Seq<AcquireEvent>, k: int, waited: bool)
    requires
        acquire_accepts_all(AcquireState::Start, events),
        0 <= k < events.len(),
        acquire_actions(AcquireState::Start, events)[k] == AcquireAction::Finish(AcquireOutcome::Acquired { waited }),
    ensures
        events[k] == AcquireEvent::Checked(None),
        k >= 1,
        events[k - 1] == AcquireEvent::Attempted(LockAttempt::Acquired),
{
    lemma_acquire_positions(AcquireState::Start, events, k);
    let before = acquire_state_at(AcquireState::Start, events, k);
    assert(before matches AcquireState::Checking { locked: true, .. });
    if k == 0 {
        assert(events.take(0) =~= Seq::<AcquireEvent>::empty());
    } else {
        lemma_acquire_positions(AcquireState::Start, events, k - 1);
    }
}

/// Between two attempts on a busy lock there is always a check for a pending
/// signal: a sleep answers only a check that found none.
pub proof fn lemma_acquire_sleeps_after_check(events: Seq<AcquireEvent>, k: int)
    requires
        acquire_accepts_all(AcquireState::Start, events),
        0 <= k < events.len(),
        acquire_actions(AcquireState::Start, events)[k] is Sleep,
    ensures
        events[k] == AcquireEvent::Checked(None),
        acquire_actions(AcquireState::Start, events)[k] == AcquireAction::Sleep(POLL_INTERVAL_MILLIS),
        acquire_actions(AcquireState::Start, events)[k] == AcquireAction::Sleep(100),
{
    lemma_acquire_positions(AcquireState::Start, events, k);
}

/// Waiting has no timeout: acquisition ends only on an attempt that failed, or
/// on a check for a pending signal (after the lock was taken, or before a sleep).
pub proof fn lemma_acquire_waits_without_timeout(events: Seq<AcquireEvent>, k: int)
    requires
        acquire_accepts_all(AcquireState::Start, events),
        0 <= k < events.len(),
        acquire_actions(AcquireState::Start, events)[k] is Finish,
    ensures
        events[k] == AcquireEvent::Attempted(LockAttempt::Failed) || events[k] is Checked,
{
    lemma_acquire_positions(AcquireState::Start, events, k);
}

/// An attempt that fails with an I/O error ends acquisition with `Failed`,
/// and `Failed` answers nothing else.
pub proof fn lemma_acquire_failure(events: Seq<AcquireEvent>, k: int)
    requires
        acquire_accepts_all(AcquireState::Start, events),
        0 <= k < events.len(),
    ensures
        (events[k] == AcquireEvent::Attempted(LockAttempt::Failed))
            <==> (acquire_actions(AcquireState::Start, events)[k] == AcquireAction::Finish(AcquireOutcome::Failed)),
{
    lemma_acquire_positions(AcquireState::Start, events, k);
}

/// Whether the state comes after the waiting notice.
pub open spec fn acquire_has_announced(state: AcquireState) -> bool {
    match state {
        AcquireState::Start => false,
        AcquireState::Trying { waited } => waited,
        AcquireState::Announcing => true,
        AcquireState::Checking { waited, .. } => waited,
        AcquireState::Sleeping => true,
        AcquireState::Done { waited } => waited,
    }
}

/// One step prints the notice exactly when it moves from before the notice to after it.
proof fn lemma_acquire_step_announces(state: AcquireState, event: AcquireEvent)
    requires
        acquire_reachable(state),
        acquire_accepts(state, event),
    ensures
        acquire_has_announced(acquire_step(state, event).0)
            <==> (acquire_has_announced(state) || acquire_step(state, event).1 == AcquireAction::AnnounceWait),
        acquire_has_announced(state) ==> acquire_step(state, event).1 != AcquireAction::AnnounceWait,
        (acquire_step(state, event).0 is Announcing) <==> (!acquire_has_announced(state)
            && event == AcquireEvent::Attempted(LockAttempt::Busy)),
        (!acquire_has_announced(state) && event == AcquireEvent::Attempted(LockAttempt::Busy))
            ==> acquire_step(state, event).1 == AcquireAction::AnnounceWait,
{
}

proof fn lemma_acquire_announced_up_to(events: Seq<AcquireEvent>, k: int)
    requires
        acquire_accepts_all(AcquireState::Start, events),
        0 <= k <= events.len(),
    ensures
        acquire_has_announced(acquire_state_at(AcquireState::Start, events, k))
            <==> exists|i: int| 0 <= i < k && acquire_actions(AcquireState::Start, events)[i] == AcquireAction::AnnounceWait,
        acquire_has_announced(acquire_state_at(AcquireState::Start, events, k)) ==> forall|i: int|
            k <= i < events.len() ==> acquire_actions(AcquireState::Start, events)[i] != AcquireAction::AnnounceWait,
    decreases k,
{
    let actions = acquire_actions(AcquireState::Start, events);
    lemma_acquire_actions_len(AcquireState::Start, events);
    if k == 0 {
        assert(events.take(0) =~= Seq::<AcquireEvent>::empty());
    } else {
        lemma_acquire_announced_up_to(events, k - 1);
        lemma_acquire_positions(AcquireState::Start, events, k - 1);
        lemma_acquire_states_reachable(events, k - 1);
        let before = acquire_state_at(AcquireState::Start, events, k - 1);
        lemma_acquire_step_announces(before, events[k - 1]);
        if actions[k - 1] == AcquireAction::AnnounceWait {
            assert(exists|i: int| 0 <= i < k && actions[i] == AcquireAction::AnnounceWait);
        }
        if exists|i: int| 0 <= i < k && actions[i] == AcquireAction::AnnounceWait {
            let i = choose|i: int| 0 <= i < k && actions[i] == AcquireAction::AnnounceWait;
            if i < k - 1 {
                assert(exists|i: int| 0 <= i < k - 1 && actions[i] == AcquireAction::AnnounceWait);
            }
        }
    }
    if acquire_has_announced(acquire_state_at(AcquireState::Start, events, k)) {
        assert forall|i: int| k <= i < events.len() implies actions[i] != AcquireAction::AnnounceWait by {
            lemma_acquire_still_announced(events, k, i);
            lemma_acquire_positions(AcquireState::Start, events, i);
        }
    }
}

proof fn lemma_acquire_still_announced(events: Seq<AcquireEvent>, k: int, i: int)
    requires
        acquire_accepts_all(AcquireState::Start, events),
        0 <= k <= i <= events.len(),
        acquire_has_announced(acquire_state_at(AcquireState::Start, events, k)),
    ensures
        acquire_has_announced(acquire_state_at(AcquireState::Start, events, i)),
    decreases i - k,
{
    if k < i {
        lemma_acquire_still_announced(events, k, i - 1);
        lemma_acquire_positions(AcquireState::Start, events, i - 1);
        lemma_acquire_states_reachable(events, i - 1);
        lemma_acquire_step_announces(acquire_state_at(AcquireState::Start, events, i - 1), events[i - 1]);
    }
}

/// The waiting notice is printed at most once.
pub proof fn lemma_acquire_announces_at_most_once(events: Seq<AcquireEvent>, i: int, j: int)
    requires
        acquire_accepts_all(AcquireState::Start, events),
        0 <= i < j < events.len(),
        acquire_actions(AcquireState::Start, events)[i] == AcquireAction::AnnounceWait,
    ensures
        acquire_actions(AcquireState::Start, events)[j] != AcquireAction::AnnounceWait,
{
    lemma_acquire_announced_up_to(events, i + 1);
}

/// Acquisition that succeeds is quiet exactly when it did not wait: the
/// outcome says it waited if and only if the waiting notice was printed, so
/// an immediate acquisition prints nothing and a contended one prints the
/// notice once, then the acquisition line.
pub proof fn lemma_acquire_quiet_unless_contended(events: Seq<AcquireEvent>, k: int, waited: bool)
    requires
        acquire_accepts_all(AcquireState::Start, events),
        0 <= k < events.len(),
        acquire_actions(AcquireState::Start, events)[k] == AcquireAction::Finish(AcquireOutcome::Acquired { waited }),
    ensures
        waited <==> exists|i: int| 0 <= i < events.len()
            && acquire_actions(AcquireState::Start, events)[i] == AcquireAction::AnnounceWait,
        waited <==> exists|i: int| 0 <= i < events.len()
            && events[i] == AcquireEvent::Attempted(LockAttempt::Busy),
{
    let actions = acquire_actions(AcquireState::Start, events);
    lemma_acquire_positions(AcquireState::Start, events, k);
    lemma_acquire_finish_is_last(AcquireState::Start, events, k);
    lemma_acquire_announced_up_to(events, k);
    lemma_acquire_announced_up_to(events, k + 1);
    lemma_acquire_busy_up_to(events, k);
}

proof fn lemma_acquire_busy_up_to(events: Seq<AcquireEvent>, k: int)
    requires
        acquire_accepts_all(AcquireState::Start, events),
        0 <= k <= events.len(),
    ensures
        acquire_has_announced(acquire_state_at(AcquireState::Start, events, k))
            <== exists|i: int| 0 <= i < k && events[i] == AcquireEvent::Attempted(LockAttempt::Busy),
        acquire_has_announced(acquire_state_at(AcquireState::Start, events, k)) && !(acquire_state_at(AcquireState::Start, events, k) is Announcing)
            ==> exists|i: int| 0 <= i < k && events[i] == AcquireEvent::Attempted(LockAttempt::Busy),
        acquire_state_at(AcquireState::Start, events, k) is Announcing
            ==> k >= 1 && events[k - 1] == AcquireEvent::Attempted(LockAttempt::Busy),
    decreases k,
{
    if k == 0 {
        assert(events.take(0) =~= Seq::<AcquireEvent>::empty());
    } else {
        lemma_acquire_busy_up_to(events, k - 1);
        lemma_acquire_positions(AcquireState::Start, events, k - 1);
        lemma_acquire_states_reachable(events, k - 1);
        lemma_acquire_step_announces(acquire_state_at(AcquireState::Start, events, k - 1), events[k - 1]);
        if exists|i: int| 0 <= i < k && events[i] == AcquireEvent::Attempted(LockAttempt::Busy) {
            let i = choose|i: int| 0 <= i < k && events[i] == AcquireEvent::Attempted(LockAttempt::Busy);
            if i < k - 1 {
                assert(exists|i: int| 0 <= i < k - 1 && events[i] == AcquireEvent::Attempted(LockAttempt::Busy));
                lemma_acquire_still_announced(events, k - 1, k);
            }
        }
        let before = acquire_state_at(AcquireState::Start, events, k - 1);
        if before is Announcing {
            assert(events[k - 2] == AcquireEvent::Attempted(LockAttempt::Busy));
        }
        if acquire_has_announced(before) && !(before is Announcing) {
            let i = choose|i: int| 0 <= i < k - 1 && events[i] == AcquireEvent::Attempted(LockAttempt::Busy);
            assert(0 <= i < k && events[i] == AcquireEvent::Attempted(LockAttempt::Busy));
        }
    }
}

} // verus!
