//! The decisions of running the guarded command, as a state machine. The
//! caller starts the command, then performs each action (take a pending
//! signal, send it to the command, look whether the command has finished,
//! sleep) and reports what happened as the next event.
//!
//! A signal that the wrapper receives is sent on to the command; the wrapper
//! then keeps waiting for the command and, once it has finished, ends the same
//! way: with the command's signal, else with the first signal it received,
//! else with the command's exit code.

use vstd::prelude::*;

verus! {

/// How long to sleep between two looks at a running command.
pub const WAIT_INTERVAL_MILLIS: u64 = 20;

/// The exit code used when a finished command reports neither a code nor a signal.
pub const UNKNOWN_EXIT_CODE: i32 = 1;

/// How the guarded command ended, as the wrapper must end too.
#[derive(PartialEq, Eq, Structural, Clone, Copy, Debug)]
pub enum CommandOutcome {
    /// Exit with this code.
    Exit(i32),
    /// Terminate by this signal.
    Signal(i32),
}

/// What sending a signal to the command did.
#[derive(PartialEq, Eq, Structural, Clone, Copy, Debug)]
pub enum SignalDelivery {
    /// The signal was sent.
    Delivered,
    /// The command no longer exists.
    Vanished,
    /// Sending failed for another reason.
    Failed,
}

/// What a look at the command found.
#[derive(PartialEq, Eq, Structural, Clone, Copy, Debug)]
pub enum ChildStatus {
    /// It is still running.
    Running,
    /// It has finished, killed by `signal` or exiting with `code`.
    Exited { signal: Option<i32>, code: Option<i32> },
    /// The look failed with an I/O error.
    Unknown,
}

/// How running the command ends.
#[derive(PartialEq, Eq, Structural, Clone, Copy, Debug)]
pub enum ForwardResult {
    /// The command finished; the wrapper ends this way.
    Completed(CommandOutcome),
    /// The command finished, but sending it a signal had failed: report the
    /// first such error.
    DeliveryFailed,
    /// Looking at the command failed: report that error.
    WaitFailed,
}

/// Which report the machine waits for.
#[derive(PartialEq, Eq, Structural, Clone, Copy, Debug)]
pub enum ForwardPhase {
    Start,
    Polling,
    Sending,
    Waiting,
    Sleeping,
    Done,
}

/// Where running the command stands.
#[derive(PartialEq, Eq, Structural, Clone, Copy, Debug)]
pub struct ForwardState {
    pub phase: ForwardPhase,
    /// The first signal the wrapper received, if any.
    pub received: Option<i32>,
    /// Whether sending a signal to the command has failed.
    pub delivery_failed: bool,
}

/// What the caller reports back after an action.
#[derive(PartialEq, Eq, Structural, Clone, Copy, Debug)]
pub enum ForwardEvent {
    /// The command has been started.
    Begin,
    /// The pending signal that was taken, if any.
    Taken(Option<i32>),
    /// What sending the signal did.
    Sent(SignalDelivery),
    /// What the look at the command found.
    Waited(ChildStatus),
    /// The sleep is over.
    Slept,
}

/// What the caller must do next.
#[derive(PartialEq, Eq, Structural, Clone, Copy, Debug)]
pub enum ForwardAction {
    /// Take the pending signal, if any.
    TakeSignal,
    /// Send this signal to the command.
    SendSignal(i32),
    /// Look whether the command has finished; first, when `keep_error`, keep
    /// the error of the failed sending as the one to report.
    TryWait { keep_error: bool },
    /// Sleep this many milliseconds.
    Sleep(u64),
    /// Stop: running the command has ended this way.
    Finish(ForwardResult),
}

/// How the wrapper ends once the command has finished.
pub open spec fn exit_result(delivery_failed: bool, received: Option<i32>, signal: Option<i32>, code: Option<i32>) -> ForwardResult {
    if delivery_failed {
        ForwardResult::DeliveryFailed
    } else {
        match signal {
            Some(s) => ForwardResult::Completed(CommandOutcome::Signal(s)),
            None => match received {
                Some(r) => ForwardResult::Completed(CommandOutcome::Signal(r)),
                None => ForwardResult::Completed(CommandOutcome::Exit(
                    match code {
                        Some(c) => c,
                        None => UNKNOWN_EXIT_CODE,
                    },
                )),
            },
        }
    }
}

/// How the wrapper ends once the command has finished: with the error of a
/// failed sending, else as the command was killed, else by the first signal
/// the wrapper received, else with the command's exit code (1 without one).
pub fn finished_command(delivery_failed: bool, received: Option<i32>, signal: Option<i32>, code: Option<i32>) -> (result: ForwardResult)
    ensures
        result == exit_result(delivery_failed, received, signal, code),
        !delivery_failed && signal is Some ==> result == ForwardResult::Completed(CommandOutcome::Signal(signal->0)),
        !delivery_failed && signal is None && received is Some
            ==> result == ForwardResult::Completed(CommandOutcome::Signal(received->0)),
        !delivery_failed && signal is None && received is None && code is Some
            ==> result == ForwardResult::Completed(CommandOutcome::Exit(code->0)),
        !delivery_failed && signal is None && received is None && code is None
            ==> result == ForwardResult::Completed(CommandOutcome::Exit(1)),
        delivery_failed ==> result == ForwardResult::DeliveryFailed,
{
    if delivery_failed {
        return ForwardResult::DeliveryFailed;
    }
    match signal {
        Some(s) => ForwardResult::Completed(CommandOutcome::Signal(s)),
        None => match received {
            Some(r) => ForwardResult::Completed(CommandOutcome::Signal(r)),
            None => ForwardResult::Completed(CommandOutcome::Exit(
                match code {
                    Some(c) => c,
                    None => UNKNOWN_EXIT_CODE,
                },
            )),
        },
    }
}

/// Whether `event` is the report that `state` waits for.
pub open spec fn forward_accepts(state: ForwardState, event: ForwardEvent) -> bool {
    match (state.phase, event) {
        (ForwardPhase::Start, ForwardEvent::Begin) => true,
        (ForwardPhase::Polling, ForwardEvent::Taken(_)) => true,
        (ForwardPhase::Sending, ForwardEvent::Sent(_)) => true,
        (ForwardPhase::Waiting, ForwardEvent::Waited(_)) => true,
        (ForwardPhase::Sleeping, ForwardEvent::Slept) => true,
        _ => false,
    }
}

/// One step of running the command: the next state and the next action.
pub open spec fn forward_step(state: ForwardState, event: ForwardEvent) -> (ForwardState, ForwardAction) {
    match (state.phase, event) {
        (ForwardPhase::Start, ForwardEvent::Begin) =>
            (ForwardState { phase: ForwardPhase::Polling, ..state }, ForwardAction::TakeSignal),
        (ForwardPhase::Polling, ForwardEvent::Taken(pending)) => match pending {
            Some(signal) => (
                ForwardState {
                    phase: ForwardPhase::Sending,
                    received: match state.received {
                        Some(first) => Some(first),
                        None => Some(signal),
                    },
                    ..state
                },
                ForwardAction::SendSignal(signal),
            ),
            None => (ForwardState { phase: ForwardPhase::Waiting, ..state }, ForwardAction::TryWait { keep_error: false }),
        },
        (ForwardPhase::Sending, ForwardEvent::Sent(delivery)) => match delivery {
            SignalDelivery::Failed => (
                ForwardState { phase: ForwardPhase::Waiting, delivery_failed: true, ..state },
                ForwardAction::TryWait { keep_error: !state.delivery_failed },
            ),
            _ => (ForwardState { phase: ForwardPhase::Waiting, ..state }, ForwardAction::TryWait { keep_error: false }),
        },
        (ForwardPhase::Waiting, ForwardEvent::Waited(status)) => match status {
            ChildStatus::Running =>
                (ForwardState { phase: ForwardPhase::Sleeping, ..state }, ForwardAction::Sleep(WAIT_INTERVAL_MILLIS)),
            ChildStatus::Exited { signal, code } => (
                ForwardState { phase: ForwardPhase::Done, ..state },
                ForwardAction::Finish(exit_result(state.delivery_failed, state.received, signal, code)),
            ),
            ChildStatus::Unknown =>
                (ForwardState { phase: ForwardPhase::Done, ..state }, ForwardAction::Finish(ForwardResult::WaitFailed)),
        },
        (ForwardPhase::Sleeping, ForwardEvent::Slept) =>
            (ForwardState { phase: ForwardPhase::Polling, ..state }, ForwardAction::TakeSignal),
        _ => (state, ForwardAction::Finish(ForwardResult::WaitFailed)),
    }
}

impl ForwardState {
    /// The state before the command starts: no signal received, no failure.
    pub fn new() -> (state: ForwardState)
        ensures
            state == (ForwardState { phase: ForwardPhase::Start, received: None, delivery_failed: false }),
    {
        ForwardState { phase: ForwardPhase::Start, received: None, delivery_failed: false }
    }

    /// Moves to the next state on `event` and tells the caller what to do next.
    pub fn advance(&mut self, event: ForwardEvent) -> (action: ForwardAction)
        requires
            forward_accepts(*old(self), event),
        ensures
            (*final(self), action) == forward_step(*old(self), event),
            event == ForwardEvent::Taken(None) ==> action == (ForwardAction::TryWait { keep_error: false }),
            event matches ForwardEvent::Taken(Some(signal)) ==> action == ForwardAction::SendSignal(signal),
            event == ForwardEvent::Waited(ChildStatus::Running) ==> action == ForwardAction::Sleep(20),
            event == ForwardEvent::Slept ==> action == ForwardAction::TakeSignal,
    {
        let state = *self;
        let (next, action) = match event {
            ForwardEvent::Begin =>
                (ForwardState { phase: ForwardPhase::Polling, ..state }, ForwardAction::TakeSignal),
            ForwardEvent::Taken(pending) => match pending {
                Some(signal) => (
                    ForwardState {
                        phase: ForwardPhase::Sending,
                        received: match state.received {
                            Some(first) => Some(first),
                            None => Some(signal),
                        },
                        ..state
                    },
                    ForwardAction::SendSignal(signal),
                ),
                None => (ForwardState { phase: ForwardPhase::Waiting, ..state }, ForwardAction::TryWait { keep_error: false }),
            },
            ForwardEvent::Sent(delivery) => match delivery {
                SignalDelivery::Failed => (
                    ForwardState { phase: ForwardPhase::Waiting, delivery_failed: true, ..state },
                    ForwardAction::TryWait { keep_error: !state.delivery_failed },
                ),
                _ => (ForwardState { phase: ForwardPhase::Waiting, ..state }, ForwardAction::TryWait { keep_error: false }),
            },
            ForwardEvent::Waited(status) => match status {
                ChildStatus::Running =>
                    (ForwardState { phase: ForwardPhase::Sleeping, ..state }, ForwardAction::Sleep(WAIT_INTERVAL_MILLIS)),
                ChildStatus::Exited { signal, code } => (
                    ForwardState { phase: ForwardPhase::Done, ..state },
                    ForwardAction::Finish(finished_command(state.delivery_failed, state.received, signal, code)),
                ),
                ChildStatus::Unknown =>
                    (ForwardState { phase: ForwardPhase::Done, ..state }, ForwardAction::Finish(ForwardResult::WaitFailed)),
            },
            ForwardEvent::Slept =>
                (ForwardState { phase: ForwardPhase::Polling, ..state }, ForwardAction::TakeSignal),
        };
        *self = next;
        action
    }
}

/// The state before the command starts.
pub open spec fn forward_initial() -> ForwardState {
    ForwardState { phase: ForwardPhase::Start, received: None, delivery_failed: false }
}

/// Whether each event of `events` is, in turn, the report that the machine waits for.
pub open spec fn forward_accepts_all(state: ForwardState, events: Seq<ForwardEvent>) -> bool
    decreases events.len(),
{
    events.len() == 0 || (forward_accepts(state, events[0])
        && forward_accepts_all(forward_step(state, events[0]).0, events.drop_first()))
}

/// The actions answered to `events`, one per event, from `state`.
pub open spec fn forward_actions(state: ForwardState, events: Seq<ForwardEvent>) -> Seq<ForwardAction>
    decreases events.len(),
{
    if events.len() == 0 {
        seq![]
    } else {
        let (next, action) = forward_step(state, events[0]);
        seq![action] + forward_actions(next, events.drop_first())
    }
}

/// The state after `events`, from `state`.
pub open spec fn forward_final(state: ForwardState, events: Seq<ForwardEvent>) -> ForwardState
    decreases events.len(),
{
    if events.len() == 0 {
        state
    } else {
        forward_final(forward_step(state, events[0]).0, events.drop_first())
    }
}

/// The state before the event at position `k`.
pub open spec fn forward_state_at(state: ForwardState, events: Seq<ForwardEvent>, k: int) -> ForwardState {
    forward_final(state, events.take(k))
}

/// The first signal taken among `events`, if any.
pub open spec fn first_signal(events: Seq<ForwardEvent>) -> Option<i32>
    decreases events.len(),
{
    if events.len() == 0 {
        None
    } else {
        match first_signal(events.drop_last()) {
            Some(first) => Some(first),
            None => match events.last() {
                ForwardEvent::Taken(Some(signal)) => Some(signal),
                _ => None,
            },
        }
    }
}

/// Whether sending a signal failed at some position before `k`.
pub open spec fn delivery_failed_before(events: Seq<ForwardEvent>, k: int) -> bool {
    exists|i: int| 0 <= i < k && events[i] == ForwardEvent::Sent(SignalDelivery::Failed)
}

proof fn lemma_forward_actions_len(state: ForwardState, events: Seq<ForwardEvent>)
    ensures
        forward_actions(state, events).len() == events.len(),
    decreases events.len(),
{
    if events.len() > 0 {
        lemma_forward_actions_len(forward_step(state, events[0]).0, events.drop_first());
    }
}

/// The answers to a run of events, position by position: the action at `k`
/// is the step from the state reached before `k`.
pub proof fn lemma_forward_positions(state: ForwardState, events: Seq<ForwardEvent>, k: int)
    requires
        forward_accepts_all(state, events),
        0 <= k < events.len(),
    ensures
        forward_actions(state, events).len() == events.len(),
        forward_accepts(forward_state_at(state, events, k), events[k]),
        forward_actions(state, events)[k] == forward_step(forward_state_at(state, events, k), events[k]).1,
        forward_state_at(state, events, k + 1) == forward_step(forward_state_at(state, events, k), events[k]).0,
    decreases k,
{
    lemma_forward_actions_len(state, events);
    let next = forward_step(state, events[0]).0;
    assert(events.take(k + 1)[0] == events[0]);
    assert(forward_final(state, events.take(k + 1)) == forward_final(next, events.take(k + 1).drop_first()));
    if k == 0 {
        assert(events.take(0) =~= Seq::<ForwardEvent>::empty());
        assert(events.take(1).drop_first() =~= Seq::<ForwardEvent>::empty());
        assert(forward_final(next, Seq::<ForwardEvent>::empty()) == next);
    } else {
        assert(events.take(k)[0] == events[0]);
        assert(forward_final(state, events.take(k)) == forward_final(next, events.take(k).drop_first()));
        lemma_forward_positions(next, events.drop_first(), k - 1);
        assert(events.take(k).drop_first() =~= events.drop_first().take(k - 1));
        assert(events.take(k + 1).drop_first() =~= events.drop_first().take(k));
        assert(events.drop_first()[k - 1] == events[k]);
    }
}

/// What the state remembers: the first signal the wrapper received, and
/// whether a sending has failed, over everything reported so far.
pub proof fn lemma_forward_memory(events: Seq<ForwardEvent>, k: int)
    requires
        forward_accepts_all(forward_initial(), events),
        0 <= k <= events.len(),
    ensures
        forward_state_at(forward_initial(), events, k).received == first_signal(events.take(k)),
        forward_state_at(forward_initial(), events, k).delivery_failed == delivery_failed_before(events, k),
    decreases k,
{
    if k == 0 {
        assert(events.take(0) =~= Seq::<ForwardEvent>::empty());
    } else {
        lemma_forward_memory(events, k - 1);
        lemma_forward_positions(forward_initial(), events, k - 1);
        assert(events.take(k).drop_last() =~= events.take(k - 1));
        assert(events.take(k).last() == events[k - 1]);
        if delivery_failed_before(events, k) {
            let i = choose|i: int| 0 <= i < k && events[i] == ForwardEvent::Sent(SignalDelivery::Failed);
            if i < k - 1 {
                assert(delivery_failed_before(events, k - 1));
            }
        }
        if delivery_failed_before(events, k - 1) {
            let i = choose|i: int| 0 <= i < k - 1 && events[i] == ForwardEvent::Sent(SignalDelivery::Failed);
            assert(0 <= i < k && events[i] == ForwardEvent::Sent(SignalDelivery::Failed));
        }
        if events[k - 1] == ForwardEvent::Sent(SignalDelivery::Failed) {
            assert(delivery_failed_before(events, k));
        }
    }
}

/// Every signal that the wrapper takes is sent on to the command at once.
pub proof fn lemma_forward_sends_every_signal(events: Seq<ForwardEvent>, k: int, signal: i32)
    requires
        forward_accepts_all(forward_initial(), events),
        0 <= k < events.len(),
        events[k] == ForwardEvent::Taken(Some(signal)),
    ensures
        forward_actions(forward_initial(), events)[k] == ForwardAction::SendSignal(signal),
{
    lemma_forward_positions(forward_initial(), events, k);
}

/// Once the command has finished, the wrapper ends: with the error of a failed
/// sending if there was one, else as the command was killed, else by the first
/// signal it received, else with the command's exit code; and nothing follows.
pub proof fn lemma_forward_outcome(events: Seq<ForwardEvent>, k: int, signal: Option<i32>, code: Option<i32>)
    requires
        forward_accepts_all(forward_initial(), events),
        0 <= k < events.len(),
        events[k] == ForwardEvent::Waited(ChildStatus::Exited { signal, code }),
    ensures
        forward_actions(forward_initial(), events)[k] == ForwardAction::Finish(
            exit_result(delivery_failed_before(events, k), first_signal(events.take(k)), signal, code),
        ),
        k == events.len() - 1,
{
    lemma_forward_positions(forward_initial(), events, k);
    lemma_forward_memory(events, k);
    if k + 1 < events.len() {
        lemma_forward_positions(forward_initial(), events, k + 1);
    }
}

/// The wrapper stops only once the command has finished, or when looking at
/// it failed: it never gives up on a running command.
pub proof fn lemma_forward_ends_only_when_command_finished(events: Seq<ForwardEvent>, k: int)
    requires
        forward_accepts_all(forward_initial(), events),
        0 <= k < events.len(),
        forward_actions(forward_initial(), events)[k] is Finish,
    ensures
        events[k] matches ForwardEvent::Waited(status) && !(status is Running),
        (forward_actions(forward_initial(), events)[k] == ForwardAction::Finish(ForwardResult::WaitFailed))
            <==> events[k] == ForwardEvent::Waited(ChildStatus::Unknown),
{
    lemma_forward_positions(forward_initial(), events, k);
}

/// The wrapper keeps looking at the command: a poll that finds no pending
/// signal is answered by a look at the command, and a sleep answers only a look
/// that found the command still running.
pub proof fn lemma_forward_looks_at_the_command(events: Seq<ForwardEvent>, k: int)
    requires
        forward_accepts_all(forward_initial(), events),
        0 <= k < events.len(),
    ensures
        events[k] == ForwardEvent::Taken(None)
            ==> forward_actions(forward_initial(), events)[k] == (ForwardAction::TryWait { keep_error: false }),
        forward_actions(forward_initial(), events)[k] is Sleep ==> {
            &&& events[k] == ForwardEvent::Waited(ChildStatus::Running)
            &&& k >= 1
            &&& forward_actions(forward_initial(), events)[k - 1] is TryWait
        },
{
    lemma_forward_positions(forward_initial(), events, k);
    if forward_actions(forward_initial(), events)[k] is Sleep {
        if k == 0 {
            assert(events.take(0) =~= Seq::<ForwardEvent>::empty());
        } else {
            lemma_forward_positions(forward_initial(), events, k - 1);
        }
    }
}

/// Between two sleeps the wrapper always looks at the command.
pub proof fn lemma_forward_looks_between_sleeps(events: Seq<ForwardEvent>, i: int, j: int)
    requires
        forward_accepts_all(forward_initial(), events),
        0 <= i < j < events.len(),
        forward_actions(forward_initial(), events)[i] is Sleep,
        forward_actions(forward_initial(), events)[j] is Sleep,
    ensures
        exists|m: int| i < m < j && (#[trigger] forward_actions(forward_initial(), events)[m]) is TryWait,
{
    lemma_forward_looks_at_the_command(events, j);
    assert(forward_actions(forward_initial(), events)[j - 1] is TryWait);
}

/// Of the errors of failed sendings, the first one is kept for the report.
pub proof fn lemma_forward_keeps_first_error(events: Seq<ForwardEvent>, k: int)
    requires
        forward_accepts_all(forward_initial(), events),
        0 <= k < events.len(),
    ensures
        (forward_actions(forward_initial(), events)[k] == ForwardAction::TryWait { keep_error: true })
            <==> (events[k] == ForwardEvent::Sent(SignalDelivery::Failed) && !delivery_failed_before(events, k)),
{
    lemma_forward_positions(forward_initial(), events, k);
    lemma_forward_memory(events, k);
}

} // verus!
