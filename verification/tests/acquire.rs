use agent_flock::acquire::{
    waiting_notice, AcquireAction, AcquireEvent, AcquireOutcome, AcquireState, LockAttempt,
    POLL_INTERVAL_MILLIS,
};

fn drive(events: &[AcquireEvent]) -> Vec<AcquireAction> {
    let mut state = AcquireState::new();
    events.iter().map(|event| state.advance(*event)).collect()
}

#[test]
fn lock_coordination_waiting_status_is_concise_and_immediate_acquisition_is_quiet() {
    let immediate = drive(&[
        AcquireEvent::Begin,
        AcquireEvent::Attempted(LockAttempt::Acquired),
        AcquireEvent::Checked(None),
    ]);
    assert_eq!(
        immediate,
        vec![
            AcquireAction::TryLock,
            AcquireAction::TakeSignal,
            AcquireAction::Finish(AcquireOutcome::Acquired { waited: false }),
        ]
    );
    assert!(!immediate.contains(&AcquireAction::AnnounceWait));

    let contended = drive(&[
        AcquireEvent::Begin,
        AcquireEvent::Attempted(LockAttempt::Busy),
        AcquireEvent::Announced,
        AcquireEvent::Checked(None),
        AcquireEvent::Slept,
        AcquireEvent::Attempted(LockAttempt::Busy),
        AcquireEvent::Checked(None),
        AcquireEvent::Slept,
        AcquireEvent::Attempted(LockAttempt::Acquired),
        AcquireEvent::Checked(None),
    ]);
    assert_eq!(
        contended,
        vec![
            AcquireAction::TryLock,
            AcquireAction::AnnounceWait,
            AcquireAction::TakeSignal,
            AcquireAction::Sleep(100),
            AcquireAction::TryLock,
            AcquireAction::TakeSignal,
            AcquireAction::Sleep(100),
            AcquireAction::TryLock,
            AcquireAction::TakeSignal,
            AcquireAction::Finish(AcquireOutcome::Acquired { waited: true }),
        ]
    );
    assert_eq!(
        contended.iter().filter(|action| **action == AcquireAction::AnnounceWait).count(),
        1
    );
    assert_eq!(waiting_notice("busy"), "agent-flock: waiting for lock \"busy\"");
}

#[test]
fn poll_interval_is_a_tenth_of_a_second() {
    assert_eq!(POLL_INTERVAL_MILLIS, 100);
}

#[test]
fn signal_while_waiting_stops_before_the_command() {
    let actions = drive(&[
        AcquireEvent::Begin,
        AcquireEvent::Attempted(LockAttempt::Busy),
        AcquireEvent::Announced,
        AcquireEvent::Checked(Some(15)),
    ]);
    assert_eq!(
        actions.last(),
        Some(&AcquireAction::Finish(AcquireOutcome::Interrupted(15)))
    );
}

#[test]
fn signal_that_arrives_as_the_lock_is_taken_still_interrupts() {
    let actions = drive(&[
        AcquireEvent::Begin,
        AcquireEvent::Attempted(LockAttempt::Acquired),
        AcquireEvent::Checked(Some(2)),
    ]);
    assert_eq!(
        actions.last(),
        Some(&AcquireAction::Finish(AcquireOutcome::Interrupted(2)))
    );
}

#[test]
fn failed_attempt_ends_acquisition() {
    let first = drive(&[AcquireEvent::Begin, AcquireEvent::Attempted(LockAttempt::Failed)]);
    assert_eq!(first.last(), Some(&AcquireAction::Finish(AcquireOutcome::Failed)));

    let later = drive(&[
        AcquireEvent::Begin,
        AcquireEvent::Attempted(LockAttempt::Busy),
        AcquireEvent::Announced,
        AcquireEvent::Checked(None),
        AcquireEvent::Slept,
        AcquireEvent::Attempted(LockAttempt::Failed),
    ]);
    assert_eq!(later.last(), Some(&AcquireAction::Finish(AcquireOutcome::Failed)));
}

#[test]
fn signal_behavior_interruption_stops_a_waiter_without_running_its_command() {
    let actions = drive(&[
        AcquireEvent::Begin,
        AcquireEvent::Attempted(LockAttempt::Busy),
        AcquireEvent::Announced,
        AcquireEvent::Checked(None),
        AcquireEvent::Slept,
        AcquireEvent::Attempted(LockAttempt::Busy),
        AcquireEvent::Checked(Some(15)),
    ]);
    assert_eq!(
        actions.last(),
        Some(&AcquireAction::Finish(AcquireOutcome::Interrupted(15)))
    );
    assert!(!actions.contains(&AcquireAction::Finish(AcquireOutcome::Acquired { waited: true })));
}
