use agent_flock::process::{
    finished_command, ChildStatus, CommandOutcome, ForwardAction, ForwardEvent, ForwardResult,
    ForwardState, SignalDelivery, WAIT_INTERVAL_MILLIS,
};

fn drive(events: &[ForwardEvent]) -> Vec<ForwardAction> {
    let mut state = ForwardState::new();
    events.iter().map(|event| state.advance(*event)).collect()
}

#[test]
fn process_forwarding_forwards_the_guarded_commands_exit_code() {
    let actions = drive(&[
        ForwardEvent::Begin,
        ForwardEvent::Taken(None),
        ForwardEvent::Waited(ChildStatus::Exited { signal: None, code: Some(37) }),
    ]);
    assert_eq!(
        actions.last(),
        Some(&ForwardAction::Finish(ForwardResult::Completed(CommandOutcome::Exit(37))))
    );
}

#[test]
fn signal_behavior_preserves_signal_termination_from_the_guarded_command() {
    let actions = drive(&[
        ForwardEvent::Begin,
        ForwardEvent::Taken(None),
        ForwardEvent::Waited(ChildStatus::Exited { signal: Some(15), code: None }),
    ]);
    assert_eq!(
        actions.last(),
        Some(&ForwardAction::Finish(ForwardResult::Completed(CommandOutcome::Signal(15))))
    );
}

#[test]
fn received_signals_are_forwarded_and_the_first_one_is_kept() {
    let actions = drive(&[
        ForwardEvent::Begin,
        ForwardEvent::Taken(Some(15)),
        ForwardEvent::Sent(SignalDelivery::Delivered),
        ForwardEvent::Waited(ChildStatus::Running),
        ForwardEvent::Slept,
        ForwardEvent::Taken(Some(2)),
        ForwardEvent::Sent(SignalDelivery::Delivered),
        ForwardEvent::Waited(ChildStatus::Exited { signal: None, code: Some(0) }),
    ]);
    assert_eq!(
        actions,
        vec![
            ForwardAction::TakeSignal,
            ForwardAction::SendSignal(15),
            ForwardAction::TryWait { keep_error: false },
            ForwardAction::Sleep(20),
            ForwardAction::TakeSignal,
            ForwardAction::SendSignal(2),
            ForwardAction::TryWait { keep_error: false },
            ForwardAction::Finish(ForwardResult::Completed(CommandOutcome::Signal(15))),
        ]
    );
}

#[test]
fn vanished_command_is_not_a_delivery_error() {
    let actions = drive(&[
        ForwardEvent::Begin,
        ForwardEvent::Taken(Some(1)),
        ForwardEvent::Sent(SignalDelivery::Vanished),
        ForwardEvent::Waited(ChildStatus::Exited { signal: Some(9), code: None }),
    ]);
    assert_eq!(
        actions.last(),
        Some(&ForwardAction::Finish(ForwardResult::Completed(CommandOutcome::Signal(9))))
    );
}

#[test]
fn failed_delivery_is_reported_once_the_command_ends() {
    let actions = drive(&[
        ForwardEvent::Begin,
        ForwardEvent::Taken(Some(15)),
        ForwardEvent::Sent(SignalDelivery::Failed),
        ForwardEvent::Waited(ChildStatus::Running),
        ForwardEvent::Slept,
        ForwardEvent::Taken(Some(15)),
        ForwardEvent::Sent(SignalDelivery::Failed),
        ForwardEvent::Waited(ChildStatus::Exited { signal: Some(15), code: None }),
    ]);
    assert_eq!(actions[2], ForwardAction::TryWait { keep_error: true });
    assert_eq!(actions[6], ForwardAction::TryWait { keep_error: false });
    assert_eq!(actions.last(), Some(&ForwardAction::Finish(ForwardResult::DeliveryFailed)));
}

#[test]
fn failed_wait_ends_running() {
    let actions = drive(&[
        ForwardEvent::Begin,
        ForwardEvent::Taken(None),
        ForwardEvent::Waited(ChildStatus::Unknown),
    ]);
    assert_eq!(actions.last(), Some(&ForwardAction::Finish(ForwardResult::WaitFailed)));
}

#[test]
fn finished_command_rules() {
    assert_eq!(
        finished_command(false, None, None, None),
        ForwardResult::Completed(CommandOutcome::Exit(1))
    );
    assert_eq!(
        finished_command(false, Some(1), None, Some(0)),
        ForwardResult::Completed(CommandOutcome::Signal(1))
    );
    assert_eq!(
        finished_command(false, Some(1), Some(9), None),
        ForwardResult::Completed(CommandOutcome::Signal(9))
    );
    assert_eq!(finished_command(true, None, None, Some(0)), ForwardResult::DeliveryFailed);
    assert_eq!(WAIT_INTERVAL_MILLIS, 20);
}

#[test]
fn signal_behavior_interruption_reaches_the_guarded_command_and_releases_the_lock() {
    let actions = drive(&[
        ForwardEvent::Begin,
        ForwardEvent::Taken(Some(15)),
        ForwardEvent::Sent(SignalDelivery::Delivered),
        ForwardEvent::Waited(ChildStatus::Exited { signal: None, code: Some(0) }),
    ]);
    assert_eq!(actions[1], ForwardAction::SendSignal(15));
    assert_eq!(
        actions.last(),
        Some(&ForwardAction::Finish(ForwardResult::Completed(CommandOutcome::Signal(15))))
    );
}
