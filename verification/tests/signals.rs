use agent_flock::signals::{fallback_exit_code, pending_signal, FAILURE_EXIT_CODE, USAGE_EXIT_CODE};

#[test]
fn pending_slot_decodes() {
    assert_eq!(pending_signal(0), None);
    assert_eq!(pending_signal(15), Some(15));
    assert_eq!(pending_signal(1), Some(1));
}

#[test]
fn fallback_exit_code_adds_128() {
    assert_eq!(fallback_exit_code(15), 143);
    assert_eq!(fallback_exit_code(2), 130);
    assert_eq!(fallback_exit_code(i32::MAX), i32::MIN + 127);
}

#[test]
fn exit_codes() {
    assert_eq!(USAGE_EXIT_CODE, 2);
    assert_eq!(FAILURE_EXIT_CODE, 1);
}
