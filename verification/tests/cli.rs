use agent_flock::cli::{parse, unknown_option, Action, HELP, USAGE, VERSION};

fn args(items: &[&str]) -> Vec<Vec<u8>> {
    items.iter().map(|item| item.as_bytes().to_vec()).collect()
}

fn run_of(result: Result<Action, String>) -> agent_flock::cli::Invocation {
    match result {
        Ok(Action::Run(invocation)) => invocation,
        Ok(Action::Help) => panic!("expected a command, got help"),
        Ok(Action::Version) => panic!("expected a command, got version"),
        Err(message) => panic!("expected a command, got error {message:?}"),
    }
}

fn error_of(result: Result<Action, String>) -> String {
    match result {
        Err(message) => message,
        Ok(_) => panic!("expected an error"),
    }
}

#[test]
fn process_forwarding_forwards_arguments_without_shell_reparsing() {
    let invocation = run_of(parse(args(&[
        "--",
        "sh",
        "-c",
        "printf '<%s>\\n' \"$@\"",
        "argument-printer",
        "two words",
        "*.rs",
        "semi;colon",
        "quote\"mark",
    ])));
    assert_eq!(invocation.lock_name, "default");
    assert_eq!(invocation.command, b"sh".to_vec());
    assert_eq!(
        invocation.arguments,
        args(&[
            "-c",
            "printf '<%s>\\n' \"$@\"",
            "argument-printer",
            "two words",
            "*.rs",
            "semi;colon",
            "quote\"mark",
        ])
    );
}

#[test]
fn process_forwarding_help_and_version_do_not_require_a_guarded_command() {
    assert!(matches!(parse(args(&["--help"])), Ok(Action::Help)));
    assert!(HELP.contains("agent-flock [--lock <name>] -- <command> [args...]"));
    assert!(HELP.contains("--lock <name>"));
    assert!(matches!(parse(args(&["--version"])), Ok(Action::Version)));
    assert_eq!(format!("agent-flock {VERSION}\n"), "agent-flock 0.1.0\n");
}

#[test]
fn named_lock_is_used() {
    let invocation = run_of(parse(args(&["--lock", "high-memory", "--", "cargo", "test"])));
    assert_eq!(invocation.lock_name, "high-memory");
    assert_eq!(invocation.command, b"cargo".to_vec());
    assert_eq!(invocation.arguments, args(&["test"]));
}

#[test]
fn unicode_lock_name_is_decoded() {
    let invocation = run_of(parse(args(&["--lock", "ünïcødé", "--", "true"])));
    assert_eq!(invocation.lock_name, "ünïcødé");
}

#[test]
fn options_after_the_separator_belong_to_the_command() {
    let invocation = run_of(parse(args(&["--", "tool", "--help", "--lock", "x", "--"])));
    assert_eq!(invocation.lock_name, "default");
    assert_eq!(invocation.command, b"tool".to_vec());
    assert_eq!(invocation.arguments, args(&["--help", "--lock", "x", "--"]));
}

#[test]
fn help_wins_over_a_later_error() {
    assert!(matches!(parse(args(&["--help", "--bogus"])), Ok(Action::Help)));
    assert!(matches!(parse(args(&["--lock", "a", "--version"])), Ok(Action::Version)));
}

#[test]
fn non_utf8_command_and_arguments_pass_through() {
    let raw = vec![
        b"--".to_vec(),
        vec![0x66, 0xff, 0x6f],
        vec![0xc3, 0x28],
    ];
    let invocation = run_of(parse(raw));
    assert_eq!(invocation.command, vec![0x66, 0xff, 0x6f]);
    assert_eq!(invocation.arguments, vec![vec![0xc3, 0x28]]);
}

#[test]
fn separator_is_required() {
    assert_eq!(error_of(parse(args(&[]))), "expected `--` before the command");
    assert_eq!(
        error_of(parse(args(&["--lock", "memory"]))),
        "expected `--` before the command"
    );
}

#[test]
fn command_is_required_after_the_separator() {
    assert_eq!(error_of(parse(args(&["--"]))), "expected a command after `--`");
}

#[test]
fn lock_may_be_given_once() {
    assert_eq!(
        error_of(parse(args(&["--lock", "a", "--lock", "b", "--", "true"]))),
        "`--lock` may only be specified once"
    );
}

#[test]
fn lock_requires_a_name() {
    assert_eq!(error_of(parse(args(&["--lock"]))), "`--lock` requires a name");
}

#[test]
fn lock_name_must_be_utf8() {
    let raw = vec![b"--lock".to_vec(), vec![0xff], b"--".to_vec(), b"true".to_vec()];
    assert_eq!(error_of(parse(raw)), "lock names must be valid UTF-8");
}

#[test]
fn lock_name_cannot_be_empty() {
    assert_eq!(
        error_of(parse(args(&["--lock", "", "--", "true"]))),
        "lock names cannot be empty"
    );
}

#[test]
fn unknown_options_are_rejected() {
    assert_eq!(
        error_of(parse(args(&["--verbose", "--", "true"]))),
        "unknown option `--verbose`"
    );
    assert_eq!(error_of(parse(args(&["cargo", "test"]))), "unknown option `cargo`");
}

#[test]
fn unknown_non_utf8_option_is_shown_lossily() {
    let raw = vec![vec![0x2d, 0xff], b"--".to_vec(), b"true".to_vec()];
    assert_eq!(error_of(parse(raw)), "unknown option `-\u{fffd}`");
}

#[test]
fn unknown_option_message_quotes_the_text() {
    assert_eq!(unknown_option("-x"), "unknown option `-x`");
    assert_eq!(unknown_option(""), "unknown option ``");
}

#[test]
fn usage_line_names_the_separator() {
    assert_eq!(USAGE, "usage: agent-flock [--lock <name>] -- <command> [args...]");
}
