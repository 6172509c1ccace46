use agent_flock::lock::{
    check_default_path, check_opened_directory, default_lock_path_text, inheritable_flags,
    lock_directory,
    lock_file_name, lock_file_name_for_digest, AcquireError, ErrorCategory, LockDirectoryError,
};

#[test]
fn lock_file_name_matches_the_protocol() {
    assert_eq!(
        lock_file_name("memory"),
        "v1-32ec1ae9844e3b8c4bfb8a9501835e16eb3e0399d0b6d1e741876964de1da307.lock"
    );
}

#[test]
fn lock_file_names_are_bounded_and_differ_by_name() {
    let long_name = "x".repeat(10_000);
    let names = ["default", "high-memory", "local-postgres", "ünïcødé", long_name.as_str()];
    let files: Vec<String> = names.iter().map(|name| lock_file_name(name)).collect();
    for file in &files {
        assert_eq!(file.len(), 72);
        assert!(file.starts_with("v1-") && file.ends_with(".lock"));
        assert!(!file.contains('/') && !file.contains('\0'));
    }
    for i in 0..files.len() {
        for j in (i + 1)..files.len() {
            assert_ne!(files[i], files[j]);
        }
    }
    assert_eq!(lock_file_name("high-memory"), files[1]);
}

#[test]
fn lock_file_name_for_digest_is_lowercase_hex() {
    assert_eq!(lock_file_name_for_digest(&[]), "v1-.lock");
    assert_eq!(lock_file_name_for_digest(&[0x00, 0x0a, 0xff, 0x1e]), "v1-000aff1e.lock");
}

#[test]
fn lock_directory_rejects_an_empty_configured_lock_directory() {
    let error = match lock_directory(Some(Vec::new()), 1000) {
        Err(error) => error,
        Ok(_) => panic!("an empty directory must be rejected"),
    };
    assert_eq!(error, LockDirectoryError::EmptyConfiguredDirectory);
    assert!(error.message().contains("AGENT_FLOCK_LOCK_DIR must not be empty"));
    assert_eq!(error.category(), ErrorCategory::InvalidInput);
}

#[test]
fn configured_lock_directory_is_used_as_given() {
    let directory = lock_directory(Some(b"/var/tmp/locks".to_vec()), 1000)
        .unwrap_or_else(|_| panic!("a configured directory must be accepted"));
    assert_eq!(directory.path, b"/var/tmp/locks".to_vec());
    assert_eq!(directory.expected_owner, None);
}

#[test]
fn default_lock_directory_depends_on_the_effective_user_only() {
    let directory = lock_directory(None, 501)
        .unwrap_or_else(|_| panic!("the default directory must be accepted"));
    assert_eq!(directory.path, b"/tmp/agent-flock-501".to_vec());
    assert_eq!(directory.expected_owner, Some(501));
    assert_eq!(default_lock_path_text(0), "/tmp/agent-flock-0");
    assert_eq!(default_lock_path_text(u32::MAX), "/tmp/agent-flock-4294967295");
}

#[test]
fn default_lock_path_must_be_a_real_directory() {
    let symlink = check_default_path(true, true, 7).unwrap_err();
    assert_eq!(symlink, LockDirectoryError::SymbolicLink { effective_user: 7 });
    assert_eq!(symlink.message(), "default lock path is a symbolic link: /tmp/agent-flock-7");
    assert_eq!(symlink.category(), ErrorCategory::InvalidData);

    let file = check_default_path(false, false, 7).unwrap_err();
    assert_eq!(file.message(), "default lock path is not a directory: /tmp/agent-flock-7");
    assert_eq!(file.category(), ErrorCategory::InvalidData);

    assert_eq!(check_default_path(false, true, 7), Ok(()));
}

#[test]
fn default_lock_directory_must_belong_to_the_effective_user() {
    let error = check_opened_directory(true, 1, 0).unwrap_err();
    assert_eq!(
        error.message(),
        "default lock directory is owned by user 1, expected effective user 0: /tmp/agent-flock-0"
    );
    assert!(error.message().contains("default lock directory is owned by user 1"));
    assert_eq!(error.category(), ErrorCategory::PermissionDenied);
    assert_eq!(
        check_opened_directory(false, 0, 0),
        Err(LockDirectoryError::NotADirectory { effective_user: 0 })
    );
    assert_eq!(check_opened_directory(true, 0, 0), Ok(()));
}

#[test]
fn acquire_error_messages() {
    assert_eq!(AcquireError::Interrupted(15).message(), "interrupted by signal 15");
    assert_eq!(AcquireError::Interrupted(-3).message(), "interrupted by signal -3");
    let io = std::io::Error::new(std::io::ErrorKind::Other, "disk on fire");
    assert_eq!(AcquireError::from(io).message(), "disk on fire");
}

#[test]
fn inherited_descriptor_drops_only_close_on_exec() {
    assert_eq!(inheritable_flags(1, 1), 0);
    assert_eq!(inheritable_flags(0b111, 0b010), 0b101);
    assert_eq!(inheritable_flags(0, 1), 0);
}

#[test]
fn lock_directory_rejects_a_symlink_at_the_default_lock_path() {
    let error = check_default_path(true, false, 1000).unwrap_err();
    assert!(error.message().contains("default lock path is a symbolic link"));
}

#[test]
fn lock_directory_rejects_a_file_at_the_default_lock_path() {
    let error = check_default_path(false, false, 1000).unwrap_err();
    assert!(error.message().contains("default lock path is not a directory"));
}

#[test]
fn lock_directory_rejects_a_default_lock_directory_owned_by_another_user_when_privileged() {
    let error = check_opened_directory(true, 1, 0).unwrap_err();
    assert!(error.message().contains("default lock directory is owned by user 1"));
}

#[test]
fn lock_directory_default_lock_directory_is_stable_across_temp_directories() {
    let first = lock_directory(None, 1000).unwrap_or_else(|_| panic!("default directory"));
    let second = lock_directory(None, 1000).unwrap_or_else(|_| panic!("default directory"));
    assert_eq!(first.path, second.path);
    assert_eq!(first.path, b"/tmp/agent-flock-1000".to_vec());
}

#[test]
fn same_lock_name_names_the_same_file_from_every_worktree() {
    assert_eq!(lock_file_name("memory"), lock_file_name("memory"));
}

#[test]
fn different_lock_names_use_different_files() {
    assert_ne!(lock_file_name("memory"), lock_file_name("network"));
}
