//! Lock identity and location: the lock file name derived from the lock name,
//! the lock directory, the checks made on the default directory, and the errors
//! of acquisition.

use vstd::prelude::*;
use vstd::utf8::*;

use crate::text::{decimal, decimal_value, hex, lemma_decimal_reads_back, lemma_hex_positions, push_decimal, push_hex, push_signed_decimal, signed_decimal, word, word_bytes};

verus! {

/// Prefix of the bytes that name a lock: a protocol version and a NUL separator.
pub const LOCK_PROTOCOL_PREFIX: &'static str = "agent-flock-lock-v1\0";

/// The environment variable that names another lock directory.
pub const LOCK_DIRECTORY_VARIABLE: &'static str = "AGENT_FLOCK_LOCK_DIR";

/// The SHA-256 digest of some bytes.
pub uninterp spec fn sha256(data: Seq<u8>) -> Seq<u8>;

/// SHA-256 of `data`, computed by the `sha2` crate.
#[verifier::external_body]
fn sha256_digest(data: &[u8]) -> (digest: [u8; 32])
    ensures
        digest@ == sha256(data@),
{
    <sha2::Sha256 as sha2::Digest>::digest(data).into()
}

/// The bytes whose digest names the lock `name`: the protocol prefix, then the UTF-8 of the name.
pub open spec fn lock_digest_input(name: Seq<char>) -> Seq<u8> {
    word(LOCK_PROTOCOL_PREFIX@) + encode_utf8(name)
}

/// The bytes of the protocol prefix `agent-flock-lock-v1` followed by a NUL.
pub open spec fn protocol_prefix_bytes() -> Seq<u8> {
    seq![97u8, 103u8, 101u8, 110u8, 116u8, 45u8, 102u8, 108u8, 111u8, 99u8, 107u8, 45u8,
        108u8, 111u8, 99u8, 107u8, 45u8, 118u8, 49u8, 0u8]
}

/// What is hashed to name a lock: the twenty bytes `agent-flock-lock-v1` and
/// NUL, then exactly the UTF-8 bytes of the name, nothing left out or changed.
pub proof fn lemma_lock_digest_input_layout(name: Seq<char>)
    ensures
        lock_digest_input(name) == protocol_prefix_bytes() + encode_utf8(name),
        lock_digest_input(name).len() == 20 + encode_utf8(name).len(),
        lock_digest_input(name).subrange(0, 20) == protocol_prefix_bytes(),
        lock_digest_input(name).subrange(20, lock_digest_input(name).len() as int) == encode_utf8(name),
{
    reveal_strlit("agent-flock-lock-v1\0");
    assert(word(LOCK_PROTOCOL_PREFIX@) =~= protocol_prefix_bytes());
    let input = lock_digest_input(name);
    assert(input.subrange(0, 20) =~= protocol_prefix_bytes());
    assert(input.subrange(20, input.len() as int) =~= encode_utf8(name));
}

/// Different lock names are hashed from different bytes: the digest covers the
/// exact name, so no two names share an input (names are not sanitized).
pub proof fn lemma_distinct_names_distinct_digest_inputs(first: Seq<char>, second: Seq<char>)
    requires
        first != second,
    ensures
        lock_digest_input(first) != lock_digest_input(second),
{
    let prefix = word(LOCK_PROTOCOL_PREFIX@);
    if lock_digest_input(first) == lock_digest_input(second) {
        assert(encode_utf8(first) =~= lock_digest_input(first).subrange(prefix.len() as int, lock_digest_input(first).len() as int));
        assert(encode_utf8(second) =~= lock_digest_input(second).subrange(prefix.len() as int, lock_digest_input(second).len() as int));
        encode_utf8_decode_utf8(first);
        encode_utf8_decode_utf8(second);
    }
}

/// The lock file name for a digest: `v1-<hex>.lock`.
pub open spec fn lock_file_name_of(digest: Seq<u8>) -> Seq<char> {
    "v1-"@ + hex(digest) + ".lock"@
}

/// The lock file name for the lock `name`.
pub open spec fn lock_file_name_spec(name: Seq<char>) -> Seq<char> {
    lock_file_name_of(sha256(lock_digest_input(name)))
}

/// The lock file name for a digest of the lock name.
pub fn lock_file_name_for_digest(digest: &[u8]) -> (file_name: String)
    ensures
        file_name@ == lock_file_name_of(digest@),
        file_name@.len() == 8 + 2 * digest@.len(),
        file_name@.subrange(0, 3) == "v1-"@,
        file_name@.subrange(file_name@.len() - 5, file_name@.len() as int) == ".lock"@,
        forall|i: int| #![trigger digest@[i]] 0 <= i < digest@.len() ==> {
            &&& file_name@[3 + 2 * i] == "0123456789abcdef"@[(digest@[i] / 16) as int]
            &&& file_name@[3 + 2 * i + 1] == "0123456789abcdef"@[(digest@[i] % 16) as int]
        },
{
    proof {
        reveal_strlit("v1-");
        reveal_strlit(".lock");
        lemma_hex_positions(digest@);
        let name = lock_file_name_of(digest@);
        let h = hex(digest@);
        assert(name.subrange(0, 3) =~= "v1-"@);
        assert(name.subrange(name.len() - 5, name.len() as int) =~= ".lock"@);
        assert forall|i: int| #![trigger digest@[i]] 0 <= i < digest@.len() implies {
            &&& name[3 + 2 * i] == "0123456789abcdef"@[(digest@[i] / 16) as int]
            &&& name[3 + 2 * i + 1] == "0123456789abcdef"@[(digest@[i] % 16) as int]
        } by {
            assert(name[3 + 2 * i] == h[2 * i]);
            assert(name[3 + 2 * i + 1] == h[2 * i + 1]);
        }
    }
    let mut file_name = String::from_str("v1-");
    push_hex(&mut file_name, digest);
    file_name.append(".lock");
    file_name
}

/// Whether a character may stand in a lock file name: a lowercase letter, a digit, `-` or `.`.
pub open spec fn is_file_name_char(c: char) -> bool {
    ('a' <= c <= 'z') || ('0' <= c <= '9') || c == '-' || c == '.'
}

/// The hexadecimal text of some bytes has two digits per byte, each a digit or `a`..`f`.
pub proof fn lemma_hex_shape(bytes: Seq<u8>)
    ensures
        hex(bytes).len() == 2 * bytes.len(),
        forall|i: int| 0 <= i < hex(bytes).len() ==> is_file_name_char(#[trigger] hex(bytes)[i]),
    decreases bytes.len(),
{
    if bytes.len() > 0 {
        lemma_hex_shape(bytes.drop_last());
        let last = bytes.last();
        let tail = seq![crate::text::hex_digit((last / 16) as nat), crate::text::hex_digit((last % 16) as nat)];
        let h = hex(bytes);
        assert(h == hex(bytes.drop_last()) + tail);
        assert forall|i: int| 0 <= i < h.len() implies is_file_name_char(#[trigger] h[i]) by {
            if i < hex(bytes.drop_last()).len() {
                assert(h[i] == hex(bytes.drop_last())[i]);
            } else {
                assert(h[i] == tail[i - hex(bytes.drop_last()).len()]);
            }
        }
    }
}

/// A lock file name made from a SHA-256 digest is 72 characters long, and each
/// of them is a lowercase letter, a digit, `-` or `.`: no separator, no NUL.
pub proof fn lemma_lock_file_name_shape(digest: Seq<u8>)
    requires
        digest.len() == 32,
    ensures
        lock_file_name_of(digest).len() == 72,
        forall|i: int| 0 <= i < 72 ==> is_file_name_char(#[trigger] lock_file_name_of(digest)[i]),
{
    reveal_strlit("v1-");
    reveal_strlit(".lock");
    lemma_hex_shape(digest);
    let name = lock_file_name_of(digest);
    let h = hex(digest);
    assert forall|i: int| 0 <= i < 72 implies is_file_name_char(#[trigger] name[i]) by {
        if i < 3 {
            assert(name[i] == "v1-"@[i]);
        } else if i < 67 {
            assert(name[i] == h[i - 3]);
        } else {
            assert(name[i] == ".lock"@[i - 67]);
        }
    }
}

/// The lock file name for the lock `name`, inside the lock directory. It is
/// bounded, whatever the name: 72 characters that are lowercase letters,
/// digits, `-` or `.`.
pub fn lock_file_name(name: &str) -> (file_name: String)
    ensures
        file_name@ == lock_file_name_spec(name@),
        file_name@ == "v1-"@ + hex(sha256(protocol_prefix_bytes() + encode_utf8(name@))) + ".lock"@,
        file_name@.len() == 72,
        forall|i: int| 0 <= i < 72 ==> is_file_name_char(#[trigger] file_name@[i]),
{
    let mut input = word_bytes(LOCK_PROTOCOL_PREFIX);
    let name_bytes = name.as_bytes();
    let ghost prefix = input@;
    let mut i: usize = 0;
    while i < name_bytes.len()
        invariant
            i <= name_bytes@.len(),
            input@ == prefix + name_bytes@.take(i as int),
        decreases name_bytes@.len() - i,
    {
        input.push(name_bytes[i]);
        i = i + 1;
        assert(input@ =~= prefix + name_bytes@.take(i as int));
    }
    assert(name_bytes@.take(name_bytes@.len() as int) =~= name_bytes@);
    let digest = sha256_digest(input.as_slice());
    proof {
        lemma_lock_file_name_shape(digest@);
        lemma_lock_digest_input_layout(name@);
    }
    lock_file_name_for_digest(&digest)
}

/// The directory that holds the lock files, and, for the default directory,
/// the user who must own it.
pub struct LockDirectory {
    pub path: Vec<u8>,
    pub expected_owner: Option<u32>,
}

/// The default lock directory of a user: `/tmp/agent-flock-<effective user id>`.
pub open spec fn default_lock_path(effective_user: u32) -> Seq<char> {
    "/tmp/agent-flock-"@ + decimal(effective_user as nat)
}

/// The default lock directory names the effective user itself: after the fixed
/// `/tmp/agent-flock-` come decimal digits that read back as the user id.
pub proof fn lemma_default_lock_path_names_the_user(effective_user: u32)
    ensures
        default_lock_path(effective_user).len() > 17,
        default_lock_path(effective_user).subrange(0, 17) == "/tmp/agent-flock-"@,
        forall|i: int| 17 <= i < default_lock_path(effective_user).len()
            ==> '0' <= #[trigger] default_lock_path(effective_user)[i] <= '9',
        decimal_value(default_lock_path(effective_user).subrange(17, default_lock_path(effective_user).len() as int))
            == effective_user,
{
    reveal_strlit("/tmp/agent-flock-");
    lemma_decimal_reads_back(effective_user as nat);
    let path = default_lock_path(effective_user);
    let digits = decimal(effective_user as nat);
    assert(path.subrange(0, 17) =~= "/tmp/agent-flock-"@);
    assert(path.subrange(17, path.len() as int) =~= digits);
    assert forall|i: int| 17 <= i < path.len() implies '0' <= #[trigger] path[i] <= '9' by {
        assert(path[i] == digits[i - 17]);
    }
}

/// Different users have different default lock directories.
pub proof fn lemma_default_lock_paths_differ(first: u32, second: u32)
    requires
        first != second,
    ensures
        default_lock_path(first) != default_lock_path(second),
{
    lemma_default_lock_path_names_the_user(first);
    lemma_default_lock_path_names_the_user(second);
}

/// The default lock directory of a user, as text.
pub fn default_lock_path_text(effective_user: u32) -> (path: String)
    ensures
        path@ == default_lock_path(effective_user),
        path@.subrange(0, 17) == "/tmp/agent-flock-"@,
        decimal_value(path@.subrange(17, path@.len() as int)) == effective_user,
{
    proof { lemma_default_lock_path_names_the_user(effective_user); }
    let mut path = String::from_str("/tmp/agent-flock-");
    push_decimal(&mut path, effective_user as u64);
    path
}

/// How an error of the lock directory is classified among I/O errors.
#[derive(PartialEq, Eq, Structural, Clone, Copy, Debug)]
pub enum ErrorCategory {
    InvalidInput,
    InvalidData,
    PermissionDenied,
}

/// Why the lock directory cannot be used.
#[derive(PartialEq, Eq, Structural, Clone, Copy, Debug)]
pub enum LockDirectoryError {
    /// The configured directory is the empty string.
    EmptyConfiguredDirectory,
    /// The default lock path is a symbolic link.
    SymbolicLink { effective_user: u32 },
    /// The default lock path is something other than a directory.
    NotADirectory { effective_user: u32 },
    /// The default lock directory belongs to another user.
    WrongOwner { owner: u32, effective_user: u32 },
}

impl LockDirectoryError {
    /// The classification of the error.
    pub open spec fn category_spec(self) -> ErrorCategory {
        match self {
            LockDirectoryError::EmptyConfiguredDirectory => ErrorCategory::InvalidInput,
            LockDirectoryError::SymbolicLink { .. } => ErrorCategory::InvalidData,
            LockDirectoryError::NotADirectory { .. } => ErrorCategory::InvalidData,
            LockDirectoryError::WrongOwner { .. } => ErrorCategory::PermissionDenied,
        }
    }

    /// The text of the error.
    pub open spec fn message_spec(self) -> Seq<char> {
        match self {
            LockDirectoryError::EmptyConfiguredDirectory =>
                "AGENT_FLOCK_LOCK_DIR must not be empty"@,
            LockDirectoryError::SymbolicLink { effective_user } =>
                "default lock path is a symbolic link: "@ + default_lock_path(effective_user),
            LockDirectoryError::NotADirectory { effective_user } =>
                "default lock path is not a directory: "@ + default_lock_path(effective_user),
            LockDirectoryError::WrongOwner { owner, effective_user } =>
                "default lock directory is owned by user "@ + decimal(owner as nat)
                    + ", expected effective user "@ + decimal(effective_user as nat) + ": "@
                    + default_lock_path(effective_user),
        }
    }

    /// The classification of the error.
    pub fn category(&self) -> (category: ErrorCategory)
        ensures
            category == self.category_spec(),
    {
        match self {
            LockDirectoryError::EmptyConfiguredDirectory => ErrorCategory::InvalidInput,
            LockDirectoryError::SymbolicLink { .. } => ErrorCategory::InvalidData,
            LockDirectoryError::NotADirectory { .. } => ErrorCategory::InvalidData,
            LockDirectoryError::WrongOwner { .. } => ErrorCategory::PermissionDenied,
        }
    }

    /// The text of the error.
    pub fn message(&self) -> (text: String)
        ensures
            text@ == self.message_spec(),
    {
        match self {
            LockDirectoryError::EmptyConfiguredDirectory => {
                String::from_str("AGENT_FLOCK_LOCK_DIR must not be empty")
            },
            LockDirectoryError::SymbolicLink { effective_user } => {
                let mut text = String::from_str("default lock path is a symbolic link: ");
                let path = default_lock_path_text(*effective_user);
                text.append(path.as_str());
                text
            },
            LockDirectoryError::NotADirectory { effective_user } => {
                let mut text = String::from_str("default lock path is not a directory: ");
                let path = default_lock_path_text(*effective_user);
                text.append(path.as_str());
                text
            },
            LockDirectoryError::WrongOwner { owner, effective_user } => {
                let mut text = String::from_str("default lock directory is owned by user ");
                push_decimal(&mut text, *owner as u64);
                text.append(", expected effective user ");
                push_decimal(&mut text, *effective_user as u64);
                text.append(": ");
                let path = default_lock_path_text(*effective_user);
                text.append(path.as_str());
                assert(text@ =~= self.message_spec());
                text
            },
        }
    }
}

/// The lock directory: the configured one when the variable is set (it must
/// not be empty), else the default directory of the effective user. The
/// default depends on nothing else: not on the working directory, nor on
/// `TMPDIR`.
pub fn lock_directory(configured: Option<Vec<u8>>, effective_user: u32) -> (directory: Result<LockDirectory, LockDirectoryError>)
    ensures
        match configured {
            Some(path) => if path@.len() == 0 {
                directory == Err::<LockDirectory, LockDirectoryError>(LockDirectoryError::EmptyConfiguredDirectory)
            } else {
                directory matches Ok(d) && d.path@ == path@ && d.expected_owner is None
            },
            None => directory matches Ok(d)
                && d.path@ == word(default_lock_path(effective_user))
                && d.expected_owner == Some(effective_user),
        },
{
    match configured {
        Some(path) => {
            if path.len() == 0 {
                Err(LockDirectoryError::EmptyConfiguredDirectory)
            } else {
                Ok(LockDirectory { path, expected_owner: None })
            }
        },
        None => {
            let text = default_lock_path_text(effective_user);
            let path = word_bytes(text.as_str());
            Ok(LockDirectory { path, expected_owner: Some(effective_user) })
        },
    }
}

/// What the default lock path must be, as seen without following links:
/// not a symbolic link, and a directory.
pub fn check_default_path(is_symbolic_link: bool, is_directory: bool, effective_user: u32) -> (checked: Result<(), LockDirectoryError>)
    ensures
        checked == if is_symbolic_link {
            Err(LockDirectoryError::SymbolicLink { effective_user })
        } else if !is_directory {
            Err(LockDirectoryError::NotADirectory { effective_user })
        } else {
            Ok(())
        },
{
    if is_symbolic_link {
        Err(LockDirectoryError::SymbolicLink { effective_user })
    } else if !is_directory {
        Err(LockDirectoryError::NotADirectory { effective_user })
    } else {
        Ok(())
    }
}

/// What the opened default lock directory must be: a directory that the
/// effective user owns.
pub fn check_opened_directory(is_directory: bool, owner: u32, effective_user: u32) -> (checked: Result<(), LockDirectoryError>)
    ensures
        checked == if !is_directory {
            Err(LockDirectoryError::NotADirectory { effective_user })
        } else if owner != effective_user {
            Err(LockDirectoryError::WrongOwner { owner, effective_user })
        } else {
            Ok(())
        },
{
    if !is_directory {
        Err(LockDirectoryError::NotADirectory { effective_user })
    } else if owner != effective_user {
        Err(LockDirectoryError::WrongOwner { owner, effective_user })
    } else {
        Ok(())
    }
}

/// The descriptor flags with which the command is started: the lock file's
/// flags without close-on-exec, so that the command inherits the locked
/// descriptor and keeps the lock if the wrapper dies.
pub fn inheritable_flags(flags: i32, close_on_exec: i32) -> (inherited: i32)
    ensures
        inherited == flags & !close_on_exec,
{
    flags & !close_on_exec
}

#[verifier::external_type_specification]
#[verifier::external_body]
pub struct ExIoError(std::io::Error);

/// Why a lock was not acquired.
pub enum AcquireError {
    /// A termination signal arrived before the command could start.
    Interrupted(i32),
    /// The lock directory or the lock file could not be used.
    Io(std::io::Error),
}

impl From<std::io::Error> for AcquireError {
    fn from(error: std::io::Error) -> (converted: Self)
        ensures
            converted == AcquireError::Io(error),
    {
        AcquireError::Io(error)
    }
}

impl vstd::std_specs::convert::FromSpecImpl<std::io::Error> for AcquireError {
    open spec fn obeys_from_spec() -> bool {
        true
    }

    open spec fn from_spec(error: std::io::Error) -> Self {
        AcquireError::Io(error)
    }
}

/// The text of an I/O error, as its `Display` writes it.
#[verifier::external_body]
fn io_error_text(error: &std::io::Error) -> String {
    error.to_string()
}

impl AcquireError {
    /// The text of the error: `interrupted by signal <n>`, or the text of the I/O error.
    pub fn message(&self) -> (text: String)
        ensures
            self matches AcquireError::Interrupted(signal) ==> text@ == "interrupted by signal "@
                + signed_decimal(signal as int),
    {
        match self {
            AcquireError::Interrupted(signal) => {
                let mut text = String::from_str("interrupted by signal ");
                push_signed_decimal(&mut text, *signal as i64);
                text
            },
            AcquireError::Io(error) => io_error_text(error),
        }
    }
}

} // verus!
