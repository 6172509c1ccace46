//! The command line: `[--lock <name>] -- <command> [args...]`, plus `--help`
//! and `--version`. Arguments are raw operating-system strings, taken here as
//! their bytes, so a command or an argument that is not UTF-8 passes through
//! unchanged.

use vstd::prelude::*;
use vstd::utf8::*;

use crate::text::word;

verus! {

/// The help text printed by `--help`.
pub const HELP: &'static str = "agent-flock serializes opted-in commands across processes and Git worktrees.\n\nUSAGE:\n    agent-flock [--lock <name>] -- <command> [args...]\n\nOPTIONS:\n    --lock <name>  Resource group to lock [default: default]\n    --help         Print help\n    --version      Print version\n";

/// The version printed by `--version`, after the program name.
pub const VERSION: &'static str = "0.1.0";

/// The usage line printed after an argument error.
pub const USAGE: &'static str = "usage: agent-flock [--lock <name>] -- <command> [args...]";

/// The lock name used when `--lock` is absent.
pub const DEFAULT_LOCK_NAME: &'static str = "default";

/// What the command line asks for.
pub enum Action {
    Run(Invocation),
    Help,
    Version,
}

/// A guarded command: the lock to hold and the program to start with its arguments.
pub struct Invocation {
    pub lock_name: String,
    pub command: Vec<u8>,
    pub arguments: Vec<Vec<u8>>,
}

/// The mathematical value of an [`Invocation`].
pub struct InvocationView {
    pub lock_name: Seq<char>,
    pub command: Seq<u8>,
    pub arguments: Seq<Seq<u8>>,
}

/// The mathematical value of an [`Action`].
pub enum ActionView {
    Run(InvocationView),
    Help,
    Version,
}

/// The byte sequences of a list of arguments.
pub open spec fn arguments_view(arguments: Seq<Vec<u8>>) -> Seq<Seq<u8>> {
    arguments.map_values(|argument: Vec<u8>| argument@)
}

impl View for Invocation {
    type V = InvocationView;

    open spec fn view(&self) -> InvocationView {
        InvocationView {
            lock_name: self.lock_name@,
            command: self.command@,
            arguments: arguments_view(self.arguments@),
        }
    }
}

impl View for Action {
    type V = ActionView;

    open spec fn view(&self) -> ActionView {
        match self {
            Action::Run(invocation) => ActionView::Run(invocation@),
            Action::Help => ActionView::Help,
            Action::Version => ActionView::Version,
        }
    }
}

/// The value of a parse result: the action, or the error message.
pub open spec fn parse_result_view(result: Result<Action, String>) -> Result<ActionView, Seq<char>> {
    match result {
        Ok(action) => Ok(action@),
        Err(message) => Err(message@),
    }
}

/// What the operating system's lossy UTF-8 decoding makes of some bytes:
/// the decoded text, with U+FFFD for each invalid sequence.
pub uninterp spec fn utf8_lossy(bytes: Seq<u8>) -> Seq<char>;

/// The message for an argument that is neither an option nor the separator.
/// The option is shown as its UTF-8 text; bytes that are not UTF-8 are shown
/// by the lossy decoding.
pub open spec fn unknown_option_message(argument: Seq<u8>) -> Seq<char> {
    if valid_utf8(argument) {
        unknown_option_text(decode_utf8(argument))
    } else {
        unknown_option_text(utf8_lossy(argument))
    }
}

/// The bytes of ASCII text are its UTF-8 encoding.
pub proof fn lemma_ascii_word_is_utf8(text: Seq<char>)
    requires
        is_ascii_chars(text),
    ensures
        word(text) == encode_utf8(text),
        valid_utf8(word(text)),
        decode_utf8(word(text)) == text,
{
    is_ascii_chars_encode_utf8(text);
    assert(word(text) =~= encode_utf8(text));
    encode_utf8_valid_utf8(text);
    encode_utf8_decode_utf8(text);
}

/// An unknown option written in ASCII is shown as it was written.
pub proof fn lemma_ascii_unknown_option_shown_as_written(text: Seq<char>)
    requires
        is_ascii_chars(text),
    ensures
        unknown_option_message(word(text)) == unknown_option_text(text),
{
    lemma_ascii_word_is_utf8(text);
}

/// The message for an unknown option, given the option as text.
pub open spec fn unknown_option_text(shown: Seq<char>) -> Seq<char> {
    "unknown option `"@ + shown + "`"@
}

/// The message for an unknown option, given the option as text.
pub fn unknown_option(shown: &str) -> (text: String)
    ensures
        text@ == unknown_option_text(shown@),
        text@ == "unknown option `"@ + shown@ + "`"@,
{
    let mut text = String::from_str("unknown option `");
    text.append(shown);
    text.append("`");
    text
}

/// The meaning of `arguments[i..]` when the options before `i` named the lock `lock_name`.
pub open spec fn parse_from(arguments: Seq<Seq<u8>>, i: nat, lock_name: Option<Seq<char>>) -> Result<ActionView, Seq<char>>
    decreases arguments.len() - i,
{
    if i >= arguments.len() {
        Err("expected `--` before the command"@)
    } else {
        let j = i as int;
        let argument = arguments[j];
        if argument == word("--"@) {
            if i + 1 < arguments.len() {
                Ok(ActionView::Run(InvocationView {
                    lock_name: match lock_name {
                        Some(name) => name,
                        None => DEFAULT_LOCK_NAME@,
                    },
                    command: arguments[j + 1],
                    arguments: arguments.subrange(j + 2, arguments.len() as int),
                }))
            } else {
                Err("expected a command after `--`"@)
            }
        } else if argument == word("--help"@) {
            Ok(ActionView::Help)
        } else if argument == word("--version"@) {
            Ok(ActionView::Version)
        } else if argument == word("--lock"@) {
            if lock_name is Some {
                Err("`--lock` may only be specified once"@)
            } else if i + 1 >= arguments.len() {
                Err("`--lock` requires a name"@)
            } else if !valid_utf8(arguments[j + 1]) {
                Err("lock names must be valid UTF-8"@)
            } else if arguments[j + 1].len() == 0 {
                Err("lock names cannot be empty"@)
            } else {
                parse_from(arguments, i + 2, Some(decode_utf8(arguments[j + 1])))
            }
        } else {
            Err(unknown_option_message(argument))
        }
    }
}

/// The meaning of a whole command line (without the program name).
pub open spec fn parse_arguments(arguments: Seq<Seq<u8>>) -> Result<ActionView, Seq<char>> {
    parse_from(arguments, 0, None)
}

/// Decodes bytes that must be UTF-8; `None` when they are not.
#[verifier::external_body]
fn decode_utf8_exact(bytes: Vec<u8>) -> (text: Option<String>)
    ensures
        text is Some <==> valid_utf8(bytes@),
        text matches Some(t) ==> t@ == decode_utf8(bytes@),
{
    String::from_utf8(bytes).ok()
}

/// Decodes bytes, replacing each invalid UTF-8 sequence with U+FFFD; valid
/// UTF-8 decodes unchanged.
#[verifier::external_body]
fn decode_utf8_lossy(bytes: &[u8]) -> (text: String)
    ensures
        text@ == utf8_lossy(bytes@),
        valid_utf8(bytes@) ==> text@ == decode_utf8(bytes@),
{
    String::from_utf8_lossy(bytes).into_owned()
}

/// Whether `argument` is exactly the ASCII word `text`.
fn is_word(argument: &Vec<u8>, text: &str) -> (matches: bool)
    ensures
        matches == (argument@ == word(text@)),
{
    let length = text.unicode_len();
    if argument.len() != length {
        return false;
    }
    let mut i: usize = 0;
    while i < length
        invariant
            length == text@.len(),
            argument@.len() == length,
            i <= length,
            forall|j: int| 0 <= j < i ==> argument@[j] == text@[j] as u8,
        decreases length - i,
    {
        if argument[i] != text.get_char(i) as u8 {
            assert(argument@[i as int] != word(text@)[i as int]);
            return false;
        }
        i = i + 1;
    }
    assert(argument@ =~= word(text@));
    true
}

/// The value of the lock name given so far, if any.
pub open spec fn lock_name_view(name: Option<String>) -> Option<Seq<char>> {
    match name {
        Some(name) => Some(name@),
        None => None,
    }
}

fn message(text: &str) -> (s: String)
    ensures
        s@ == text@,
{
    String::from_str(text)
}

/// Reads the command line. Options stop at `--`; the next argument is the
/// command and every later one is passed to it as it is, even when it looks
/// like an option. `--help` and `--version` win over anything after them.
pub fn parse(arguments: Vec<Vec<u8>>) -> (result: Result<Action, String>)
    ensures
        parse_result_view(result) == parse_arguments(arguments_view(arguments@)),
{
    let ghost all = arguments_view(arguments@);
    let mut arguments = arguments;
    let mut lock_name: Option<String> = None;
    let mut i: usize = 0;
    #[verifier::loop_isolation(false)]
    loop
        invariant
            arguments_view(arguments@) == all,
            i <= arguments@.len(),
            parse_arguments(all) == parse_from(all, i as nat, lock_name_view(lock_name)),
        decreases arguments@.len() - i,
    {
        assert(all.len() == arguments@.len());
        if i >= arguments.len() {
            return Err(message("expected `--` before the command"));
        }
        assert(all[i as int] == arguments@[i as int]@);
        if is_word(&arguments[i], "--") {
            if i + 1 >= arguments.len() {
                return Err(message("expected a command after `--`"));
            }
            let mut rest = arguments.split_off(i + 1);
            let command = rest.remove(0);
            assert(arguments_view(rest@) =~= all.subrange(i + 2, all.len() as int));
            let name = match lock_name {
                Some(name) => name,
                None => String::from_str(DEFAULT_LOCK_NAME),
            };
            return Ok(Action::Run(Invocation { lock_name: name, command, arguments: rest }));
        }
        if is_word(&arguments[i], "--help") {
            return Ok(Action::Help);
        }
        if is_word(&arguments[i], "--version") {
            return Ok(Action::Version);
        }
        if is_word(&arguments[i], "--lock") {
            if lock_name.is_some() {
                return Err(message("`--lock` may only be specified once"));
            }
            if i + 1 >= arguments.len() {
                return Err(message("`--lock` requires a name"));
            }
            assert(all[i + 1] == arguments@[i + 1]@);
            let value = arguments[i + 1].clone();
            assert(value@ =~= arguments@[i + 1]@);
            let value = match decode_utf8_exact(value) {
                Some(value) => value,
                None => return Err(message("lock names must be valid UTF-8")),
            };
            if value.as_str().is_empty() {
                return Err(message("lock names cannot be empty"));
            }
            lock_name = Some(value);
            i = i + 2;
        } else {
            let shown = decode_utf8_lossy(arguments[i].as_slice());
            return Err(unknown_option(shown.as_str()));
        }
    }
}

/// The four words that the parser knows are different from each other.
proof fn lemma_words_distinct()
    ensures
        word("--"@) != word("--help"@),
        word("--"@) != word("--version"@),
        word("--"@) != word("--lock"@),
        word("--help"@) != word("--version"@),
        word("--help"@) != word("--lock"@),
        word("--version"@) != word("--lock"@),
{
    reveal_strlit("--");
    reveal_strlit("--help");
    reveal_strlit("--version");
    reveal_strlit("--lock");
    assert(word("--"@).len() == 2);
    assert(word("--help"@).len() == 6);
    assert(word("--version"@).len() == 9);
    assert(word("--lock"@).len() == 6);
    assert(word("--help"@)[2] == 'h' as u8);
    assert(word("--lock"@)[2] == 'l' as u8);
}

proof fn lemma_run_from_separator(arguments: Seq<Seq<u8>>, i: nat, lock_name: Option<Seq<char>>)
    requires
        parse_from(arguments, i, lock_name) matches Ok(ActionView::Run(_)),
    ensures
        parse_from(arguments, i, lock_name) matches Ok(ActionView::Run(invocation))
            && exists|j: int| #![trigger arguments[j]] i <= j && j + 1 < arguments.len()
                && arguments[j] == word("--"@)
                && invocation.command == arguments[j + 1]
                && invocation.arguments == arguments.subrange(j + 2, arguments.len() as int),
    decreases arguments.len() - i,
{
    let j = i as int;
    if arguments[j] == word("--"@) {
        assert(arguments[j] == word("--"@));
    } else if arguments[j] == word("--lock"@) {
        lemma_run_from_separator(arguments, i + 2, Some(decode_utf8(arguments[j + 1])));
    }
}

/// Whenever a command runs, it is the argument right after a `--`, and its
/// arguments are everything after that, unchanged.
pub proof fn lemma_command_follows_separator(arguments: Seq<Seq<u8>>)
    requires
        parse_arguments(arguments) matches Ok(ActionView::Run(_)),
    ensures
        parse_arguments(arguments) matches Ok(ActionView::Run(invocation))
            && exists|j: int| #![trigger arguments[j]] 0 <= j && j + 1 < arguments.len()
                && arguments[j] == word("--"@)
                && invocation.command == arguments[j + 1]
                && invocation.arguments == arguments.subrange(j + 2, arguments.len() as int),
{
    lemma_run_from_separator(arguments, 0, None);
}

/// The only command lines that run a command are `-- <command> [args...]`,
/// with the lock `default`, and `--lock <name> -- <command> [args...]` with a
/// non-empty UTF-8 name: nothing else may stand before the separator.
pub proof fn lemma_run_shapes(arguments: Seq<Seq<u8>>)
    requires
        parse_arguments(arguments) matches Ok(ActionView::Run(_)),
    ensures
        parse_arguments(arguments) matches Ok(ActionView::Run(invocation)) && ({
            ||| {
                &&& arguments.len() >= 2
                &&& arguments[0] == word("--"@)
                &&& invocation.lock_name == "default"@
                &&& invocation.command == arguments[1]
                &&& invocation.arguments == arguments.subrange(2, arguments.len() as int)
            }
            ||| {
                &&& arguments.len() >= 4
                &&& arguments[0] == word("--lock"@)
                &&& valid_utf8(arguments[1])
                &&& arguments[1].len() > 0
                &&& arguments[2] == word("--"@)
                &&& invocation.lock_name == decode_utf8(arguments[1])
                &&& invocation.command == arguments[3]
                &&& invocation.arguments == arguments.subrange(4, arguments.len() as int)
            }
        }),
{
    lemma_words_distinct();
    reveal_strlit("default");
    if arguments[0] == word("--lock"@) {
        assert(parse_from(arguments, 0, None) == parse_from(arguments, 2, Some(decode_utf8(arguments[1]))));
    }
}

/// A word before the separator that is not an option is refused as an unknown
/// option: as the first word, and after `--lock <name>`.
pub proof fn lemma_unknown_word_before_separator(arguments: Seq<Seq<u8>>)
    requires
        arguments.len() >= 1,
    ensures
        ({
            let w = arguments[0];
            w != word("--"@) && w != word("--help"@) && w != word("--version"@) && w != word("--lock"@)
        }) ==> parse_arguments(arguments) == Err::<ActionView, Seq<char>>(unknown_option_message(arguments[0])),
        (arguments.len() >= 3 && arguments[0] == word("--lock"@) && valid_utf8(arguments[1]) && arguments[1].len() > 0
            && ({
                let w = arguments[2];
                w != word("--"@) && w != word("--help"@) && w != word("--version"@) && w != word("--lock"@)
            })) ==> parse_arguments(arguments) == Err::<ActionView, Seq<char>>(unknown_option_message(arguments[2])),
{
    lemma_words_distinct();
    if arguments.len() >= 3 && arguments[0] == word("--lock"@) && valid_utf8(arguments[1]) && arguments[1].len() > 0 {
        assert(parse_from(arguments, 0, None) == parse_from(arguments, 2, Some(decode_utf8(arguments[1]))));
    }
}

/// The separator is required: a command line without `--` never runs a command.
pub proof fn lemma_separator_required(arguments: Seq<Seq<u8>>)
    requires
        forall|j: int| 0 <= j < arguments.len() ==> arguments[j] != word("--"@),
    ensures
        !(parse_arguments(arguments) matches Ok(ActionView::Run(_))),
{
    if parse_arguments(arguments) matches Ok(ActionView::Run(_)) {
        lemma_run_from_separator(arguments, 0, None);
    }
}

/// Everything after `--` goes to the command untouched, even words that look
/// like options; without `--lock` the lock is named `default`.
pub proof fn lemma_command_passes_through(command: Seq<u8>, rest: Seq<Seq<u8>>)
    ensures
        parse_arguments(seq![word("--"@), command] + rest) == Ok::<ActionView, Seq<char>>(ActionView::Run(InvocationView {
            lock_name: DEFAULT_LOCK_NAME@,
            command,
            arguments: rest,
        })),
{
    let arguments = seq![word("--"@), command] + rest;
    assert(arguments[0] == word("--"@));
    assert(arguments[1] == command);
    assert(arguments.subrange(2, arguments.len() as int) =~= rest);
}

/// A lock named with `--lock` is the UTF-8 text of its bytes, and the command
/// after `--` passes through untouched.
pub proof fn lemma_named_lock(name: Seq<u8>, command: Seq<u8>, rest: Seq<Seq<u8>>)
    requires
        valid_utf8(name),
        name.len() > 0,
    ensures
        parse_arguments(seq![word("--lock"@), name, word("--"@), command] + rest) == Ok::<ActionView, Seq<char>>(
            ActionView::Run(InvocationView { lock_name: decode_utf8(name), command, arguments: rest }),
        ),
{
    lemma_words_distinct();
    let arguments = seq![word("--lock"@), name, word("--"@), command] + rest;
    assert(arguments[0] == word("--lock"@));
    assert(arguments[1] == name);
    assert(arguments[2] == word("--"@));
    assert(arguments[3] == command);
    assert(arguments.subrange(4, arguments.len() as int) =~= rest);
    assert(parse_from(arguments, 0, None) == parse_from(arguments, 2, Some(decode_utf8(name))));
}

/// `--help` and `--version` need no command, whatever follows them.
pub proof fn lemma_help_and_version_need_no_command(rest: Seq<Seq<u8>>)
    ensures
        parse_arguments(seq![word("--help"@)] + rest) == Ok::<ActionView, Seq<char>>(ActionView::Help),
        parse_arguments(seq![word("--version"@)] + rest) == Ok::<ActionView, Seq<char>>(ActionView::Version),
{
    lemma_words_distinct();
    assert((seq![word("--help"@)] + rest)[0] == word("--help"@));
    assert((seq![word("--version"@)] + rest)[0] == word("--version"@));
}

/// `--lock` may be given only once.
pub proof fn lemma_lock_only_once(first: Seq<u8>, second: Seq<u8>, rest: Seq<Seq<u8>>)
    requires
        valid_utf8(first),
        first.len() > 0,
    ensures
        parse_arguments(seq![word("--lock"@), first, word("--lock"@), second] + rest)
            == Err::<ActionView, Seq<char>>("`--lock` may only be specified once"@),
{
    lemma_words_distinct();
    let arguments = seq![word("--lock"@), first, word("--lock"@), second] + rest;
    assert(arguments[0] == word("--lock"@));
    assert(arguments[1] == first);
    assert(arguments[2] == word("--lock"@));
    assert(parse_from(arguments, 0, None) == parse_from(arguments, 2, Some(decode_utf8(first))));
}

} // verus!
