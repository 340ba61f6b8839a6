//! Commands to the running instance over its socket: names, payloads and the
//! socket's path.

use crate::text::{chars_of, join_path, joined, push_text, same_chars, trim, trimmed};
use vstd::prelude::*;

verus! {

/// Mode commands the running instance understands.
#[derive(Clone, Copy, PartialEq, Eq, Structural, Debug)]
pub enum ModeCommand {
    Spotlight,
    Capture,
}

/// The command a word names.
pub open spec fn command_named(word: Seq<char>) -> Option<ModeCommand> {
    if word == "spotlight"@ {
        Some(ModeCommand::Spotlight)
    } else if word == "capture"@ {
        Some(ModeCommand::Capture)
    } else {
        None
    }
}

fn find_command(word: &[char]) -> (r: Option<ModeCommand>)
    ensures
        r == command_named(word@),
{
    if same_chars(word, chars_of("spotlight").as_slice()) {
        Some(ModeCommand::Spotlight)
    } else if same_chars(word, chars_of("capture").as_slice()) {
        Some(ModeCommand::Capture)
    } else {
        None
    }
}

impl ModeCommand {
    /// The command's word.
    pub open spec fn word(self) -> Seq<char> {
        match self {
            ModeCommand::Spotlight => "spotlight"@,
            ModeCommand::Capture => "capture"@,
        }
    }

    /// The command's word, which is its payload on the socket.
    pub fn as_str(self) -> (r: &'static str)
        ensures
            r@ == self.word(),
    {
        match self {
            ModeCommand::Spotlight => "spotlight",
            ModeCommand::Capture => "capture",
        }
    }

    /// The command a word names.
    pub fn parse(value: &str) -> (r: Option<ModeCommand>)
        ensures
            r == command_named(value@),
    {
        find_command(chars_of(value).as_slice())
    }
}

/// A command's word names that command, also with white space around it.
pub proof fn lemma_command_round_trip(command: ModeCommand)
    ensures
        command_named(command.word()) == Some(command),
        trimmed(command.word()) == command.word(),
{
    reveal_strlit("spotlight");
    reveal_strlit("capture");
    assert("spotlight"@.len() != "capture"@.len());
    assert(command.word().skip(0) =~= command.word());
    assert(command.word().take(command.word().len() as int) =~= command.word());
}

/// Socket file name inside the runtime directory.
pub const SOCKET_FILE_NAME: &'static str = "spotfreeze.sock";

/// The socket's path in the runtime directory; `None` when that is unset or
/// empty.
pub fn socket_path_from(xdg_runtime_dir: Option<&str>) -> (r: Option<String>)
    ensures
        match (xdg_runtime_dir, r) {
            (Some(dir), Some(path)) => dir@.len() > 0 && path@ == joined(dir@, SOCKET_FILE_NAME@),
            (Some(dir), None) => dir@.len() == 0,
            (None, None) => true,
            _ => false,
        },
{
    match xdg_runtime_dir {
        Some(dir) => {
            if dir.is_empty() {
                None
            } else {
                Some(join_path(dir, SOCKET_FILE_NAME))
            }
        },
        None => None,
    }
}

/// The payload to send for a command given by its word, or the message for an
/// unknown one.
pub fn send_mode_command(command: &str) -> (r: Result<&'static str, String>)
    ensures
        match (command_named(command@), r) {
            (Some(c), Ok(payload)) => payload@ == c.word(),
            (None, Err(message)) => message@ == "unknown IPC mode command \'"@ + command@ + "\'"@,
            _ => false,
        },
{
    match ModeCommand::parse(command) {
        Some(c) => Ok(c.as_str()),
        None => {
            let mut message: String = "unknown IPC mode command \'".to_owned();
            push_text(&mut message, command);
            push_text(&mut message, "\'");
            Err(message)
        },
    }
}

/// The last recognized command among the first `n` payloads.
pub open spec fn last_command(payloads: Seq<String>, n: int) -> Option<ModeCommand>
    decreases n,
{
    if n <= 0 {
        None
    } else {
        match command_named(trimmed(payloads[n - 1]@)) {
            Some(c) => Some(c),
            None => last_command(payloads, n - 1),
        }
    }
}

/// Fold the payloads received since the last time into one request: the last
/// recognized command. White space around a payload and unknown payloads are
/// ignored.
pub fn drain_mode_command(payloads: &[String]) -> (r: Option<ModeCommand>)
    ensures
        r == last_command(payloads@, payloads@.len() as int),
{
    let mut command: Option<ModeCommand> = None;
    let mut i: usize = 0;
    while i < payloads.len()
        invariant
            i <= payloads@.len(),
            command == last_command(payloads@, i as int),
        decreases payloads@.len() - i,
    {
        let chars = chars_of(payloads[i].as_str());
        match find_command(trim(chars.as_slice())) {
            Some(c) => {
                command = Some(c);
            },
            None => {},
        }
        i += 1;
    }
    command
}

/// The payload that asks for the freeze to be toggled.
pub const TOGGLE_COMMAND: &'static str = "toggle";

/// How many of the first `n` payloads ask for a toggle.
pub open spec fn toggle_count(payloads: Seq<String>, n: int) -> int
    decreases n,
{
    if n <= 0 {
        0
    } else {
        toggle_count(payloads, n - 1) + (if trimmed(payloads[n - 1]@) == TOGGLE_COMMAND@ {
            1int
        } else {
            0
        })
    }
}

/// How many payloads ask for a toggle. White space around a payload is ignored.
pub fn count_toggles(payloads: &[String]) -> (r: usize)
    ensures
        r == toggle_count(payloads@, payloads@.len() as int),
        r <= payloads@.len(),
{
    let word = chars_of(TOGGLE_COMMAND);
    let mut count: usize = 0;
    let mut i: usize = 0;
    while i < payloads.len()
        invariant
            i <= payloads@.len(),
            word@ == TOGGLE_COMMAND@,
            count <= i,
            count == toggle_count(payloads@, i as int),
        decreases payloads@.len() - i,
    {
        let chars = chars_of(payloads[i].as_str());
        if same_chars(trim(chars.as_slice()), word.as_slice()) {
            count += 1;
        }
        i += 1;
    }
    count
}

} // verus!
