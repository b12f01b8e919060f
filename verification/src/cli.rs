//! The words on the command line.
use vstd::prelude::*;

use crate::state;
use crate::state::{ParseStateError, StateKind};
use crate::text;
use crate::wire::EventMessage;

verus! {

/// What the program is asked to do.
#[derive(Clone, Copy, Debug, PartialEq, Eq, Structural)]
pub enum Command {
    Daemon,
    Hook,
    InitConfig,
    SetState,
    Clear,
    Reload,
    Status,
    Doctor,
    Update,
    Help,
    Version,
    Unknown,
}

/// Why a state cannot be set.
#[derive(Clone, Debug)]
pub enum SetStateError {
    /// No state was given.
    MissingState,
    /// What was given is no state.
    UnknownState(ParseStateError),
}

/// The command that a word stands for.
pub open spec fn command_of(word: Seq<char>) -> Command {
    if word == "daemon"@ {
        Command::Daemon
    } else if word == "hook"@ {
        Command::Hook
    } else if word == "init-config"@ {
        Command::InitConfig
    } else if word == "set"@ {
        Command::SetState
    } else if word == "clear"@ {
        Command::Clear
    } else if word == "reload"@ {
        Command::Reload
    } else if word == "status"@ {
        Command::Status
    } else if word == "doctor"@ {
        Command::Doctor
    } else if word == "update"@ {
        Command::Update
    } else if word == "help"@ || word == "--help"@ || word == "-h"@ {
        Command::Help
    } else if word == "--version"@ || word == "-V"@ || word == "version"@ {
        Command::Version
    } else {
        Command::Unknown
    }
}

/// The command that the words on the command line ask for. Without one it is help.
pub open spec fn requested(words: Seq<String>) -> Command {
    if words.len() >= 2 {
        command_of(words[1]@)
    } else {
        Command::Help
    }
}

/// The command that a word stands for.
pub fn parse_command(word: &str) -> (r: Command)
    ensures
        r == command_of(word@),
{
    if text::same_text(word, "daemon") {
        Command::Daemon
    } else if text::same_text(word, "hook") {
        Command::Hook
    } else if text::same_text(word, "init-config") {
        Command::InitConfig
    } else if text::same_text(word, "set") {
        Command::SetState
    } else if text::same_text(word, "clear") {
        Command::Clear
    } else if text::same_text(word, "reload") {
        Command::Reload
    } else if text::same_text(word, "status") {
        Command::Status
    } else if text::same_text(word, "doctor") {
        Command::Doctor
    } else if text::same_text(word, "update") {
        Command::Update
    } else if text::same_text(word, "help") || text::same_text(word, "--help") || text::same_text(
        word,
        "-h",
    ) {
        Command::Help
    } else if text::same_text(word, "--version") || text::same_text(word, "-V") || text::same_text(
        word,
        "version",
    ) {
        Command::Version
    } else {
        Command::Unknown
    }
}

/// The command that the words on the command line, the program's name among them, ask for.
pub fn requested_command(words: &Vec<String>) -> (r: Command)
    ensures
        r == requested(words@),
{
    if words.len() >= 2 {
        parse_command(words[1].as_str())
    } else {
        Command::Help
    }
}

/// Whether the words on the command line ask to overwrite what is there.
pub fn wants_force(words: &Vec<String>) -> (r: bool)
    ensures
        r == exists|i: int| 0 <= i < words@.len() && (#[trigger] words@[i])@ == "--force"@,
{
    let mut i: usize = 0;
    while i < words.len()
        invariant
            i <= words@.len(),
            forall|j: int| 0 <= j < i ==> (#[trigger] words@[j])@ != "--force"@,
        decreases words@.len() - i,
    {
        if text::same_text(words[i].as_str(), "--force") {
            return true;
        }
        i += 1;
    }
    false
}

/// The word at `position` on the command line.
pub fn argument(words: &Vec<String>, position: usize) -> (r: Option<String>)
    ensures
        match r {
            Some(word) => position < words@.len() && word@ == words@[position as int]@,
            None => position >= words@.len(),
        },
{
    if position < words.len() {
        Some(words[position].clone())
    } else {
        None
    }
}

/// The message that sets a state: the state is given, and the task may be.
pub fn set_message(words: &Vec<String>) -> (r: Result<EventMessage, SetStateError>)
    ensures
        match r {
            Ok(message) => {
                &&& words@.len() >= 3
                &&& message matches EventMessage::SetState { session_id, state } && {
                    &&& state::state_value(words@[2]@) == Some(state)
                    &&& session_id@ == if words@.len() >= 4 {
                        words@[3]@
                    } else {
                        "manual-preview"@
                    }
                }
            },
            Err(SetStateError::MissingState) => words@.len() < 3,
            Err(SetStateError::UnknownState(error)) => words@.len() >= 3 && state::state_value(
                words@[2]@,
            ) is None && error.value@ == words@[2]@,
        },
{
    if words.len() < 3 {
        return Err(SetStateError::MissingState);
    }
    match StateKind::parse(words[2].as_str()) {
        Ok(state) => {
            let session_id: String = match argument(words, 3) {
                Some(session_id) => session_id,
                None => "manual-preview".to_owned(),
            };
            Ok(EventMessage::SetState { session_id, state })
        },
        Err(error) => Err(SetStateError::UnknownState(error)),
    }
}

/// The message that clears a task, or all tasks where none is given.
pub fn clear_message(words: &Vec<String>) -> (r: EventMessage)
    ensures
        r matches EventMessage::Clear { session_id } && match session_id {
            Some(session) => words@.len() >= 3 && session@ == words@[2]@,
            None => words@.len() < 3,
        },
{
    EventMessage::Clear { session_id: argument(words, 2) }
}

} // verus!
