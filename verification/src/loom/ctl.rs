//! Reading the command line of the Loom control client.

use vstd::prelude::*;
use crate::loom::mode::{mode_of_name, mode_of_number, Mode};
use crate::text::{parse_unsigned, parse_unsigned_decimal, str_eq};

verus! {

/// A command word of the control client.
#[derive(Clone, Copy, Debug, PartialEq, Eq, Structural)]
pub enum CtlCommand {
    Volume,
    Mode,
    PitchEnabled,
    Pitch,
    GetState,
    Help,
    /// A word that names no command.
    Unknown,
}

/// The command a word names.
pub open spec fn command_of_word(word: Seq<char>) -> CtlCommand {
    if word == "volume"@ {
        CtlCommand::Volume
    } else if word == "mode"@ {
        CtlCommand::Mode
    } else if word == "pitch_enabled"@ {
        CtlCommand::PitchEnabled
    } else if word == "pitch"@ {
        CtlCommand::Pitch
    } else if word == "get_state"@ {
        CtlCommand::GetState
    } else if word == "help"@ {
        CtlCommand::Help
    } else {
        CtlCommand::Unknown
    }
}

/// The mode a `mode` argument selects: a number (as `u8` parses it) by its
/// wire number, where numbers that name no mode select `Off`; otherwise a
/// mode name.
pub open spec fn mode_of_argument(argument: Seq<char>) -> Option<Mode> {
    match parse_unsigned(argument, 255) {
        Some(value) => Some(mode_of_number(value as u8)),
        None => mode_of_name(argument),
    }
}

/// The flag a `pitch_enabled` argument gives, as `bool` parses it.
pub open spec fn flag_of_argument(argument: Seq<char>) -> Option<bool> {
    if argument == "true"@ {
        Some(true)
    } else if argument == "false"@ {
        Some(false)
    } else {
        None
    }
}

/// Reads the command word.
pub fn parse_command(word: &str) -> (command: CtlCommand)
    ensures
        command == command_of_word(word@),
{
    if str_eq(word, "volume") {
        CtlCommand::Volume
    } else if str_eq(word, "mode") {
        CtlCommand::Mode
    } else if str_eq(word, "pitch_enabled") {
        CtlCommand::PitchEnabled
    } else if str_eq(word, "pitch") {
        CtlCommand::Pitch
    } else if str_eq(word, "get_state") {
        CtlCommand::GetState
    } else if str_eq(word, "help") {
        CtlCommand::Help
    } else {
        CtlCommand::Unknown
    }
}

/// Reads the argument of `mode`: a number, else a mode name; `None` if it is
/// neither.
pub fn parse_mode_argument(argument: &str) -> (mode: Option<Mode>)
    ensures
        mode == mode_of_argument(argument@),
{
    match parse_unsigned_decimal(argument, 255) {
        Some(value) => Some(Mode::from_u8(value as u8)),
        None => Mode::from_str(argument),
    }
}

/// Reads the argument of `pitch_enabled`: exactly `true` or `false`.
pub fn parse_flag_argument(argument: &str) -> (flag: Option<bool>)
    ensures
        flag == flag_of_argument(argument@),
{
    if str_eq(argument, "true") {
        Some(true)
    } else if str_eq(argument, "false") {
        Some(false)
    } else {
        None
    }
}

} // verus!
