//! What the user types at the two prompts, read without regard to the case
//! of ASCII letters.

use crate::text::{lowered, reads};
use vstd::prelude::*;

verus! {

/// A choice at the main menu.
#[derive(Debug, Clone, Copy, PartialEq, Eq)]
pub enum MainCommand {
    /// `1`: the remote clipboard.
    Clipboard,
    /// `2`: send the files of the upload folder.
    Throw,
    /// `3`: fetch the files of the remote folder.
    Catch,
    /// `e` or `exit`: leave the program.
    Exit,
    /// Anything else.
    Invalid,
}

/// A choice at the prompt of the clipboard.
#[derive(Debug, Clone, Copy, PartialEq, Eq)]
pub enum ClipCommand {
    /// `t` or `to`: put a line of text into the remote clipboard.
    To,
    /// `f` or `from`: take the text out of the remote clipboard.
    From,
    /// `e` or `exit`: back to the main menu.
    Exit,
    /// Anything else.
    Invalid,
}

/// The choice that `s` stands for at the main menu.
pub open spec fn main_command(s: Seq<char>) -> MainCommand {
    let l = lowered(s);
    if l == "1"@ {
        MainCommand::Clipboard
    } else if l == "2"@ {
        MainCommand::Throw
    } else if l == "3"@ {
        MainCommand::Catch
    } else if l == "e"@ || l == "exit"@ {
        MainCommand::Exit
    } else {
        MainCommand::Invalid
    }
}

/// The choice that `s` stands for at the prompt of the clipboard.
pub open spec fn clip_command(s: Seq<char>) -> ClipCommand {
    let l = lowered(s);
    if l == "t"@ || l == "to"@ {
        ClipCommand::To
    } else if l == "f"@ || l == "from"@ {
        ClipCommand::From
    } else if l == "e"@ || l == "exit"@ {
        ClipCommand::Exit
    } else {
        ClipCommand::Invalid
    }
}

/// Reads a choice at the main menu.
pub fn parse_main_command(choice: &str) -> (r: MainCommand)
    ensures
        r == main_command(choice@),
{
    if reads(choice, "1") {
        MainCommand::Clipboard
    } else if reads(choice, "2") {
        MainCommand::Throw
    } else if reads(choice, "3") {
        MainCommand::Catch
    } else if reads(choice, "e") || reads(choice, "exit") {
        MainCommand::Exit
    } else {
        MainCommand::Invalid
    }
}

/// Reads a choice at the prompt of the clipboard.
pub fn parse_clip_command(choice: &str) -> (r: ClipCommand)
    ensures
        r == clip_command(choice@),
{
    if reads(choice, "t") || reads(choice, "to") {
        ClipCommand::To
    } else if reads(choice, "f") || reads(choice, "from") {
        ClipCommand::From
    } else if reads(choice, "e") || reads(choice, "exit") {
        ClipCommand::Exit
    } else {
        ClipCommand::Invalid
    }
}

} // verus!
