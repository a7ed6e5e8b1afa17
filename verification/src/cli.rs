//! What the program is asked to do, read from its arguments.

use crate::text::same_text;
use vstd::prelude::*;

verus! {

/// What the program is asked to do.
#[derive(Debug, Clone, Copy, PartialEq, Eq)]
pub enum Command {
    /// Write a new entry and merge it into the document.
    Edit,
    /// Open the document itself.
    Show,
    /// Print the version.
    Version,
    /// Print how the program is used.
    Help,
    /// Anything else: point to the help.
    Unknown,
}

/// The command that the arguments `args` ask for; the first of them is the
/// program's own name. With no argument behind it a new entry is written. One
/// argument names a command, with or without two hyphens before it. Whatever
/// else is given is unknown, and so is a list without the program's name.
pub open spec fn command_of(args: Seq<Seq<char>>) -> Command {
    if args.len() == 1 {
        Command::Edit
    } else if args.len() == 2 {
        let word = args[1];
        if word == "show"@ || word == "--show"@ {
            Command::Show
        } else if word == "version"@ || word == "--version"@ {
            Command::Version
        } else if word == "help"@ || word == "--help"@ {
            Command::Help
        } else {
            Command::Unknown
        }
    } else {
        Command::Unknown
    }
}

/// The command that the arguments `args` ask for.
pub fn command(args: &Vec<String>) -> (c: Command)
    ensures
        c == command_of(args.deep_view()),
{
    if args.len() == 1 {
        return Command::Edit;
    }
    if args.len() != 2 {
        return Command::Unknown;
    }
    let word = args[1].as_str();
    assert(word@ == args.deep_view()[1]);
    if same_text(word, "show") || same_text(word, "--show") {
        Command::Show
    } else if same_text(word, "version") || same_text(word, "--version") {
        Command::Version
    } else if same_text(word, "help") || same_text(word, "--help") {
        Command::Help
    } else {
        Command::Unknown
    }
}

} // verus!
