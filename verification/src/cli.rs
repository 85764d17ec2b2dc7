//! The tool's command surface, and parsing a bare subcommand word.

use vstd::prelude::*;

use crate::text::str_eq;

verus! {

/// The subcommands the tool offers.
#[derive(Debug, Clone, PartialEq)]
pub enum Commands {
    /// Display help information.
    Help,
    /// Ask a single question.
    Ask { question: String },
    /// Start an interactive chat session.
    Chat,
    /// Commit changes with a generated message.
    Commit { all: bool },
    /// Push changes to the remote repository.
    Push { force: bool },
    /// Publish the project to its registry.
    Publish,
}

/// The parsed command line: the chosen subcommand, if any.
#[derive(Debug, Clone)]
pub struct Cli {
    pub command: Option<Commands>,
}

/// The command a bare subcommand word names. `ask` needs an argument, so
/// the bare word maps to nothing, as does every unknown word.
pub open spec fn spec_command_of(s: Seq<char>) -> Option<Commands> {
    if s == "help"@ {
        Some(Commands::Help)
    } else if s == "chat"@ {
        Some(Commands::Chat)
    } else if s == "commit"@ {
        Some(Commands::Commit { all: false })
    } else if s == "push"@ {
        Some(Commands::Push { force: false })
    } else if s == "publish"@ {
        Some(Commands::Publish)
    } else {
        None
    }
}

impl Commands {
    /// Parse a bare subcommand word.
    pub fn from_str(s: &str) -> (r: Option<Commands>)
        ensures
            r == spec_command_of(s@),
    {
        if str_eq(s, "help") {
            Some(Commands::Help)
        } else if str_eq(s, "chat") {
            Some(Commands::Chat)
        } else if str_eq(s, "commit") {
            Some(Commands::Commit { all: false })
        } else if str_eq(s, "push") {
            Some(Commands::Push { force: false })
        } else if str_eq(s, "publish") {
            Some(Commands::Publish)
        } else {
            None
        }
    }
}

} // verus!
