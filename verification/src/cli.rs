//! The command line as plain values: what was asked for, and what is to be
//! done about it.

use crate::book::BlushPreprocessor;
use vstd::prelude::*;

verus! {

/// The arguments of one invocation.
pub struct Args {
    pub command: Option<Command>,
}

/// A subcommand.
pub enum Command {
    Supports(SupportsCmd),
    Install(InstallCmd),
}

/// Asks whether a renderer is supported.
pub struct SupportsCmd {
    /// The renderer to check.
    pub renderer: String,
}

/// Asks for the preprocessor to be installed into a book.
pub struct InstallCmd {
    /// The book's root directory, which holds `book.toml`.
    pub book_root_dir: String,
    /// Where the style sheet goes, relative to the root directory.
    pub css_dir: String,
}

/// What an invocation is to do.
pub enum Action {
    /// Answer whether the renderer is supported.
    Answer(bool),
    /// Install the preprocessor into a book.
    Install(InstallCmd),
    /// Read a book from the input, rewrite it and write it out.
    Preprocess,
}

/// Whether the renderer that the command names is supported.
pub fn run_supports_command(cmd: SupportsCmd) -> (supported: bool)
    ensures
        supported == (cmd.renderer@ == "html"@),
{
    BlushPreprocessor::new().supports_renderer(cmd.renderer.as_str())
}

impl Args {
    /// What the invocation is to do: without a subcommand it preprocesses a
    /// book.
    pub fn action(self) -> (action: Action)
        ensures
            action == match self.command {
                Some(Command::Supports(cmd)) => Action::Answer(cmd.renderer@ == "html"@),
                Some(Command::Install(cmd)) => Action::Install(cmd),
                None => Action::Preprocess,
            },
    {
        match self.command {
            Some(Command::Supports(cmd)) => Action::Answer(run_supports_command(cmd)),
            Some(Command::Install(cmd)) => Action::Install(cmd),
            None => Action::Preprocess,
        }
    }
}

} // verus!
