use vstd::prelude::*;
use crate::types::Keymap;

verus! {

/// The command line: an optional keymap command, and a file to edit when
/// no command is given.
pub struct Cli {
    pub mode: Option<ModeCommand>,
    pub file: Option<String>,
}

/// The keymap commands of the command line, each with the file to edit.
pub enum ModeCommand {
    Vim { file: Option<String> },
    Emacs { file: Option<String> },
}

/// The keymap and the file that a command line asks for: the command's
/// keymap and file, or the Vim keymap and the plain file argument when no
/// command is given.
pub fn resolve_cli(cli: Cli) -> (r: (Keymap, Option<String>))
    ensures
        r == match cli.mode {
            Some(ModeCommand::Vim { file }) => (Keymap::Vim, file),
            Some(ModeCommand::Emacs { file }) => (Keymap::Emacs, file),
            None => (Keymap::Vim, cli.file),
        },
{
    match cli.mode {
        Some(ModeCommand::Vim { file }) => (Keymap::Vim, file),
        Some(ModeCommand::Emacs { file }) => (Keymap::Emacs, file),
        None => (Keymap::Vim, cli.file),
    }
}

} // verus!
