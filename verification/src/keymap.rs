use vstd::prelude::*;
use crate::editor::Key;
use crate::types::Keymap;

verus! {

/// What a keymap asks of the editor for a key, in the order given.
#[derive(Debug, Clone, Copy, PartialEq, Eq, Structural)]
pub enum KeyCommand {
    /// Ask for the buffer to be saved.
    RequestSave,
    /// Tell the plugins of a char key, in the editor's current mode.
    EmitKey(char),
    Quit,
    CursorLineStart,
    CursorLineEnd,
    CursorRight,
    CursorLeft,
    CursorDown,
    CursorUp,
    DeleteCharForward,
    DeleteCharBackward,
    KillLine,
    KillWord,
    YankPop,
    TransposeChars,
    /// Scroll up one line and ask for a render.
    ScrollUpOne,
    ClearScreen,
    ScrollCursorToCenter,
    Abort,
    Undo,
    InsertChar(char),
    InsertNewline,
    InsertTab,
    ScrollUp,
    ScrollDown,
}

/// `char::is_control`: the chars of general category Cc, U+0000 to U+001F
/// and U+007F to U+009F.
pub open spec fn is_control_char(c: char) -> bool {
    (c as u32) <= 0x1F || (0x7F <= (c as u32) && (c as u32) <= 0x9F)
}

/// Whether `c` is a control char, as `char::is_control` tells.
pub fn is_control(c: char) -> (b: bool)
    ensures
        b == is_control_char(c),
{
    let u = c as u32;
    u <= 0x1F || (0x7F <= u && u <= 0x9F)
}

/// Something that turns keys into commands for the editor.
pub trait KeymapHandler {
    fn handle_key(&mut self, key: Key, ctrl: bool) -> Vec<KeyCommand>;
}

/// The Vim keymap: keys go to the editor's own modal handling, so it asks
/// for nothing itself.
pub struct VimKeymap;

impl VimKeymap {
    pub fn new() -> (k: Self) {
        VimKeymap
    }
}

impl KeymapHandler for VimKeymap {
    fn handle_key(&mut self, key: Key, ctrl: bool) -> (cmds: Vec<KeyCommand>)
        ensures
            cmds@.len() == 0,
    {
        Vec::new()
    }
}

#[derive(Debug, Clone, Copy, PartialEq, Eq, Structural)]
enum EmacsPrefixState {
    Idle,
    WaitingCx,
}

/// The Emacs keymap: `Ctrl-x` makes the next key a prefixed one, and a save
/// asked for with `Ctrl-x Ctrl-s` is passed on with the key after it.
pub struct EmacsKeymap {
    prefix_state: EmacsPrefixState,
    pending_save: bool,
}

/// The command that a key bound under the `Ctrl-x` prefix stands for;
/// `Ctrl-s` (save) is not among them, it is kept for the next key.
pub open spec fn prefixed_command(key: Key, ctrl: bool) -> Option<KeyCommand> {
    if !ctrl {
        None
    } else {
        match key {
            Key::Char('c') => Some(KeyCommand::Quit),
            Key::Char('h') => Some(KeyCommand::CursorLineStart),
            Key::Char('d') => Some(KeyCommand::CursorLineEnd),
            _ => None,
        }
    }
}

/// The commands that a key stands for without a prefix (`Ctrl-x` itself
/// stands for none: it starts the prefix).
pub open spec fn bound_commands(key: Key, ctrl: bool) -> Seq<KeyCommand> {
    if ctrl {
        match key {
            Key::Char('f') => seq![KeyCommand::CursorRight],
            Key::Char('b') => seq![KeyCommand::CursorLeft],
            Key::Char('n') => seq![KeyCommand::CursorDown],
            Key::Char('p') => seq![KeyCommand::CursorUp],
            Key::Char('a') => seq![KeyCommand::CursorLineStart],
            Key::Char('e') => seq![KeyCommand::CursorLineEnd],
            Key::Char('d') => seq![KeyCommand::DeleteCharForward],
            Key::Char('k') => seq![KeyCommand::KillLine],
            Key::Char('h') => seq![KeyCommand::DeleteCharBackward],
            Key::Char('w') => seq![KeyCommand::KillWord],
            Key::Char('y') => seq![KeyCommand::YankPop],
            Key::Char('o') => seq![KeyCommand::RequestSave],
            Key::Char('t') => seq![KeyCommand::TransposeChars],
            Key::Char('v') => seq![KeyCommand::ScrollUpOne],
            Key::Char('l') => seq![KeyCommand::ClearScreen, KeyCommand::ScrollCursorToCenter],
            Key::Char('g') => seq![KeyCommand::Abort],
            Key::Char('/') => seq![KeyCommand::Undo],
            Key::Char('_') => seq![KeyCommand::Undo],
            Key::Char('?') => seq![KeyCommand::Undo],
            _ => seq![],
        }
    } else {
        match key {
            Key::Char(c) => if !is_control_char(c) {
                seq![KeyCommand::InsertChar(c)]
            } else {
                seq![]
            },
            Key::Backspace => seq![KeyCommand::DeleteCharBackward],
            Key::Delete => seq![KeyCommand::DeleteCharForward],
            Key::Enter => seq![KeyCommand::InsertNewline],
            Key::Tab => seq![KeyCommand::InsertTab],
            Key::Up => seq![KeyCommand::CursorUp],
            Key::Down => seq![KeyCommand::CursorDown],
            Key::Left => seq![KeyCommand::CursorLeft],
            Key::Right => seq![KeyCommand::CursorRight],
            Key::Home => seq![KeyCommand::CursorLineStart],
            Key::End => seq![KeyCommand::CursorLineEnd],
            Key::PageUp => seq![KeyCommand::ScrollUp],
            Key::PageDown => seq![KeyCommand::ScrollDown],
            _ => seq![],
        }
    }
}

/// `Ctrl-x`.
pub open spec fn is_prefix_key(key: Key, ctrl: bool) -> bool {
    ctrl && key == Key::Char('x')
}

/// The commands given before a key is acted on: a save asked for by the
/// key before, then the plugins told of a char key.
pub open spec fn lead_commands(pending_save: bool, key: Key) -> Seq<KeyCommand> {
    (if pending_save {
        seq![KeyCommand::RequestSave]
    } else {
        seq![]
    }) + match key {
        Key::Char(c) => seq![KeyCommand::EmitKey(c)],
        _ => seq![],
    }
}

/// What a key does to the Emacs keymap and which commands it gives: a
/// pending save and the plugins' notice of a char key first; then, after
/// `Ctrl-x`, `Ctrl-s` keeps a save for the next key and `Ctrl-c`, `Ctrl-h`,
/// `Ctrl-d` give their prefixed command; any other key, and any key without
/// the prefix, gives what it is bound to, `Ctrl-x` starting the prefix.
pub open spec fn emacs_step(
    before: EmacsKeymap,
    after: EmacsKeymap,
    key: Key,
    ctrl: bool,
    cmds: Seq<KeyCommand>,
) -> bool {
    let lead = lead_commands(before.save_pending(), key);
    if before.waiting_cx() && ctrl && key == Key::Char('s') {
        &&& cmds == lead
        &&& after.save_pending()
        &&& !after.waiting_cx()
    } else if before.waiting_cx() && prefixed_command(key, ctrl) is Some {
        &&& cmds == lead.push(prefixed_command(key, ctrl)->0)
        &&& !after.save_pending()
        &&& !after.waiting_cx()
    } else {
        &&& cmds == lead + bound_commands(key, ctrl)
        &&& !after.save_pending()
        &&& after.waiting_cx() == is_prefix_key(key, ctrl)
    }
}

impl EmacsKeymap {
    /// Whether the last key was `Ctrl-x`.
    pub closed spec fn waiting_cx(&self) -> bool {
        self.prefix_state == EmacsPrefixState::WaitingCx
    }

    /// Whether a save was asked for with `Ctrl-x Ctrl-s` and is still to be
    /// passed on.
    pub closed spec fn save_pending(&self) -> bool {
        self.pending_save
    }

    /// No prefix, no save pending.
    pub fn new() -> (k: Self)
        ensures
            !k.waiting_cx(),
            !k.save_pending(),
    {
        EmacsKeymap { prefix_state: EmacsPrefixState::Idle, pending_save: false }
    }
}

impl KeymapHandler for EmacsKeymap {
    /// The commands for `key`, `ctrl` when Control is held, as
    /// `emacs_step` says.
    fn handle_key(&mut self, key: Key, ctrl: bool) -> (cmds: Vec<KeyCommand>)
        ensures
            emacs_step(*old(self), *final(self), key, ctrl, cmds@),
    {
        let mut cmds: Vec<KeyCommand> = Vec::new();
        if self.pending_save {
            self.pending_save = false;
            cmds.push(KeyCommand::RequestSave);
        }
        if let Key::Char(c) = key {
            cmds.push(KeyCommand::EmitKey(c));
        }
        assert(cmds@ == lead_commands(old(self).save_pending(), key));
        if self.prefix_state == EmacsPrefixState::WaitingCx {
            self.prefix_state = EmacsPrefixState::Idle;
            if ctrl {
                match key {
                    Key::Char('s') => {
                        self.pending_save = true;
                        return cmds;
                    },
                    Key::Char('c') => {
                        cmds.push(KeyCommand::Quit);
                        return cmds;
                    },
                    Key::Char('h') => {
                        cmds.push(KeyCommand::CursorLineStart);
                        return cmds;
                    },
                    Key::Char('d') => {
                        cmds.push(KeyCommand::CursorLineEnd);
                        return cmds;
                    },
                    _ => {},
                }
            }
        }
        let ghost lead = cmds@;
        if ctrl {
            match key {
                Key::Char('x') => {
                    self.prefix_state = EmacsPrefixState::WaitingCx;
                },
                Key::Char('f') => cmds.push(KeyCommand::CursorRight),
                Key::Char('b') => cmds.push(KeyCommand::CursorLeft),
                Key::Char('n') => cmds.push(KeyCommand::CursorDown),
                Key::Char('p') => cmds.push(KeyCommand::CursorUp),
                Key::Char('a') => cmds.push(KeyCommand::CursorLineStart),
                Key::Char('e') => cmds.push(KeyCommand::CursorLineEnd),
                Key::Char('d') => cmds.push(KeyCommand::DeleteCharForward),
                Key::Char('k') => cmds.push(KeyCommand::KillLine),
                Key::Char('h') => cmds.push(KeyCommand::DeleteCharBackward),
                Key::Char('w') => cmds.push(KeyCommand::KillWord),
                Key::Char('y') => cmds.push(KeyCommand::YankPop),
                Key::Char('o') => cmds.push(KeyCommand::RequestSave),
                Key::Char('t') => cmds.push(KeyCommand::TransposeChars),
                Key::Char('v') => cmds.push(KeyCommand::ScrollUpOne),
                Key::Char('l') => {
                    cmds.push(KeyCommand::ClearScreen);
                    cmds.push(KeyCommand::ScrollCursorToCenter);
                },
                Key::Char('g') => cmds.push(KeyCommand::Abort),
                Key::Char('/') => cmds.push(KeyCommand::Undo),
                Key::Char('_') => cmds.push(KeyCommand::Undo),
                Key::Char('?') => cmds.push(KeyCommand::Undo),
                _ => {},
            }
        } else {
            match key {
                Key::Char(c) => {
                    if !is_control(c) {
                        cmds.push(KeyCommand::InsertChar(c));
                    }
                },
                Key::Backspace => cmds.push(KeyCommand::DeleteCharBackward),
                Key::Delete => cmds.push(KeyCommand::DeleteCharForward),
                Key::Enter => cmds.push(KeyCommand::InsertNewline),
                Key::Tab => cmds.push(KeyCommand::InsertTab),
                Key::Up => cmds.push(KeyCommand::CursorUp),
                Key::Down => cmds.push(KeyCommand::CursorDown),
                Key::Left => cmds.push(KeyCommand::CursorLeft),
                Key::Right => cmds.push(KeyCommand::CursorRight),
                Key::Home => cmds.push(KeyCommand::CursorLineStart),
                Key::End => cmds.push(KeyCommand::CursorLineEnd),
                Key::PageUp => cmds.push(KeyCommand::ScrollUp),
                Key::PageDown => cmds.push(KeyCommand::ScrollDown),
                _ => {},
            }
        }
        assert(cmds@ =~= lead + bound_commands(key, ctrl));
        cmds
    }
}

impl Default for EmacsKeymap {
    fn default() -> (k: Self)
        ensures
            !k.waiting_cx(),
            !k.save_pending(),
    {
        EmacsKeymap::new()
    }
}

/// The handler for a keymap.
pub fn create_keymap(keymap: Keymap) -> (h: Box<dyn KeymapHandler>) {
    match keymap {
        Keymap::Vim => Box::new(VimKeymap::new()),
        Keymap::Emacs => Box::new(EmacsKeymap::new()),
    }
}

} // verus!
