use vstd::prelude::*;
use crate::charmap::CharMap;

verus! {

/// The I/O error type of std, carried by `NestvimError::Io`.
#[verifier::external_type_specification]
#[verifier::external_body]
pub struct ExIoError(std::io::Error);

/// Errors of the editor.
pub enum NestvimError {
    Io(std::io::Error),
    Plugin(String),
    Terminal(String),
    NoFilePath,
}

/// The modes of the editor.
#[derive(Debug, Clone, Copy, PartialEq, Eq, Structural)]
pub enum Mode {
    Normal,
    Insert,
    Command,
    Visual,
}

impl Mode {
    /// The name of the mode, as the status line shows it.
    pub fn label(&self) -> (s: &'static str)
        ensures
            s@ == mode_label(*self),
    {
        match self {
            Mode::Normal => "NORMAL",
            Mode::Insert => "INSERT",
            Mode::Command => "COMMAND",
            Mode::Visual => "VISUAL",
        }
    }
}

/// The name of a mode as the status line shows it.
pub open spec fn mode_label(m: Mode) -> Seq<char> {
    match m {
        Mode::Normal => "NORMAL"@,
        Mode::Insert => "INSERT"@,
        Mode::Command => "COMMAND"@,
        Mode::Visual => "VISUAL"@,
    }
}

/// The key bindings the editor is started with.
#[derive(Debug, Clone, Copy, PartialEq, Eq, Structural)]
pub enum Keymap {
    Vim,
    Emacs,
}

/// Whether a visual selection is made of chars or of whole lines.
#[derive(Debug, Clone, Copy, PartialEq, Eq, Structural)]
pub enum VisualType {
    Character,
    Line,
}

/// One occurrence found by a search: a line (one-based) and the columns
/// `start_col..end_col` in it.
#[derive(Clone, Debug)]
pub struct SearchResult {
    pub line: usize,
    pub start_col: usize,
    pub end_col: usize,
}

/// The direction of a search.
#[derive(Clone, Copy, PartialEq, Eq, Structural)]
pub enum SearchDirection {
    Forward,
    Backward,
}

/// A change of what the screen shows that the editor asks of the renderer.
#[derive(Debug, Clone, Copy, PartialEq, Eq, Structural)]
pub enum ViewChange {
    /// Draw the whole screen again.
    Clear,
    /// Put the cursor line in the middle of the screen.
    CenterCursor,
    /// Show one line more at the top.
    UpOne,
}

/// A place in the text: a line (one-based) and a column.
#[derive(Debug, Clone, Copy, PartialEq, Eq, Structural)]
pub struct Position {
    pub line: usize,
    pub col: usize,
}

impl Default for Position {
    fn default() -> (p: Self)
        ensures
            p.line == 0 && p.col == 0,
    {
        Position { line: 0, col: 0 }
    }
}

/// Named marks, each a position.
pub struct Marks {
    marks: CharMap<Position>,
}

impl Marks {
    /// The marks, by name.
    pub closed spec fn view(&self) -> Map<char, Position> {
        self.marks.view()
    }

    /// No marks.
    pub fn new() -> (m: Self)
        ensures
            m.view() == Map::<char, Position>::empty(),
    {
        Marks { marks: CharMap::new() }
    }

    /// Sets mark `name` to `position`.
    pub fn set(&mut self, name: char, position: Position)
        ensures
            final(self).view() == old(self).view().insert(name, position),
    {
        self.marks.insert(name, position);
    }

    /// The position of mark `name`, if it is set.
    pub fn get(&self, name: char) -> (r: Option<Position>)
        ensures
            r == (if self.view().contains_key(name) {
                Some(self.view()[name])
            } else {
                None
            }),
    {
        match self.marks.get(name) {
            Some(p) => Some(*p),
            None => None,
        }
    }
}

impl Default for Marks {
    fn default() -> (m: Self)
        ensures
            m.view() == Map::<char, Position>::empty(),
    {
        Marks::new()
    }
}

/// Recorded macros, each a list of keys, and the name of the macro being
/// recorded, if any.
pub struct Macros {
    macros: CharMap<Vec<String>>,
    recording: Option<char>,
}

/// The state `add_key` leaves: the key appended to the macro being
/// recorded, if there is one.
pub open spec fn key_added(before: Macros, after: Macros, key: String) -> bool {
    &&& after.recording() == before.recording()
    &&& after.view() == (match before.recording() {
        Some(name) => if before.view().contains_key(name) {
            before.view().insert(name, before.view()[name].push(key))
        } else {
            before.view()
        },
        None => before.view(),
    })
}

impl Macros {
    /// The keys of each macro, by name.
    pub closed spec fn view(&self) -> Map<char, Seq<String>> {
        Map::new(|k: char| self.macros.view().contains_key(k), |k: char| self.macros.view()[k]@)
    }

    /// The macro being recorded.
    pub closed spec fn recording(&self) -> Option<char> {
        self.recording
    }

    /// No macros, and none being recorded.
    pub fn new() -> (m: Self)
        ensures
            m.view() == Map::<char, Seq<String>>::empty(),
            m.recording() == None::<char>,
    {
        let m = Macros { macros: CharMap::new(), recording: None };
        assert(m.view() =~= Map::<char, Seq<String>>::empty());
        m
    }

    /// Starts recording macro `name`; a macro not seen before starts empty,
    /// one seen before keeps its keys.
    pub fn start_recording(&mut self, name: char)
        ensures
            final(self).recording() == Some(name),
            final(self).view() == (if old(self).view().contains_key(name) {
                old(self).view()
            } else {
                old(self).view().insert(name, Seq::<String>::empty())
            }),
    {
        self.recording = Some(name);
        if !self.macros.contains(name) {
            self.macros.insert(name, Vec::new());
            assert(self.view() =~= old(self).view().insert(name, Seq::<String>::empty()));
        } else {
            assert(self.view() =~= old(self).view());
        }
    }

    /// Stops recording, and gives the name of the macro that was being
    /// recorded.
    pub fn stop_recording(&mut self) -> (r: Option<char>)
        ensures
            r == old(self).recording(),
            final(self).recording() == None::<char>,
            final(self).view() == old(self).view(),
    {
        self.recording.take()
    }

    /// Appends `key` to the macro being recorded, if any.
    pub fn add_key(&mut self, key: String)
        ensures
            key_added(*old(self), *final(self), key),
    {
        if let Some(name) = self.recording {
            let found = match self.macros.get(name) {
                Some(keys) => {
                    let mut keys = keys.clone();
                    proof {
                        assert(keys@ =~= self.macros.view()[name]@);
                    }
                    Some(keys)
                },
                None => None,
            };
            if let Some(mut keys) = found {
                keys.push(key);
                self.macros.insert(name, keys);
                assert(self.view() =~= old(self).view().insert(name, old(self).view()[name].push(key)));
            }
        }
    }

    /// The keys of macro `name`, if it exists.
    pub fn get(&self, name: char) -> (r: Option<&Vec<String>>)
        ensures
            match r {
                Some(keys) => self.view().contains_key(name) && self.view()[name] == keys@,
                None => !self.view().contains_key(name),
            },
    {
        self.macros.get(name)
    }

    /// Whether a macro is being recorded.
    pub fn is_recording(&self) -> (b: bool)
        ensures
            b == (self.recording() is Some),
    {
        self.recording.is_some()
    }
}

impl Default for Macros {
    fn default() -> (m: Self)
        ensures
            m.view() == Map::<char, Seq<String>>::empty(),
            m.recording() == None::<char>,
    {
        Macros::new()
    }
}

/// What the editor shows and edits: its mode, the cursor, the file, the
/// command being typed, the visual selection, marks and macros.
pub struct EditorState {
    pub mode: Mode,
    pub cursor: Position,
    pub file_path: Option<String>,
    pub dirty: bool,
    pub command_buffer: String,
    pub visual_start: Option<Position>,
    pub visual_type: Option<VisualType>,
    pub marks: Marks,
    pub macros: Macros,
}

impl Default for EditorState {
    fn default() -> (s: Self)
        ensures
            s.mode == Mode::Normal,
            s.cursor == (Position { line: 1, col: 0 }),
            s.file_path is None,
            !s.dirty,
            s.command_buffer@ == Seq::<char>::empty(),
            s.visual_start is None,
            s.visual_type is None,
            s.marks.view() == Map::<char, Position>::empty(),
            s.macros.view() == Map::<char, Seq<String>>::empty(),
            s.macros.recording() is None,
    {
        EditorState {
            mode: Mode::Normal,
            cursor: Position { line: 1, col: 0 },
            file_path: None,
            dirty: false,
            command_buffer: String::new(),
            visual_start: None,
            visual_type: None,
            marks: Marks::new(),
            macros: Macros::new(),
        }
    }
}

/// What the editor tells its plugins.
#[derive(Debug, Clone)]
pub enum PluginEvent {
    ModeChange { from: Mode, to: Mode },
    BufferChange,
    Key { mode: Mode, key: char },
    BufferSave { file_path: Option<String> },
}

impl PluginEvent {
    /// The name under which plugins subscribe to this kind of event.
    pub fn name(&self) -> (s: &'static str)
        ensures
            s@ == event_name(*self),
    {
        match self {
            PluginEvent::ModeChange { .. } => "mode_change",
            PluginEvent::BufferChange => "buffer_change",
            PluginEvent::Key { .. } => "key",
            PluginEvent::BufferSave { .. } => "buffer_save",
        }
    }
}

/// The name under which plugins subscribe to an event.
pub open spec fn event_name(e: PluginEvent) -> Seq<char> {
    match e {
        PluginEvent::ModeChange { .. } => "mode_change"@,
        PluginEvent::BufferChange => "buffer_change"@,
        PluginEvent::Key { .. } => "key"@,
        PluginEvent::BufferSave { .. } => "buffer_save"@,
    }
}

} // verus!
