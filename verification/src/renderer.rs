use vstd::prelude::*;
use crate::buffer::{line_text, TextBuffer};
use crate::lines::num_lines;
use crate::screen::spaces;
use crate::text::{chars_to_string, push_all, same_chars, str_chars};
use crate::types::{mode_label, EditorState, Mode, ViewChange};

verus! {

/// The digit char for `d` in `0..10`.
pub open spec fn digit(d: int) -> char {
    seq!['0', '1', '2', '3', '4', '5', '6', '7', '8', '9'][d]
}

/// `n` written in decimal (what `to_string` gives for an integer).
pub open spec fn decimal(n: nat) -> Seq<char>
    decreases n,
{
    if n < 10 {
        seq![digit(n as int)]
    } else {
        decimal(n / 10).push(digit((n % 10) as int))
    }
}

/// `s` right-aligned in `w` columns (as `{:w$}` shows a number).
pub open spec fn pad_left(s: Seq<char>, w: int) -> Seq<char> {
    spaces(w - s.len()) + s
}

/// `s` left-aligned in `w` columns (as `{:w$}` shows a text).
pub open spec fn pad_right(s: Seq<char>, w: int) -> Seq<char> {
    s + spaces(w - s.len())
}

/// How many text rows the screen has: all rows but the status line and
/// one more, at least one.
pub open spec fn visible_rows(rows: u16) -> int {
    let r = if rows < 2 { 2 } else { rows as int };
    if r - 2 < 1 { 1 } else { r - 2 }
}

/// The width of the line numbers: the digits of the line count, or none
/// when line numbers are not shown.
pub open spec fn number_width(s: Seq<char>, show: bool) -> int {
    if !show {
        0
    } else if num_lines(s) == 0 {
        1
    } else {
        decimal(num_lines(s)).len() as int
    }
}

/// The file name the status line shows.
pub open spec fn path_label(p: Option<String>) -> Seq<char> {
    match p {
        Some(p) => p@,
        None => "[No Name]"@,
    }
}

/// The status line: the confirmation asked for, if any; the command being
/// typed in command mode; else the mode, the file, and `[+]` for unsaved
/// changes.
pub open spec fn status_text(state: EditorState, show: bool, confirmation: Option<Seq<char>>) -> Seq<char> {
    match confirmation {
        Some(m) => m,
        None => if state.mode == Mode::Command {
            ":"@ + state.command_buffer@
        } else {
            "-- "@ + mode_label(state.mode) + " -- "@ + path_label(state.file_path) + " "@ + (if state.dirty {
                "[+]"@
            } else {
                Seq::empty()
            }) + (if show {
                " "@
            } else {
                Seq::empty()
            })
        },
    }
}

/// What a screen row shows of buffer line `n` (one-based): '~' past the
/// end of a non-empty text; else the line, after its number in gray when
/// numbers are shown (0 for a line that does not exist).
pub open spec fn row_text(s: Seq<char>, n: int, show: bool, width: int) -> Seq<char> {
    let count = num_lines(s);
    let raw = line_text(s, n);
    if raw.len() == 0 && n > count && count > 0 {
        if show {
            pad_right("~"@, width)
        } else {
            "~"@
        }
    } else if show {
        let num = if n <= count { n } else { 0 };
        "\x1b[38;5;240m"@ + pad_left(decimal(num as nat), width) + "  "@ + "\x1b[0m"@ + raw
    } else {
        raw
    }
}

/// The first line shown once the cursor is brought into view.
pub open spec fn scroll_to_cursor(top: int, line: int, visible: int) -> int {
    if line < top {
        line
    } else if line - top >= visible {
        line - visible + 1
    } else {
        top
    }
}

/// `top` kept between 1 and the last first line that still fills the
/// screen (`usize::clamp`).
pub open spec fn clamped_top(top: int, count: int, visible: int) -> int {
    let hi = if count - visible > 1 { count - visible } else { 1 };
    if top < 1 {
        1
    } else if top > hi {
        hi
    } else {
        top
    }
}

/// What to put on the screen: when `full`, the screen is cleared, `lines`
/// are written to the rows from the top and `status` to the status line;
/// the cursor goes to `cursor_row`, `cursor_col` (one-based) either way.
pub struct Frame {
    pub full: bool,
    pub lines: Vec<String>,
    pub status: String,
    pub cursor_row: u16,
    pub cursor_col: u16,
}

/// Draws the buffer and the status line, redrawing the whole screen only
/// when what it shows has changed.
pub struct Renderer {
    scroll_top: usize,
    last_modification_count: usize,
    last_line_count: usize,
    last_status: String,
    last_confirmation: Option<String>,
    show_line_numbers: bool,
    stale: bool,
}

/// The chars of an optional string.
pub open spec fn opt_text(o: Option<String>) -> Option<Seq<char>> {
    match o {
        Some(s) => Some(s@),
        None => None,
    }
}

impl Renderer {
    /// The first buffer line (one-based) on the screen.
    pub closed spec fn top(&self) -> usize {
        self.scroll_top
    }

    /// The change count of the buffer last drawn.
    pub closed spec fn drawn_count(&self) -> usize {
        self.last_modification_count
    }

    /// The number of lines of the buffer last drawn.
    pub closed spec fn drawn_lines(&self) -> usize {
        self.last_line_count
    }

    /// The status line last drawn.
    pub closed spec fn drawn_status(&self) -> Seq<char> {
        self.last_status@
    }

    /// The confirmation last drawn.
    pub closed spec fn drawn_confirmation(&self) -> Option<Seq<char>> {
        opt_text(self.last_confirmation)
    }

    /// Whether the next frame must draw the whole screen.
    pub closed spec fn stale(&self) -> bool {
        self.stale
    }

    /// Whether line numbers were last drawn.
    pub closed spec fn line_numbers(&self) -> bool {
        self.show_line_numbers
    }

    /// Nothing drawn yet: the first line at the top, line numbers on.
    pub fn new() -> (r: Self)
        ensures
            r.top() == 1,
            r.drawn_count() == 0,
            r.drawn_lines() == 0,
            r.drawn_status() == Seq::<char>::empty(),
            r.drawn_confirmation() is None,
            r.line_numbers(),
            !r.stale(),
    {
        Renderer {
            scroll_top: 1,
            last_modification_count: 0,
            last_line_count: 0,
            last_status: String::new(),
            last_confirmation: None,
            show_line_numbers: true,
            stale: false,
        }
    }

    /// Changes what the screen shows: `Clear` has the next frame draw the
    /// whole screen, the others move the first line shown (`view_top`).
    pub fn apply_view(&mut self, change: ViewChange, rows: u16, cursor_line: usize)
        ensures
            final(self).top() == view_top(old(self).top() as int, change, rows, cursor_line as int),
            final(self).stale() == (old(self).stale() || change == ViewChange::Clear),
            final(self).drawn_count() == old(self).drawn_count(),
            final(self).drawn_lines() == old(self).drawn_lines(),
            final(self).drawn_status() == old(self).drawn_status(),
            final(self).drawn_confirmation() == old(self).drawn_confirmation(),
            final(self).line_numbers() == old(self).line_numbers(),
    {
        match change {
            ViewChange::Clear => self.stale = true,
            ViewChange::CenterCursor => {
                let half = visible_count(rows) / 2;
                self.scroll_top = if cursor_line > half && cursor_line - half > 1 {
                    cursor_line - half
                } else {
                    1
                };
            },
            ViewChange::UpOne => {
                if self.scroll_top > 1 {
                    self.scroll_top = self.scroll_top - 1;
                } else {
                    self.scroll_top = 1;
                }
            },
        }
    }

    /// Sets whether line numbers are taken as drawn.
    pub fn set_show_line_numbers(&mut self, show: bool)
        ensures
            final(self).line_numbers() == show,
            final(self).top() == old(self).top(),
            final(self).drawn_count() == old(self).drawn_count(),
            final(self).drawn_lines() == old(self).drawn_lines(),
            final(self).drawn_status() == old(self).drawn_status(),
            final(self).drawn_confirmation() == old(self).drawn_confirmation(),
            final(self).stale() == old(self).stale(),
    {
        self.show_line_numbers = show;
    }

    /// Flips whether line numbers are taken as drawn.
    pub fn toggle_line_numbers(&mut self)
        ensures
            final(self).line_numbers() == !old(self).line_numbers(),
            final(self).top() == old(self).top(),
            final(self).drawn_count() == old(self).drawn_count(),
            final(self).drawn_lines() == old(self).drawn_lines(),
            final(self).drawn_status() == old(self).drawn_status(),
            final(self).drawn_confirmation() == old(self).drawn_confirmation(),
            final(self).stale() == old(self).stale(),
    {
        self.show_line_numbers = !self.show_line_numbers;
    }
}

fn digit_char(d: usize) -> (c: char)
    requires
        d < 10,
    ensures
        c == digit(d as int),
{
    match d {
        0 => '0',
        1 => '1',
        2 => '2',
        3 => '3',
        4 => '4',
        5 => '5',
        6 => '6',
        7 => '7',
        8 => '8',
        _ => '9',
    }
}

/// `n` in decimal.
fn decimal_chars(n: usize) -> (r: Vec<char>)
    ensures
        r@ == decimal(n as nat),
{
    let mut m = n;
    let mut tail: Vec<char> = Vec::new();
    while m >= 10
        invariant
            decimal(n as nat) == decimal(m as nat) + tail@,
        decreases m,
    {
        let d = m % 10;
        let ghost old_tail = tail@;
        tail.insert(0, digit_char(d));
        proof {
            assert(decimal(m as nat) == decimal((m / 10) as nat).push(digit(d as int)));
            assert(decimal((m / 10) as nat) + tail@ =~= decimal(m as nat) + old_tail);
        }
        m = m / 10;
    }
    let ghost old_tail = tail@;
    tail.insert(0, digit_char(m));
    assert(tail@ =~= decimal(m as nat) + old_tail);
    tail
}

fn push_spaces(v: &mut Vec<char>, n: usize)
    ensures
        final(v)@ == old(v)@ + spaces(n as int),
{
    let mut k: usize = 0;
    while k < n
        invariant
            k <= n,
            v@ == old(v)@ + spaces(k as int),
        decreases n - k,
    {
        v.push(' ');
        k = k + 1;
        assert(v@ =~= old(v)@ + spaces(k as int));
    }
}

fn push_str(v: &mut Vec<char>, s: &str)
    ensures
        final(v)@ == old(v)@ + s@,
{
    push_all(v, &str_chars(s));
}

fn same_text(a: &Option<String>, b: &Option<String>) -> (r: bool)
    ensures
        r == (opt_text(*a) == opt_text(*b)),
{
    match (a, b) {
        (Some(x), Some(y)) => same_chars(&str_chars(x.as_str()), &str_chars(y.as_str())),
        (None, None) => true,
        _ => false,
    }
}

fn status_line(state: &EditorState, show: bool, confirmation: &Option<String>) -> (r: Vec<char>)
    ensures
        r@ == status_text(*state, show, opt_text(*confirmation)),
{
    match confirmation {
        Some(m) => str_chars(m.as_str()),
        None => {
            let mut out: Vec<char> = Vec::new();
            if state.mode == Mode::Command {
                push_str(&mut out, ":");
                push_str(&mut out, state.command_buffer.as_str());
            } else {
                push_str(&mut out, "-- ");
                push_str(&mut out, state.mode.label());
                push_str(&mut out, " -- ");
                match &state.file_path {
                    Some(p) => push_str(&mut out, p.as_str()),
                    None => push_str(&mut out, "[No Name]"),
                }
                push_str(&mut out, " ");
                let ghost before = out@;
                if state.dirty {
                    push_str(&mut out, "[+]");
                } else {
                    assert(out@ =~= before + Seq::<char>::empty());
                }
                let ghost before2 = out@;
                if show {
                    push_str(&mut out, " ");
                } else {
                    assert(out@ =~= before2 + Seq::<char>::empty());
                }
            }
            out
        },
    }
}

fn row_line(buffer: &TextBuffer, n: usize, show: bool, width: usize) -> (r: String)
    requires
        width == number_width(buffer@, show),
    ensures
        r@ == row_text(buffer@, n as int, show, width as int),
{
    let count = buffer.line_count();
    let raw = buffer.get_line(n);
    if raw.as_str().is_empty() && n > count && count > 0 {
        if show {
            let mut out: Vec<char> = Vec::new();
            push_str(&mut out, "~");
            proof {
                reveal_strlit("~");
            }
            if width > 1 {
                push_spaces(&mut out, width - 1);
            } else {
                assert(out@ =~= pad_right("~"@, width as int));
            }
            chars_to_string(out.as_slice())
        } else {
            "~".to_string()
        }
    } else if show {
        let num = if n <= count {
            n
        } else {
            0
        };
        let digits = decimal_chars(num);
        let mut out: Vec<char> = Vec::new();
        push_str(&mut out, "\x1b[38;5;240m");
        let ghost head = out@;
        if digits.len() < width {
            push_spaces(&mut out, width - digits.len());
        } else {
            assert(out@ =~= head + spaces(width - digits@.len()));
        }
        push_all(&mut out, &digits);
        push_str(&mut out, "  ");
        push_str(&mut out, "\x1b[0m");
        push_str(&mut out, raw.as_str());
        assert(out@ =~= "\x1b[38;5;240m"@ + pad_left(decimal(num as nat), width as int) + "  "@
            + "\x1b[0m"@ + raw@);
        chars_to_string(out.as_slice())
    } else {
        raw
    }
}

/// The number of text rows of a screen of `rows` rows (`visible_rows`).
pub fn visible_count(rows: u16) -> (n: usize)
    ensures
        n as int == visible_rows(rows),
{
    let r: u16 = if rows < 2 {
        2
    } else {
        rows
    };
    if r - 2 < 1 {
        1
    } else {
        (r - 2) as usize
    }
}

/// The first line shown after `change`, for a screen of `rows` rows and
/// the cursor on line `cursor_line`.
pub open spec fn view_top(top: int, change: ViewChange, rows: u16, cursor_line: int) -> int {
    match change {
        ViewChange::Clear => top,
        ViewChange::CenterCursor => if cursor_line - visible_rows(rows) / 2 > 1 {
            cursor_line - visible_rows(rows) / 2
        } else {
            1
        },
        ViewChange::UpOne => if top > 1 {
            top - 1
        } else {
            1
        },
    }
}

/// What `frame` does: `r0` is the renderer before, `r1` after, `f` the
/// frame it gives.
pub open spec fn frame_step(
    r0: Renderer,
    rows: u16,
    buffer: TextBuffer,
    state: EditorState,
    show: bool,
    confirmation: Option<String>,
    r1: Renderer,
    f: Frame,
) -> bool {
    let s = buffer@;
    let visible = visible_rows(rows);
    let width = number_width(s, show);
    let status = status_text(state, show, opt_text(confirmation));
    let full = buffer.mod_count() != r0.drawn_count() || r0.drawn_lines()
        != num_lines(s) || status != r0.drawn_status() || opt_text(confirmation)
        != r0.drawn_confirmation() || r0.line_numbers() != show || r0.stale();
    let base = if full {
        clamped_top(r0.top() as int, num_lines(s) as int, visible)
    } else {
        r0.top() as int
    };
    let top = scroll_to_cursor(base, state.cursor.line as int, visible);
    &&& f.full == full
    &&& f.status@ == status
    &&& r1.top() == top
    &&& r1.drawn_count() == buffer.mod_count()
    &&& r1.drawn_lines() == num_lines(s)
    &&& !r1.stale()
    &&& full ==> {
        &&& r1.drawn_status() == status
        &&& r1.drawn_confirmation() == opt_text(confirmation)
        &&& r1.line_numbers() == show
        &&& f.lines@.len() == visible
        &&& forall|i: int|
            0 <= i < visible ==> #[trigger] f.lines@[i]@ == row_text(s, top + i, show, width)
    }
    &&& !full ==> {
        &&& r1.drawn_status() == r0.drawn_status()
        &&& r1.drawn_confirmation() == r0.drawn_confirmation()
        &&& r1.line_numbers() == r0.line_numbers()
        &&& f.lines@.len() == 0
    }
    &&& f.cursor_row == ((state.cursor.line - top) + 1) as u16
    &&& f.cursor_col == (if show {
        state.cursor.col + width + 2
    } else {
        state.cursor.col + 1
    }) as u16
}

impl Renderer {
    /// The next frame for a terminal of `rows` rows, the buffer, the
    /// editor's state, whether line numbers are wanted, and the
    /// confirmation asked of the user, if any.  The whole screen is drawn
    /// again when the buffer, its line count, the status line, the
    /// confirmation or the line numbers changed since the last full
    /// drawing; the first line shown is then kept within the text, and
    /// either way it moves so that the cursor line is in view.
    pub fn frame(
        &mut self,
        rows: u16,
        buffer: &TextBuffer,
        state: &EditorState,
        show: bool,
        confirmation: Option<String>,
    ) -> (f: Frame)
        requires
            state.cursor.line + visible_rows(rows) <= usize::MAX + 1,
            state.cursor.col + number_width(buffer@, show) + 2 <= usize::MAX,
        ensures
            frame_step(*old(self), rows, *buffer, *state, show, confirmation, *final(self), f),
    {
        let r: u16 = if rows < 2 {
            2
        } else {
            rows
        };
        let visible: usize = if (r as usize) - 2 < 1 {
            1
        } else {
            (r as usize) - 2
        };
        let count = buffer.line_count();
        let width: usize = if show {
            if count == 0 {
                1
            } else {
                decimal_chars(count).len()
            }
        } else {
            0
        };
        let status = status_line(state, show, &confirmation);
        let full = buffer.modification_count() != self.last_modification_count
            || self.last_line_count != count || !same_chars(
            &status,
            &str_chars(self.last_status.as_str()),
        ) || !same_text(&confirmation, &self.last_confirmation) || self.show_line_numbers != show
            || self.stale;
        if full {
            let hi: usize = if count > visible && count - visible > 1 {
                count - visible
            } else {
                1
            };
            if self.scroll_top < 1 {
                self.scroll_top = 1;
            } else if self.scroll_top > hi {
                self.scroll_top = hi;
            }
            self.show_line_numbers = show;
        }
        let line = state.cursor.line;
        if line < self.scroll_top {
            self.scroll_top = line;
        } else if line - self.scroll_top >= visible {
            self.scroll_top = line - visible + 1;
        }
        self.last_modification_count = buffer.modification_count();
        self.last_line_count = count;
        self.stale = false;
        let top = self.scroll_top;
        let mut lines: Vec<String> = Vec::new();
        let status_text = chars_to_string(status.as_slice());
        if full {
            let mut i: usize = 0;
            while i < visible
                invariant
                    i <= visible,
                    top <= line,
                    line + visible <= usize::MAX + 1,
                    width == number_width(buffer@, show),
                    lines@.len() == i,
                    forall|j: int|
                        0 <= j < i ==> #[trigger] lines@[j]@ == row_text(buffer@, top + j, show, width as int),
                decreases visible - i,
            {
                lines.push(row_line(buffer, top + i, show, width));
                i = i + 1;
            }
            self.last_status = chars_to_string(status.as_slice());
            self.last_confirmation = confirmation;
        }
        let cursor_row = ((line - top) + 1) as u16;
        let cursor_col = if show {
            (state.cursor.col + width + 2) as u16
        } else {
            (state.cursor.col + 1) as u16
        };
        Frame { full, lines, status: status_text, cursor_row, cursor_col }
    }
}

impl Default for Renderer {
    fn default() -> (r: Self)
        ensures
            r.top() == 1,
            r.drawn_count() == 0,
            r.drawn_lines() == 0,
            r.drawn_status() == Seq::<char>::empty(),
            r.drawn_confirmation() is None,
            r.line_numbers(),
    {
        Renderer::new()
    }
}

} // verus!
