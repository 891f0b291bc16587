use nestvim::buffer::TextBuffer;
use nestvim::renderer::{visible_count, Renderer};
use nestvim::types::{EditorState, Mode, Position, ViewChange};

#[test]
fn first_frame_draws_everything() {
    let mut r = Renderer::new();
    let buf = TextBuffer::with_text("a\nb\n");
    let state = EditorState::default();
    let f = r.frame(10, &buf, &state, true, None);
    assert!(f.full);
    assert_eq!(f.status, "-- NORMAL -- [No Name]  ");
    assert_eq!(f.lines.len(), 8);
    assert_eq!(f.lines[0], "\x1b[38;5;240m1  \x1b[0ma\n");
    assert_eq!(f.lines[1], "\x1b[38;5;240m2  \x1b[0mb\n");
    assert_eq!(f.lines[2], "\x1b[38;5;240m3  \x1b[0m");
    assert_eq!(f.lines[3], "~");
    assert_eq!((f.cursor_row, f.cursor_col), (1, 3));
}

#[test]
fn unchanged_frame_only_moves_cursor() {
    let mut r = Renderer::default();
    let buf = TextBuffer::with_text("a\nb\n");
    let state = EditorState::default();
    r.frame(10, &buf, &state, true, None);
    let again = r.frame(10, &buf, &state, true, None);
    assert!(!again.full);
    assert!(again.lines.is_empty());
    let other = r.frame(10, &buf, &state, false, None);
    assert!(other.full);
    assert_eq!(other.lines[0], "a\n");
    assert_eq!(other.lines[3], "~");
    assert_eq!(other.status, "-- NORMAL -- [No Name] ");
    assert_eq!(other.cursor_col, 1);
}

#[test]
fn status_shows_command_file_and_changes() {
    let mut r = Renderer::new();
    let buf = TextBuffer::with_text("x");
    let mut state = EditorState::default();
    state.mode = Mode::Command;
    state.command_buffer = "wq".to_string();
    assert_eq!(r.frame(5, &buf, &state, true, None).status, ":wq");
    state.mode = Mode::Insert;
    state.file_path = Some("f.rs".to_string());
    state.dirty = true;
    assert_eq!(r.frame(5, &buf, &state, false, None).status, "-- INSERT -- f.rs [+]");
    let asked = r.frame(5, &buf, &state, false, Some("Quit? (y/n)".to_string()));
    assert!(asked.full);
    assert_eq!(asked.status, "Quit? (y/n)");
}

#[test]
fn scrolling_follows_cursor() {
    let mut r = Renderer::new();
    let text: String = (1..=20).map(|i| format!("{}\n", i)).collect();
    let buf = TextBuffer::with_text(&text);
    let mut state = EditorState::default();
    state.cursor = Position { line: 15, col: 0 };
    let f = r.frame(7, &buf, &state, true, None);
    assert_eq!(f.lines.len(), 5);
    assert_eq!(f.lines[0], "\x1b[38;5;240m11  \x1b[0m11\n");
    assert_eq!(f.cursor_row, 5);
    assert_eq!(f.cursor_col, 4);
    state.cursor = Position { line: 2, col: 1 };
    let g = r.frame(7, &buf, &state, true, None);
    assert!(!g.full);
    assert_eq!(g.cursor_row, 1);
}

#[test]
fn tiny_terminal_shows_one_row() {
    let mut r = Renderer::new();
    let buf = TextBuffer::with_text("a\nb");
    let f = r.frame(0, &buf, &EditorState::default(), false, None);
    assert_eq!(f.lines, vec!["a\n".to_string()]);
}

#[test]
fn line_number_setting() {
    let mut r = Renderer::new();
    r.set_show_line_numbers(false);
    r.toggle_line_numbers();
    let buf = TextBuffer::with_text("a");
    let f = r.frame(4, &buf, &EditorState::default(), true, None);
    assert!(f.full);
}

#[test]
fn view_changes() {
    let mut r = Renderer::new();
    let mut text = String::new();
    for i in 0..40 {
        text.push_str(&format!("{}\n", i));
    }
    let buf = TextBuffer::with_text(&text);
    let mut state = EditorState::default();
    state.cursor = Position { line: 30, col: 0 };
    let f = r.frame(10, &buf, &state, true, None);
    assert_eq!(f.cursor_row, 8);
    r.apply_view(ViewChange::CenterCursor, 10, 30);
    let f = r.frame(10, &buf, &state, true, None);
    assert!(!f.full);
    assert_eq!(f.cursor_row, 5);
    r.apply_view(ViewChange::UpOne, 10, 30);
    let f = r.frame(10, &buf, &state, true, None);
    assert_eq!(f.cursor_row, 6);
    r.apply_view(ViewChange::Clear, 10, 30);
    let f = r.frame(10, &buf, &state, true, None);
    assert!(f.full);
    assert_eq!(f.lines.len(), 8);
    assert_eq!(visible_count(10), 8);
    assert_eq!(visible_count(1), 1);
}
