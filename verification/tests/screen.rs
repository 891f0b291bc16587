use nestvim::screen::{fit_line, strip_ansi, LineCache, Terminal};

#[test]
fn strip_ansi_removes_escape_sequences() {
    assert_eq!(strip_ansi("\x1b[31mred\x1b[0m"), "red");
    assert_eq!(strip_ansi("\x1b[38;5;240m12  \x1b[0mtext"), "12  text");
    assert_eq!(strip_ansi("plain"), "plain");
    assert_eq!(strip_ansi(""), "");
}

#[test]
fn strip_ansi_edge_cases() {
    assert_eq!(strip_ansi("a\x1bXb"), "ab");
    assert_eq!(strip_ansi("abc\x1b"), "abc");
    assert_eq!(strip_ansi("x\x1b[12"), "x");
}

#[test]
fn fit_line_pads_and_cuts() {
    assert_eq!(fit_line("abc", 5), "abc  ");
    assert_eq!(fit_line("abcdef", 3), "abc");
    assert_eq!(fit_line("abc", 3), "abc");
    assert_eq!(fit_line("", 0), "");
}

#[test]
fn stripped_text_has_no_escape() {
    for s in ["\x1b[1;31mbold\x1b[0m", "\x1b\x1b[m\x1b", "a\x1b[b\x1bc"] {
        assert!(!strip_ansi(s).contains('\x1b'));
    }
    assert_eq!(strip_ansi("a\x1b[b\x1bc"), "a");
}

#[test]
fn fitted_line_is_as_wide_as_the_screen() {
    for cols in [0usize, 1, 4, 9] {
        assert_eq!(fit_line("wide text", cols).chars().count(), cols);
    }
}

#[test]
fn line_cache_gives_stripped_lines() {
    let mut c = LineCache::new();
    assert_eq!(c.stripped_line("\x1b[1mhi\x1b[0m"), "hi");
    assert_eq!(c.stripped_line("\x1b[1mhi\x1b[0m"), "hi");
    for i in 0..600 {
        let line = format!("\x1b[3{}m{}", i % 8, i);
        assert_eq!(c.stripped_line(&line), i.to_string());
    }
    c.clear();
    assert_eq!(c.stripped_line("plain"), "plain");
}

#[test]
fn terminal_size_and_lines() {
    let mut t = Terminal::new(None);
    assert_eq!(t.rows(), 24);
    assert_eq!(t.status_row(), 23);
    assert_eq!(t.line_text("\x1b[31mab\x1b[0m").chars().count(), 80);
    t.update_size(Some((4, 3)));
    assert_eq!(t.rows(), 3);
    assert_eq!(t.line_text("\x1b[31mabcdef"), "abcd");
    t.update_size(None);
    assert_eq!(t.rows(), 3);
    t.clear_cache();
    let tiny = Terminal::new(Some((2, 0)));
    assert_eq!(tiny.status_row(), 0);
}
