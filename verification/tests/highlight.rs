use nestvim::highlight::{lines_with_endings_of, Highlighter};

#[test]
fn lines_keep_their_breaks() {
    assert_eq!(lines_with_endings_of("foo\nbar\nbaz"), vec!["foo\n", "bar\n", "baz"]);
    assert_eq!(lines_with_endings_of("a\n"), vec!["a\n"]);
    assert_eq!(lines_with_endings_of("\n\n"), vec!["\n", "\n"]);
    assert!(lines_with_endings_of("").is_empty());
}

#[test]
fn highlighting_gives_one_entry_per_line() {
    let h = Highlighter::new();
    let plain = h.update("fn main() {}\nlet x = 1;\n", None);
    assert_eq!(plain.len(), 2);
    let joined: String = plain[0].iter().map(|(_, s)| s.as_str()).collect();
    assert_eq!(joined, "fn main() {}\n");
    let rust = h.syntaxes().find_syntax_by_extension("rs");
    let styled = h.update("fn main() {}", rust);
    assert_eq!(styled.len(), 1);
    assert!(h.update("", None).is_empty());
}
