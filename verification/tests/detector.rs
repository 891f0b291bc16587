use nestvim::detector::{detect_language, language_for_extension};

#[test]
fn languages_by_extension() {
    assert_eq!(detect_language(Some("src/main.rs")), "Rust");
    assert_eq!(detect_language(Some("a.tsx")), "TypeScript");
    assert_eq!(detect_language(Some("x.jsx")), "JavaScript");
    assert_eq!(detect_language(Some("lib.hpp")), "C++");
    assert_eq!(detect_language(Some("run.bash")), "Shell");
    assert_eq!(detect_language(Some("Cargo.toml")), "TOML");
}

#[test]
fn unknown_or_missing_extension_is_plain_text() {
    assert_eq!(detect_language(None), "Plain Text");
    assert_eq!(detect_language(Some("Makefile")), "Plain Text");
    assert_eq!(detect_language(Some(".bashrc")), "Plain Text");
    assert_eq!(detect_language(Some("notes.txt")), "Plain Text");
    assert_eq!(language_for_extension("py"), "Python");
    assert_eq!(language_for_extension(""), "Plain Text");
}
