use vstd::prelude::*;
use crate::text::{same_chars, str_chars};

verus! {

/// The extension of the last component of a path, as `Path::extension`
/// finds it.
pub uninterp spec fn path_extension(path: Seq<char>) -> Option<Seq<char>>;

/// `Path::extension` on the path `path`, as a string.  What it gives is a
/// function of the path alone; its rules (the last component, a leading dot,
/// `..`) are std's and are only named here.
#[verifier::external_body]
fn extension_of(path: &str) -> (r: Option<String>)
    ensures
        match r {
            Some(e) => path_extension(path@) == Some(e@),
            None => path_extension(path@) is None,
        },
{
    std::path::Path::new(path).extension().and_then(|e| e.to_str()).map(|e| e.to_string())
}

/// The language that a file extension stands for.
pub open spec fn language_of(ext: Seq<char>) -> Seq<char> {
    if ext == "rs"@ {
        "Rust"@
    } else if ext == "ts"@ || ext == "tsx"@ {
        "TypeScript"@
    } else if ext == "js"@ || ext == "jsx"@ {
        "JavaScript"@
    } else if ext == "py"@ {
        "Python"@
    } else if ext == "rb"@ {
        "Ruby"@
    } else if ext == "go"@ {
        "Go"@
    } else if ext == "java"@ {
        "Java"@
    } else if ext == "c"@ || ext == "h"@ {
        "C"@
    } else if ext == "cpp"@ || ext == "cc"@ || ext == "hpp"@ {
        "C++"@
    } else if ext == "sh"@ || ext == "bash"@ {
        "Shell"@
    } else if ext == "md"@ {
        "Markdown"@
    } else if ext == "json"@ {
        "JSON"@
    } else if ext == "toml"@ {
        "TOML"@
    } else {
        "Plain Text"@
    }
}

fn is(ext: &Vec<char>, lit: &str) -> (b: bool)
    ensures
        b == (ext@ == lit@),
{
    same_chars(ext, &str_chars(lit))
}

/// The language that the file extension `ext` stands for; "Plain Text" for
/// an extension not known.
pub fn language_for_extension(ext: &str) -> (r: &'static str)
    ensures
        r@ == language_of(ext@),
{
    let e = str_chars(ext);
    if is(&e, "rs") {
        "Rust"
    } else if is(&e, "ts") || is(&e, "tsx") {
        "TypeScript"
    } else if is(&e, "js") || is(&e, "jsx") {
        "JavaScript"
    } else if is(&e, "py") {
        "Python"
    } else if is(&e, "rb") {
        "Ruby"
    } else if is(&e, "go") {
        "Go"
    } else if is(&e, "java") {
        "Java"
    } else if is(&e, "c") || is(&e, "h") {
        "C"
    } else if is(&e, "cpp") || is(&e, "cc") || is(&e, "hpp") {
        "C++"
    } else if is(&e, "sh") || is(&e, "bash") {
        "Shell"
    } else if is(&e, "md") {
        "Markdown"
    } else if is(&e, "json") {
        "JSON"
    } else if is(&e, "toml") {
        "TOML"
    } else {
        "Plain Text"
    }
}

/// The language of a file, by the extension of its path; "Plain Text" with
/// no path, no extension, or an extension not known.
pub fn detect_language(file_path: Option<&str>) -> (r: &'static str)
    ensures
        r@ == match file_path {
            None => "Plain Text"@,
            Some(p) => match path_extension(p@) {
                Some(e) => language_of(e),
                None => language_of(Seq::empty()),
            },
        },
{
    match file_path {
        None => "Plain Text",
        Some(path) => match extension_of(path) {
            Some(e) => {
                let r = language_for_extension(e.as_str());
                assert(r@ == language_of(e@));
                r
            },
            None => {
                proof {
                    reveal_strlit("");
                }
                let r = language_for_extension("");
                assert(""@ =~= Seq::<char>::empty());
                r
            },
        },
    }
}

} // verus!
