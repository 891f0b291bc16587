use vstd::prelude::*;
use syntect::easy::HighlightLines;
use syntect::highlighting::{Style, Theme, ThemeSet};
use syntect::parsing::{SyntaxReference, SyntaxSet};
use crate::text::{chars_to_string, str_chars};

verus! {

/// syntect's set of syntax definitions.
#[verifier::external_type_specification]
#[verifier::external_body]
pub struct ExSyntaxSet(SyntaxSet);

/// One syntax definition of syntect.
#[verifier::external_type_specification]
#[verifier::external_body]
pub struct ExSyntaxReference(SyntaxReference);

/// syntect's set of color themes.
#[verifier::external_type_specification]
#[verifier::external_body]
pub struct ExThemeSet(ThemeSet);

/// One color theme of syntect.
#[verifier::external_type_specification]
#[verifier::external_body]
pub struct ExTheme(Theme);

/// The style syntect gives a piece of text.
#[verifier::external_type_specification]
#[verifier::external_body]
pub struct ExStyle(Style);

/// syntect's line-by-line highlighter.
#[verifier::external_type_specification]
#[verifier::external_body]
pub struct ExHighlightLines<'a>(HighlightLines<'a>);

/// The names of the syntaxes of a syntax set.
pub uninterp spec fn syntax_names(s: SyntaxSet) -> Set<Seq<char>>;

/// `SyntaxSet::load_defaults_newlines`: the syntaxes built into syntect,
/// for lines that keep their line break; "Plain Text" among them, which
/// syntect says every syntax set ought to have.
#[verifier::external_body]
fn default_syntaxes() -> (s: SyntaxSet)
    ensures
        syntax_names(s).contains("Plain Text"@),
{
    SyntaxSet::load_defaults_newlines()
}

/// The names of the themes of a theme set (the keys of `ThemeSet::themes`).
pub uninterp spec fn theme_names(t: ThemeSet) -> Set<Seq<char>>;

/// `ThemeSet::load_defaults`: the themes built into syntect, which hold
/// `base16-ocean.dark`, as its documentation lists.
#[verifier::external_body]
fn default_themes() -> (t: ThemeSet)
    ensures
        theme_names(t).contains("base16-ocean.dark"@),
{
    ThemeSet::load_defaults()
}

/// The theme called `name` in a theme set (a lookup in `ThemeSet::themes`):
/// there is one exactly when the set has that name.
#[verifier::external_body]
fn theme_named<'a>(themes: &'a ThemeSet, name: &str) -> (t: Option<&'a Theme>)
    ensures
        t is Some <==> theme_names(*themes).contains(name@),
{
    themes.themes.get(name)
}

/// `SyntaxSet::find_syntax_plain_text`: the syntax named "Plain Text".  It
/// panics for a set without one, which `requires` leaves out.
#[verifier::external_body]
fn plain_text(syntaxes: &SyntaxSet) -> (s: &SyntaxReference)
    requires
        syntax_names(*syntaxes).contains("Plain Text"@),
{
    syntaxes.find_syntax_plain_text()
}

/// `HighlightLines::new`: a highlighter for `syntax` in `theme`.
#[verifier::external_body]
fn line_highlighter<'a>(syntax: &SyntaxReference, theme: &'a Theme) -> (h: HighlightLines<'a>) {
    HighlightLines::new(syntax, theme)
}

/// The text of styled pieces, one after the other.
pub open spec fn pieces_text(p: Seq<(Style, String)>) -> Seq<char>
    decreases p.len(),
{
    if p.len() == 0 {
        Seq::empty()
    } else {
        pieces_text(p.drop_last()) + p.last().1@
    }
}

/// `HighlightLines::highlight_line` on the next line of the text, its
/// pieces copied out; no pieces when syntect reports an error.  The pieces
/// are consecutive slices of the line from its start, so their text is a
/// beginning of the line (all of it unless syntect stops early on a scope
/// error).  Which styles they get is syntect's to decide and is not stated.
#[verifier::external_body]
fn highlight_line(h: &mut HighlightLines, line: &str, syntaxes: &SyntaxSet) -> (r: Vec<(Style, String)>)
    ensures
        pieces_text(r@).is_prefix_of(line@),
{
    h.highlight_line(line, syntaxes).unwrap_or_default().into_iter().map(|(st, s)| (st, s.to_string())).collect()
}

/// The lines of `s`, each with its '\n' kept; the last one may lack it
/// (as syntect's `LinesWithEndings` gives them).
pub open spec fn lines_with_endings(s: Seq<char>) -> Seq<Seq<char>> {
    if s.len() == 0 {
        Seq::empty()
    } else {
        let (done, cur) = split_after_breaks(s, s.len() as int);
        if cur.len() > 0 {
            done.push(cur)
        } else {
            done
        }
    }
}

/// Reading the first `n` chars of `s`: the lines ended so far, each with
/// its '\n', and the line begun.
pub open spec fn split_after_breaks(s: Seq<char>, n: int) -> (Seq<Seq<char>>, Seq<char>)
    decreases n,
{
    if n <= 0 {
        (Seq::empty(), Seq::empty())
    } else {
        let (done, cur) = split_after_breaks(s, n - 1);
        if s[n - 1] == '\n' {
            (done.push(cur.push('\n')), Seq::empty())
        } else {
            (done, cur.push(s[n - 1]))
        }
    }
}

/// The lines of `text` with their line breaks.
pub fn lines_with_endings_of(text: &str) -> (r: Vec<String>)
    ensures
        r@.len() == lines_with_endings(text@).len(),
        forall|i: int| 0 <= i < r@.len() ==> #[trigger] r@[i]@ == lines_with_endings(text@)[i],
{
    let s = str_chars(text);
    let mut done: Vec<String> = Vec::new();
    let mut cur: Vec<char> = Vec::new();
    let mut i: usize = 0;
    while i < s.len()
        invariant
            i <= s.len(),
            s@ == text@,
            done@.len() == split_after_breaks(s@, i as int).0.len(),
            forall|j: int| 0 <= j < done@.len() ==> #[trigger] done@[j]@ == split_after_breaks(s@, i as int).0[j],
            cur@ == split_after_breaks(s@, i as int).1,
        decreases s.len() - i,
    {
        cur.push(s[i]);
        if s[i] == '\n' {
            done.push(chars_to_string(cur.as_slice()));
            cur = Vec::new();
        }
        i = i + 1;
    }
    if cur.len() > 0 {
        done.push(chars_to_string(cur.as_slice()));
    }
    done
}

/// Syntax highlighting for the buffer.
pub struct Highlighter {
    syntax_set: SyntaxSet,
    theme_set: ThemeSet,
}

impl Highlighter {
    #[verifier::type_invariant]
    spec fn has_defaults(&self) -> bool {
        &&& theme_names(self.theme_set).contains("base16-ocean.dark"@)
        &&& syntax_names(self.syntax_set).contains("Plain Text"@)
    }

    /// The syntaxes it knows.
    pub closed spec fn syntax_set(&self) -> SyntaxSet {
        self.syntax_set
    }

    /// The themes it knows.
    pub closed spec fn theme_set(&self) -> ThemeSet {
        self.theme_set
    }

    /// A highlighter with syntect's built-in syntaxes and themes: among
    /// them the "Plain Text" syntax and the `base16-ocean.dark` theme.
    pub fn new() -> (h: Self)
        ensures
            syntax_names(h.syntax_set()).contains("Plain Text"@),
            theme_names(h.theme_set()).contains("base16-ocean.dark"@),
    {
        Highlighter { syntax_set: default_syntaxes(), theme_set: default_themes() }
    }

    /// The syntaxes known, to find the one for a file.
    pub fn syntaxes(&self) -> (s: &SyntaxSet)
        ensures
            *s == self.syntax_set(),
            syntax_names(*s).contains("Plain Text"@),
    {
        proof {
            use_type_invariant(self);
        }
        &self.syntax_set
    }

    /// Highlights `text` line by line in the `base16-ocean.dark` theme,
    /// with the syntax found for its file, or as plain text: one list of
    /// styled pieces per line, whose text begins that line.
    pub fn update(&self, text: &str, syntax: Option<&SyntaxReference>) -> (r: Vec<Vec<(Style, String)>>)
        ensures
            r@.len() == lines_with_endings(text@).len(),
            forall|i: int|
                0 <= i < r@.len() ==> pieces_text(#[trigger] r@[i]@).is_prefix_of(lines_with_endings(text@)[i]),
    {
        proof {
            use_type_invariant(self);
        }
        let theme = match theme_named(&self.theme_set, "base16-ocean.dark") {
            Some(t) => t,
            None => return Vec::new(),
        };
        let syntax = match syntax {
            Some(s) => s,
            None => plain_text(&self.syntax_set),
        };
        let mut highlighter = line_highlighter(syntax, theme);
        let lines = lines_with_endings_of(text);
        let mut result: Vec<Vec<(Style, String)>> = Vec::new();
        let mut i: usize = 0;
        while i < lines.len()
            invariant
                i <= lines@.len(),
                result@.len() == i,
                lines@.len() == lines_with_endings(text@).len(),
                forall|j: int| 0 <= j < lines@.len() ==> #[trigger] lines@[j]@ == lines_with_endings(text@)[j],
                forall|j: int|
                    0 <= j < i ==> pieces_text(#[trigger] result@[j]@).is_prefix_of(lines_with_endings(text@)[j]),
            decreases lines@.len() - i,
        {
            result.push(highlight_line(&mut highlighter, lines[i].as_str(), &self.syntax_set));
            i = i + 1;
        }
        result
    }
}

impl Default for Highlighter {
    fn default() -> (h: Self)
        ensures
            syntax_names(h.syntax_set()).contains("Plain Text"@),
            theme_names(h.theme_set()).contains("base16-ocean.dark"@),
    {
        Highlighter::new()
    }
}

} // verus!
