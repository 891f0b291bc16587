use vstd::prelude::*;
use crate::text::{chars_to_string, has_char, lines_of, split_lines, str_chars, trim_chars, trimmed};

verus! {

/// What a Nix plugin file declares: its name, and the version,
/// description and repository it may give.
#[derive(Debug, Clone)]
pub struct NixConfig {
    pub name: String,
    pub version: Option<String>,
    pub description: Option<String>,
    pub repo_url: Option<String>,
}

/// The chars of an optional string.
pub open spec fn opt_chars(o: Option<String>) -> Option<Seq<char>> {
    match o {
        Some(s) => Some(s@),
        None => None,
    }
}

/// `s` begins with `p`.
pub open spec fn starts_with(s: Seq<char>, p: Seq<char>) -> bool {
    p.len() <= s.len() && s.subrange(0, p.len() as int) == p
}

/// The index of the first `c` in `s` at or after `i`, or `s.len()` when
/// there is none.
pub open spec fn find_from(s: Seq<char>, c: char, i: int) -> int
    decreases s.len() - i,
{
    if i < 0 || i >= s.len() {
        s.len() as int
    } else if s[i] == c {
        i
    } else {
        find_from(s, c, i + 1)
    }
}

/// The second of the '='-separated fields of `l`, as `split('=').nth(1)`
/// gives it: the chars after the first '=' up to the next one.
pub open spec fn second_field(l: Seq<char>) -> Seq<char> {
    let i = find_from(l, '=', 0);
    l.subrange(i + 1, find_from(l, '=', i + 1))
}

/// `s` without its leading `c`s (`trim_start_matches`).
pub open spec fn trim_start_char(s: Seq<char>, c: char) -> Seq<char>
    decreases s.len(),
{
    if s.len() > 0 && s[0] == c {
        trim_start_char(s.drop_first(), c)
    } else {
        s
    }
}

/// `s` without its trailing `c`s (`trim_end_matches`).
pub open spec fn trim_end_char(s: Seq<char>, c: char) -> Seq<char>
    decreases s.len(),
{
    if s.len() > 0 && s.last() == c {
        trim_end_char(s.drop_last(), c)
    } else {
        s
    }
}

/// `s` without its leading and trailing `c`s (`trim_matches`).
pub open spec fn trim_char(s: Seq<char>, c: char) -> Seq<char> {
    trim_end_char(trim_start_char(s, c), c)
}

/// The value of a `key = value` line: the second field, trimmed, and
/// stripped of double and then single quotes.
pub open spec fn field_value(l: Seq<char>) -> Seq<char> {
    trim_char(trim_char(trimmed(second_field(l)), '"'), '\'')
}

/// The value that the last of `lines` that sets `key` gives it: a line
/// that, trimmed, starts with `key` and holds a '='.
pub open spec fn last_value(lines: Seq<Seq<char>>, key: Seq<char>) -> Option<Seq<char>>
    decreases lines.len(),
{
    if lines.len() == 0 {
        None
    } else {
        let l = trimmed(lines.last());
        if starts_with(l, key) && l.contains('=') {
            Some(field_value(l))
        } else {
            last_value(lines.drop_last(), key)
        }
    }
}

/// Number of times `c` occurs in `s`.
pub open spec fn count_char(s: Seq<char>, c: char) -> nat
    decreases s.len(),
{
    if s.len() == 0 {
        0
    } else {
        count_char(s.drop_last(), c) + if s.last() == c {
            1nat
        } else {
            0nat
        }
    }
}

fn starts_with_str(l: &Vec<char>, p: &str) -> (b: bool)
    ensures
        b == starts_with(l@, p@),
{
    let pc = str_chars(p);
    if pc.len() > l.len() {
        return false;
    }
    let mut i: usize = 0;
    while i < pc.len()
        invariant
            pc@ == p@,
            pc.len() <= l.len(),
            i <= pc.len(),
            forall|j: int| 0 <= j < i ==> l@[j] == pc@[j],
        decreases pc.len() - i,
    {
        if l[i] != pc[i] {
            assert(l@.subrange(0, pc.len() as int)[i as int] != pc@[i as int]);
            return false;
        }
        i = i + 1;
    }
    assert(l@.subrange(0, pc.len() as int) =~= pc@);
    true
}

fn find_char_from(s: &Vec<char>, c: char, from: usize) -> (r: usize)
    requires
        from <= s.len(),
    ensures
        r == find_from(s@, c, from as int),
{
    let mut i = from;
    while i < s.len()
        invariant
            from <= i <= s.len(),
            find_from(s@, c, from as int) == find_from(s@, c, i as int),
        decreases s.len() - i,
    {
        if s[i] == c {
            return i;
        }
        i = i + 1;
    }
    i
}

fn strip_char(s: &Vec<char>, c: char) -> (r: Vec<char>)
    ensures
        r@ == trim_char(s@, c),
{
    let mut a: usize = 0;
    assert(s@.subrange(0, s.len() as int) =~= s@);
    while a < s.len() && s[a] == c
        invariant
            a <= s.len(),
            trim_start_char(s@, c) == trim_start_char(s@.subrange(a as int, s.len() as int), c),
        decreases s.len() - a,
    {
        assert(s@.subrange(a as int, s.len() as int).drop_first() =~= s@.subrange(
            a + 1,
            s.len() as int,
        ));
        a = a + 1;
    }
    let ghost t = s@.subrange(a as int, s.len() as int);
    assert(trim_start_char(t, c) == t);
    let mut b: usize = s.len();
    while b > a && s[b - 1] == c
        invariant
            a <= b <= s.len(),
            trim_end_char(t, c) == trim_end_char(s@.subrange(a as int, b as int), c),
        decreases b,
    {
        assert(s@.subrange(a as int, b as int).drop_last() =~= s@.subrange(a as int, b - 1));
        b = b - 1;
    }
    let mut r: Vec<char> = Vec::new();
    let mut i = a;
    while i < b
        invariant
            a <= i <= b <= s.len(),
            r@ == s@.subrange(a as int, i as int),
        decreases b - i,
    {
        r.push(s[i]);
        i = i + 1;
    }
    r
}

fn value_of(l: &Vec<char>) -> (v: Vec<char>)
    requires
        l@.contains('='),
    ensures
        v@ == field_value(l@),
{
    let i = find_char_from(l, '=', 0);
    proof {
        lemma_find_from(l@, '=', 0);
        let w = choose|w: int| 0 <= w < l@.len() && l@[w] == '=';
        assert(0 <= w < l@.len() && l@[w] == '=');
        assert(exists|j: int| 0 <= j < l@.len() && l@[j] == '=');
        assert(i < l.len());
    }
    let j = find_char_from(l, '=', i + 1);
    proof {
        lemma_find_from(l@, '=', i + 1);
    }
    let mut field: Vec<char> = Vec::new();
    let mut k = i + 1;
    while k < j
        invariant
            i + 1 <= k <= j <= l.len(),
            field@ == l@.subrange(i + 1, k as int),
        decreases j - k,
    {
        field.push(l[k]);
        k = k + 1;
    }
    let t = trim_chars(&field);
    let d = strip_char(&t, '"');
    strip_char(&d, '\'')
}

proof fn lemma_starts_with_first(s: Seq<char>, p: Seq<char>)
    ensures
        starts_with(s, p) && p.len() > 0 ==> s[0] == p[0],
{
    if starts_with(s, p) && p.len() > 0 {
        assert(s.subrange(0, p.len() as int)[0] == s[0]);
    }
}

proof fn lemma_find_from(s: Seq<char>, c: char, i: int)
    requires
        0 <= i <= s.len(),
    ensures
        i <= find_from(s, c, i) <= s.len(),
        find_from(s, c, i) < s.len() ==> s[find_from(s, c, i)] == c,
        (exists|j: int| i <= j < s.len() && s[j] == c) ==> find_from(s, c, i) < s.len(),
    decreases s.len() - i,
{
    if i < s.len() && s[i] != c {
        lemma_find_from(s, c, i + 1);
    }
}

impl NixConfig {
    /// Reads a Nix plugin file: line by line, a trimmed line that starts
    /// with `name`, `version` or `description` and holds a '=' sets that
    /// field to its value, a later line overriding an earlier one.  `None`
    /// when no line sets the name.
    pub fn from_nix(code: &str) -> (r: Option<Self>)
        ensures
            match last_value(lines_of(code@), "name"@) {
                None => r is None,
                Some(n) => r matches Some(c) && {
                    &&& c.name@ == n
                    &&& opt_chars(c.version) == last_value(lines_of(code@), "version"@)
                    &&& opt_chars(c.description) == last_value(lines_of(code@), "description"@)
                    &&& c.repo_url is None
                },
            },
    {
        let lines = split_lines(&str_chars(code));
        let ghost ls = lines_of(code@);
        let mut name: Option<Vec<char>> = None;
        let mut version: Option<Vec<char>> = None;
        let mut description: Option<Vec<char>> = None;
        let mut i: usize = 0;
        while i < lines.len()
            invariant
                i <= lines.len(),
                lines@.len() == ls.len(),
                forall|j: int| 0 <= j < lines@.len() ==> #[trigger] lines@[j]@ == ls[j],
                opt_vec(name) == last_value(ls.subrange(0, i as int), "name"@),
                opt_vec(version) == last_value(ls.subrange(0, i as int), "version"@),
                opt_vec(description) == last_value(ls.subrange(0, i as int), "description"@),
            decreases lines.len() - i,
        {
            let line = trim_chars(&lines[i]);
            let has_eq = has_char(&line, '=');
            proof {
                let next = ls.subrange(0, i + 1);
                assert(next.last() == ls[i as int]);
                assert(next.drop_last() =~= ls.subrange(0, i as int));
                assert(line@ == trimmed(next.last()));
                reveal_strlit("name");
                reveal_strlit("version");
                reveal_strlit("description");
                lemma_starts_with_first(line@, "name"@);
                lemma_starts_with_first(line@, "version"@);
                lemma_starts_with_first(line@, "description"@);
            }
            if starts_with_str(&line, "name") && has_eq {
                name = Some(value_of(&line));
            } else if starts_with_str(&line, "version") && has_eq {
                version = Some(value_of(&line));
            } else if starts_with_str(&line, "description") && has_eq {
                description = Some(value_of(&line));
            }
            i = i + 1;
        }
        assert(ls.subrange(0, lines.len() as int) =~= ls);
        match name {
            Some(n) => Some(
                NixConfig {
                    name: chars_to_string(n.as_slice()),
                    version: to_string_opt(version),
                    description: to_string_opt(description),
                    repo_url: None,
                },
            ),
            None => None,
        }
    }

    /// A config for the GitHub repository `user/repo`, named after it;
    /// an error for a text that is not two parts around one '/'.
    pub fn _from_github(user_repo: &str) -> (r: Result<Self, String>)
        ensures
            match r {
                Ok(c) => {
                    &&& count_char(user_repo@, '/') == 1
                    &&& c.name@ == user_repo@
                    &&& c.version is None
                    &&& c.description is None
                    &&& opt_chars(c.repo_url) == Some("https://github.com/"@ + user_repo@)
                },
                Err(e) => count_char(user_repo@, '/') != 1
                    && e@ == "Invalid format. Expected user/repo"@,
            },
    {
        let cs = str_chars(user_repo);
        let mut slashes: usize = 0;
        let mut i: usize = 0;
        while i < cs.len()
            invariant
                i <= cs.len(),
                cs@ == user_repo@,
                slashes == count_char(cs@.subrange(0, i as int), '/'),
                slashes <= i,
            decreases cs.len() - i,
        {
            assert(cs@.subrange(0, i + 1).drop_last() =~= cs@.subrange(0, i as int));
            if cs[i] == '/' {
                slashes = slashes + 1;
            }
            i = i + 1;
        }
        assert(cs@.subrange(0, cs.len() as int) =~= cs@);
        if slashes != 1 {
            return Err("Invalid format. Expected user/repo".to_string());
        }
        let mut url = str_chars("https://github.com/");
        let mut k: usize = 0;
        let ghost prefix = url@;
        while k < cs.len()
            invariant
                k <= cs.len(),
                url@ == prefix + cs@.subrange(0, k as int),
            decreases cs.len() - k,
        {
            url.push(cs[k]);
            k = k + 1;
        }
        Ok(
            NixConfig {
                name: user_repo.to_string(),
                version: None,
                description: None,
                repo_url: Some(chars_to_string(url.as_slice())),
            },
        )
    }
}

/// The chars of an optional char vector.
pub open spec fn opt_vec(o: Option<Vec<char>>) -> Option<Seq<char>> {
    match o {
        Some(v) => Some(v@),
        None => None,
    }
}

fn to_string_opt(o: Option<Vec<char>>) -> (r: Option<String>)
    ensures
        opt_chars(r) == opt_vec(o),
{
    match o {
        Some(v) => Some(chars_to_string(v.as_slice())),
        None => None,
    }
}

} // verus!
