use vstd::prelude::*;

verus! {

/// A char that may end a line: LF, VT, FF, CR, NEL, LINE SEPARATOR and
/// PARAGRAPH SEPARATOR.
pub open spec fn is_break_char(c: char) -> bool {
    c == '\n' || c == '\u{0B}' || c == '\u{0C}' || c == '\r' || c == '\u{85}' || c == '\u{2028}'
        || c == '\u{2029}'
}

/// Whether `c` may end a line (`is_break_char`).
pub fn is_line_break(c: char) -> (b: bool)
    ensures
        b == is_break_char(c),
{
    c == '\n' || c == '\u{0B}' || c == '\u{0C}' || c == '\r' || c == '\u{85}' || c == '\u{2028}'
        || c == '\u{2029}'
}

/// The char at `i` is the last char of a line.  A CR directly followed by a
/// LF does not end a line: the pair CRLF is a single line break.
pub open spec fn ends_line_at(s: Seq<char>, i: int) -> bool {
    &&& 0 <= i < s.len()
    &&& is_break_char(s[i])
    &&& !(s[i] == '\r' && i + 1 < s.len() && s[i + 1] == '\n')
}

/// The char indices, from `i` on, at which a new line starts (just after a
/// line break), in increasing order.
pub open spec fn breaks_from(s: Seq<char>, i: int) -> Seq<int>
    decreases s.len() - i,
{
    if i < 0 || i >= s.len() {
        seq![]
    } else if ends_line_at(s, i) {
        seq![i + 1] + breaks_from(s, i + 1)
    } else {
        breaks_from(s, i + 1)
    }
}

/// The char indices at which the second, third, ... line of `s` start.
pub open spec fn line_breaks(s: Seq<char>) -> Seq<int> {
    breaks_from(s, 0)
}

/// Number of lines of a text: one more than its number of line breaks, so
/// that a text ending in a line break has a final empty line.
pub open spec fn num_lines(s: Seq<char>) -> nat {
    line_breaks(s).len() + 1
}

/// Char index at which line `k` (zero-based) starts; one past the end for
/// `k >= num_lines(s)`.
pub open spec fn line_start(s: Seq<char>, k: int) -> int {
    if k <= 0 {
        0
    } else if k - 1 < line_breaks(s).len() {
        line_breaks(s)[k - 1]
    } else {
        s.len() as int
    }
}

/// Char index just past the end of line `k`, its line break included.
pub open spec fn line_end(s: Seq<char>, k: int) -> int {
    line_start(s, k + 1)
}

/// The chars of line `k`, its line break included.
pub open spec fn line_of(s: Seq<char>, k: int) -> Seq<char> {
    s.subrange(line_start(s, k), line_end(s, k))
}

/// Elements of `breaks_from(s, i)` lie in `(i, s.len()]`, increase strictly,
/// and each one follows a line break.
pub proof fn lemma_breaks_from(s: Seq<char>, i: int)
    requires
        0 <= i,
    ensures
        forall|j: int|
            0 <= j < breaks_from(s, i).len() ==> i < #[trigger] breaks_from(s, i)[j] <= s.len()
                && ends_line_at(s, breaks_from(s, i)[j] - 1),
        forall|j1: int, j2: int|
            0 <= j1 < j2 < breaks_from(s, i).len() ==> #[trigger] breaks_from(s, i)[j1]
                < #[trigger] breaks_from(s, i)[j2],
        breaks_from(s, i).len() <= if i <= s.len() {
            s.len() - i
        } else {
            0
        },
    decreases s.len() - i,
{
    if i < 0 || i >= s.len() {
    } else {
        lemma_breaks_from(s, i + 1);
        let rest = breaks_from(s, i + 1);
        if ends_line_at(s, i) {
            let b = seq![i + 1] + rest;
            assert(breaks_from(s, i) == b);
            assert forall|j: int| 0 <= j < b.len() implies i < #[trigger] b[j] <= s.len()
                && ends_line_at(s, b[j] - 1) by {
                if j > 0 {
                    assert(b[j] == rest[j - 1]);
                }
            }
            assert forall|j1: int, j2: int| 0 <= j1 < j2 < b.len() implies #[trigger] b[j1]
                < #[trigger] b[j2] by {
                assert(b[j2] == rest[j2 - 1]);
                if j1 > 0 {
                    assert(b[j1] == rest[j1 - 1]);
                }
            }
        }
    }
}

/// The basic facts about the line structure of a text.
pub proof fn lemma_lines(s: Seq<char>)
    ensures
        num_lines(s) >= 1,
        num_lines(s) <= s.len() + 1,
        line_start(s, 0) == 0,
        forall|k: int| 0 <= k <= num_lines(s) ==> 0 <= #[trigger] line_start(s, k) <= s.len(),
        forall|k: int| k >= num_lines(s) - 1 ==> #[trigger] line_start(s, k + 1) == s.len(),
        forall|k1: int, k2: int|
            0 <= k1 <= k2 ==> #[trigger] line_start(s, k1) <= #[trigger] line_start(s, k2),
        forall|k1: int, k2: int|
            0 <= k1 < k2 < num_lines(s) ==> #[trigger] line_start(s, k1) < #[trigger] line_start(
                s,
                k2,
            ),
        forall|k: int|
            0 <= k < num_lines(s) - 1 ==> line_start(s, k) < #[trigger] line_start(s, k + 1)
                && ends_line_at(s, line_start(s, k + 1) - 1),
{
    lemma_breaks_from(s, 0);
    let b = line_breaks(s);
    assert forall|k1: int, k2: int| 0 <= k1 <= k2 implies #[trigger] line_start(s, k1)
        <= #[trigger] line_start(s, k2) by {
        if k1 > 0 && k1 - 1 < b.len() && k2 - 1 < b.len() && k1 < k2 {
            assert(b[k1 - 1] < b[k2 - 1]);
        }
    }
}

/// Whether `s1` and `s2`, which agree before `p`, see the same line break
/// at `p - 1`: it differs only where a CR there is followed by a LF in one
/// text and not in the other.
pub open spec fn same_break_at(s1: Seq<char>, s2: Seq<char>, p: int) -> bool {
    ||| p <= 0
    ||| s1[p - 1] != '\r'
    ||| ((p < s1.len() && s1[p] == '\n') == (p < s2.len() && s2[p] == '\n'))
}

proof fn lemma_breaks_prefix(s1: Seq<char>, s2: Seq<char>, p: int, i: int)
    requires
        0 <= i,
        p <= s1.len(),
        p <= s2.len(),
        s1.subrange(0, p) == s2.subrange(0, p),
        same_break_at(s1, s2, p),
    ensures
        forall|j: int|
            0 <= j < breaks_from(s1, i).len() && #[trigger] breaks_from(s1, i)[j] <= p ==> j
                < breaks_from(s2, i).len() && breaks_from(s2, i)[j] == breaks_from(s1, i)[j],
    decreases p - i,
{
    lemma_breaks_from(s1, i);
    if i < p {
        assert(s1[i] == s1.subrange(0, p)[i]);
        assert(s2[i] == s2.subrange(0, p)[i]);
        if i + 1 < p {
            assert(s1[i + 1] == s1.subrange(0, p)[i + 1]);
            assert(s2[i + 1] == s2.subrange(0, p)[i + 1]);
        }
        assert(ends_line_at(s1, i) == ends_line_at(s2, i));
        lemma_breaks_prefix(s1, s2, p, i + 1);
        let r1 = breaks_from(s1, i + 1);
        let r2 = breaks_from(s2, i + 1);
        if ends_line_at(s1, i) {
            assert(breaks_from(s1, i) == seq![i + 1] + r1);
            assert(breaks_from(s2, i) == seq![i + 1] + r2);
            assert forall|j: int|
                0 <= j < breaks_from(s1, i).len() && #[trigger] breaks_from(s1, i)[j] <= p implies j
                    < breaks_from(s2, i).len() && breaks_from(s2, i)[j] == breaks_from(s1, i)[j] by {
                if j > 0 {
                    assert(breaks_from(s1, i)[j] == r1[j - 1]);
                    assert(breaks_from(s2, i)[j] == r2[j - 1]);
                }
            }
        }
    }
}

/// Two texts that agree before `p`, and see the same line break at `p - 1`,
/// start each line that begins no later than `p` at the same place.
pub proof fn lemma_line_start_prefix(s1: Seq<char>, s2: Seq<char>, p: int, k: int)
    requires
        p <= s1.len(),
        p <= s2.len(),
        s1.subrange(0, p) == s2.subrange(0, p),
        same_break_at(s1, s2, p),
        0 <= k < num_lines(s1),
        line_start(s1, k) <= p,
    ensures
        k < num_lines(s2),
        line_start(s2, k) == line_start(s1, k),
{
    if k > 0 {
        lemma_breaks_prefix(s1, s2, p, 0);
        assert(breaks_from(s1, 0)[k - 1] <= p);
    }
}

proof fn lemma_breaks_complete(s: Seq<char>, i: int, x: int)
    requires
        0 <= i <= x,
        ends_line_at(s, x),
    ensures
        breaks_from(s, i).contains(x + 1),
    decreases x - i,
{
    if i == x {
        assert(breaks_from(s, i) == seq![i + 1] + breaks_from(s, i + 1));
        assert(breaks_from(s, i)[0] == x + 1);
    } else {
        lemma_breaks_complete(s, i + 1, x);
        let rest = breaks_from(s, i + 1);
        let j = choose|j: int| 0 <= j < rest.len() && rest[j] == x + 1;
        if ends_line_at(s, i) {
            assert(breaks_from(s, i) == seq![i + 1] + rest);
            assert(breaks_from(s, i)[j + 1] == x + 1);
        } else {
            assert(breaks_from(s, i)[j] == x + 1);
        }
    }
}

/// When no line ends from the start of line `k` up to `j`, the next line
/// starts after `j`.
pub proof fn lemma_no_end_before(s: Seq<char>, k: int, j: int)
    requires
        0 <= k < num_lines(s),
        forall|x: int| line_start(s, k) <= x < j ==> !ends_line_at(s, x),
    ensures
        k + 1 < num_lines(s) ==> line_start(s, k + 1) > j,
{
    lemma_lines(s);
    if k + 1 < num_lines(s) {
        let b = line_start(s, k + 1);
        assert(ends_line_at(s, b - 1));
        assert(line_start(s, k) < b);
    }
}

/// A line ends at the first line end at or after its start.
pub proof fn lemma_next_line_start(s: Seq<char>, k: int, j: int)
    requires
        0 <= k < num_lines(s),
        line_start(s, k) <= j,
        ends_line_at(s, j),
        forall|x: int| line_start(s, k) <= x < j ==> !ends_line_at(s, x),
    ensures
        k + 1 < num_lines(s),
        line_start(s, k + 1) == j + 1,
{
    lemma_lines(s);
    lemma_breaks_from(s, 0);
    lemma_breaks_complete(s, 0, j);
    let b = line_breaks(s);
    let m = choose|m: int| 0 <= m < b.len() && b[m] == j + 1;
    if k > 0 {
        assert(b[k - 1] == line_start(s, k));
        if m <= k - 1 {
            if m < k - 1 {
                assert(b[m] < b[k - 1]);
            }
            assert(false);
        }
    }
    assert(k < b.len());
    if k < m {
        assert(b[k] < b[m]);
    }
    lemma_no_end_before(s, k, j);
}

} // verus!
