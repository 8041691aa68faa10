//! Character-level views of a document: conversions between `str` and
//! character vectors, and the line structure of a text.

use vstd::prelude::*;

verus! {

broadcast use vstd::string::group_string_axioms;

/// Collects the characters of `s` into a vector.
pub fn chars_of(s: &str) -> (v: Vec<char>)
    ensures
        v@ == s@,
{
    let mut v: Vec<char> = Vec::new();
    for c in it: s.chars()
        invariant
            v@ == it.seq().take(it.index() as int),
    {
        v.push(c);
    }
    v
}

} // verus!

verus! {

/// Number of characters before the first `'\n'` of `s` (all of `s` when it
/// holds no line break).
pub open spec fn first_line_len(s: Seq<char>) -> nat
    decreases s.len(),
{
    if s.len() == 0 || s[0] == '\n' {
        0
    } else {
        1 + first_line_len(s.drop_first())
    }
}

/// The lines of `s`, as `str::split('\n')` yields them: a text with `k`
/// line breaks has `k + 1` lines, the last of which may be empty.
pub open spec fn lines(s: Seq<char>) -> Seq<Seq<char>>
    decreases s.len(),
{
    let k = first_line_len(s);
    if k >= s.len() {
        seq![s]
    } else {
        seq![s.take(k as int)] + lines(s.skip(k + 1int))
    }
}

/// The character index of column `col` of line `line` of `s` (both counted
/// from 0), where a column past the end of its line stands for the line's
/// end, and a line past the last one for the end of the text.
pub open spec fn offset_of(s: Seq<char>, line: nat, col: nat) -> nat
    decreases s.len(),
{
    let k = first_line_len(s);
    if line == 0 {
        if col <= k { col } else { k }
    } else if k >= s.len() {
        s.len()
    } else {
        k + 1 + offset_of(s.skip(k + 1int), (line - 1) as nat, col)
    }
}

/// The (line, column) position, both counted from 0, of character index `t`
/// of `s`; an index past the end stands for the end of the text.
pub open spec fn position_of(s: Seq<char>, t: nat) -> (nat, nat)
    decreases s.len(),
{
    let k = first_line_len(s);
    if t <= k || k >= s.len() {
        (0, if t <= k { t } else { k })
    } else {
        let p = position_of(s.skip(k + 1int), (t - k - 1) as nat);
        (p.0 + 1, p.1)
    }
}

pub proof fn lemma_first_line_len_bound(s: Seq<char>)
    ensures
        first_line_len(s) <= s.len(),
        first_line_len(s) < s.len() ==> s[first_line_len(s) as int] == '\n',
        forall|m: int| 0 <= m < first_line_len(s) ==> s[m] != '\n',
    decreases s.len(),
{
    if s.len() > 0 && s[0] != '\n' {
        lemma_first_line_len_bound(s.drop_first());
        assert forall|m: int| 0 <= m < first_line_len(s) implies s[m] != '\n' by {
            if m > 0 {
                assert(s[m] == s.drop_first()[m - 1]);
            }
        }
    }
}

pub proof fn lemma_offset_bound(s: Seq<char>, line: nat, col: nat)
    ensures
        offset_of(s, line, col) <= s.len(),
    decreases s.len(),
{
    lemma_first_line_len_bound(s);
    let k = first_line_len(s);
    if line > 0 && k < s.len() {
        lemma_offset_bound(s.skip(k + 1int), (line - 1) as nat, col);
    }
}

pub proof fn lemma_first_line_len_is(s: Seq<char>, j: int)
    requires
        0 <= j <= s.len(),
        forall|m: int| 0 <= m < j ==> s[m] != '\n',
        j == s.len() || s[j] == '\n',
    ensures
        first_line_len(s) == j,
    decreases j,
{
    if j > 0 {
        let t = s.drop_first();
        assert forall|m: int| 0 <= m < j - 1 implies t[m] != '\n' by {
            assert(t[m] == s[m + 1]);
        }
        if j < s.len() {
            assert(t[j - 1] == s[j]);
        }
        lemma_first_line_len_is(t, j - 1);
    }
}

/// The index of the first `'\n'` at or after `from`, or the length of `s`.
pub fn line_end(s: &[char], from: usize) -> (r: usize)
    requires
        from <= s@.len(),
    ensures
        from <= r <= s@.len(),
        r - from == first_line_len(s@.skip(from as int)),
{
    let mut j = from;
    while j < s.len() && s[j] != '\n'
        invariant
            from <= j <= s@.len(),
            forall|m: int| from <= m < j ==> s@[m] != '\n',
        decreases s@.len() - j,
    {
        j = j + 1;
    }
    proof {
        let t = s@.skip(from as int);
        assert forall|m: int| 0 <= m < j - from implies t[m] != '\n' by {
            assert(t[m] == s@[m + from]);
        }
        if j < s@.len() {
            assert(t[j - from] == s@[j as int]);
        }
        lemma_first_line_len_is(t, j - from);
    }
    j
}

/// Number of line breaks of `text`: one less than its number of lines.
pub fn line_breaks_in(text: &[char]) -> (r: usize)
    ensures
        r + 1 == lines(text@).len(),
{
    let mut p: usize = 0;
    let mut count: usize = 0;
    assert(text@.skip(0) =~= text@);
    loop
        invariant
            p <= text@.len(),
            count <= p,
            lines(text@).len() == count + lines(text@.skip(p as int)).len(),
        decreases text@.len() - p,
    {
        let e = line_end(text, p);
        let ghost t = text@.skip(p as int);
        if e >= text.len() {
            return count;
        }
        proof {
            assert(t.skip(e - p + 1) =~= text@.skip(e + 1));
        }
        p = e + 1;
        count = count + 1;
    }
}

/// Number of lines of `text`, as `split('\n')` counts them.
pub fn line_count_in(text: &[char]) -> (r: usize)
    requires
        text@.len() < usize::MAX,
    ensures
        r == lines(text@).len(),
        r >= 1,
{
    proof {
        lemma_lines_bound(text@);
    }
    line_breaks_in(text) + 1
}

/// A text has at most one more line than it has characters.
pub proof fn lemma_lines_bound(s: Seq<char>)
    ensures
        1 <= lines(s).len() <= s.len() + 1,
    decreases s.len(),
{
    lemma_first_line_len_bound(s);
    let k = first_line_len(s);
    if k < s.len() {
        lemma_lines_bound(s.skip(k + 1int));
    }
}

/// Number of lines of `text`, as `split('\n')` counts them (at least one).
pub fn line_count(text: &str) -> (r: usize)
    requires
        text@.len() < usize::MAX,
    ensures
        r == lines(text@).len(),
        r >= 1,
{
    let chars = chars_of(text);
    line_count_in(chars.as_slice())
}

} // verus!

verus! {

/// The (line, column) position, both counted from 0, of the character at
/// index `target` of `text`; an index past the end gives the position of
/// the end of the text.
pub fn line_col_in(text: &[char], target: usize) -> (r: (usize, usize))
    ensures
        (r.0 as nat, r.1 as nat) == position_of(text@, target as nat),
{
    let mut p: usize = 0;
    let mut line: usize = 0;
    assert(text@.skip(0) =~= text@);
    loop
        invariant
            p <= text@.len(),
            p <= target,
            line <= p,
            position_of(text@, target as nat) == ({
                let q = position_of(text@.skip(p as int), (target - p) as nat);
                ((line + q.0) as nat, q.1)
            }),
        decreases text@.len() - p,
    {
        let e = line_end(text, p);
        let ghost t = text@.skip(p as int);
        if target <= e || e >= text.len() {
            let col = if target <= e { target - p } else { e - p };
            return (line, col);
        }
        proof {
            assert(t.skip(e - p + 1) =~= text@.skip(e + 1));
        }
        p = e + 1;
        line = line + 1;
    }
}

/// The (line, column) position of character index `target` of `text`.
pub fn line_col_for_char_index(text: &str, target: usize) -> (r: (usize, usize))
    ensures
        (r.0 as nat, r.1 as nat) == position_of(text@, target as nat),
{
    let chars = chars_of(text);
    line_col_in(chars.as_slice(), target)
}

/// The character index of the cursor at (`line`, `column`) of `text`, both
/// counted from 0; see [`offset_of`].
pub fn cursor_char_offset(text: &[char], line: usize, column: usize) -> (r: usize)
    ensures
        r as nat == offset_of(text@, line as nat, column as nat),
        r <= text@.len(),
{
    let mut p: usize = 0;
    let mut remaining: usize = line;
    assert(text@.skip(0) =~= text@);
    proof {
        lemma_offset_bound(text@, line as nat, column as nat);
    }
    loop
        invariant
            p <= text@.len(),
            remaining <= line,
            offset_of(text@, line as nat, column as nat) == p + offset_of(
                text@.skip(p as int),
                remaining as nat,
                column as nat,
            ),
            p + offset_of(text@.skip(p as int), remaining as nat, column as nat) <= text@.len(),
        decreases text@.len() - p,
    {
        let e = line_end(text, p);
        let ghost t = text@.skip(p as int);
        if remaining == 0 {
            let len = e - p;
            return p + if column <= len { column } else { len };
        }
        if e >= text.len() {
            return text.len();
        }
        proof {
            assert(t.skip(e - p + 1) =~= text@.skip(e + 1));
        }
        proof {
            lemma_offset_bound(text@.skip(e + 1), (remaining - 1) as nat, column as nat);
        }
        p = e + 1;
        remaining = remaining - 1;
    }
}

} // verus!

verus! {

/// Moving the cursor to a line and column and reading back its position
/// gives that line, and the column clamped to the line's length.
pub proof fn law_position_of_offset(s: Seq<char>, line: nat, col: nat)
    requires
        line < lines(s).len(),
    ensures
        position_of(s, offset_of(s, line, col)) == (
            line,
            if col <= lines(s)[line as int].len() { col } else { lines(s)[line as int].len() },
        ),
    decreases s.len(),
{
    lemma_first_line_len_bound(s);
    let k = first_line_len(s);
    if line > 0 {
        let rest = s.skip(k + 1int);
        law_position_of_offset(rest, (line - 1) as nat, col);
        lemma_offset_bound(rest, (line - 1) as nat, col);
        assert(lines(s)[line as int] == lines(rest)[line - 1]);
    }
}

/// Turning a character index into a position and back gives the index,
/// clamped to the length of the text.
pub proof fn law_offset_of_position(s: Seq<char>, t: nat)
    ensures
        offset_of(s, position_of(s, t).0, position_of(s, t).1) == if t <= s.len() { t } else { s.len() },
    decreases s.len(),
{
    lemma_first_line_len_bound(s);
    let k = first_line_len(s);
    if !(t <= k || k >= s.len()) {
        law_offset_of_position(s.skip(k + 1int), (t - k - 1) as nat);
    }
}

} // verus!
