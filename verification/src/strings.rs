//! Small string operations with exact specifications: decimal numerals,
//! trimming, ASCII lower-casing, prefixes, splitting at a character, and
//! the file name of a path.

use vstd::prelude::*;

use crate::text::chars_of;
use crate::unicode::{is_white_space, string_from_chars, white_space};

verus! {

broadcast use vstd::string::group_string_axioms;

// ---------------------------------------------------------------------------
// Decimal numerals
// ---------------------------------------------------------------------------

/// The character of decimal digit `d`.
pub open spec fn digit_char(d: nat) -> char {
    if d == 0 { '0' } else if d == 1 { '1' } else if d == 2 { '2' } else if d == 3 { '3' }
    else if d == 4 { '4' } else if d == 5 { '5' } else if d == 6 { '6' } else if d == 7 { '7' }
    else if d == 8 { '8' } else { '9' }
}

/// The decimal numeral of `n`, without leading zeros, as `Display` writes
/// an unsigned integer.
pub open spec fn decimal(n: nat) -> Seq<char>
    decreases n,
{
    if n < 10 {
        seq![digit_char(n)]
    } else {
        decimal(n / 10).push(digit_char(n % 10))
    }
}

fn digit(d: u128) -> (c: char)
    requires
        d < 10,
    ensures
        c == digit_char(d as nat),
{
    if d == 0 { '0' } else if d == 1 { '1' } else if d == 2 { '2' } else if d == 3 { '3' }
    else if d == 4 { '4' } else if d == 5 { '5' } else if d == 6 { '6' } else if d == 7 { '7' }
    else if d == 8 { '8' } else { '9' }
}

fn decimal_chars(n: u128) -> (r: Vec<char>)
    ensures
        r@ == decimal(n as nat),
    decreases n,
{
    if n < 10 {
        let mut v: Vec<char> = Vec::new();
        v.push(digit(n));
        v
    } else {
        let mut v = decimal_chars(n / 10);
        v.push(digit(n % 10));
        v
    }
}

/// The decimal numeral of `n`.
pub fn decimal_string(n: u128) -> (r: String)
    ensures
        r@ == decimal(n as nat),
{
    let v = decimal_chars(n);
    string_from_chars(v.as_slice())
}

/// A decimal digit.
pub open spec fn is_digit(c: char) -> bool {
    '0' <= c <= '9'
}

/// The number that the decimal digits `d` spell.
pub open spec fn digits_value(d: Seq<char>) -> nat
    decreases d.len(),
{
    if d.len() == 0 {
        0
    } else {
        digits_value(d.drop_last()) * 10 + ((d.last() as u32) - ('0' as u32)) as nat
    }
}

/// Every character of `d` is a decimal digit.
pub open spec fn all_digits(d: Seq<char>) -> bool {
    forall|i: int| 0 <= i < d.len() ==> is_digit(#[trigger] d[i])
}

/// `s` without a leading `+`.
pub open spec fn unsigned_digits(s: Seq<char>) -> Seq<char> {
    if s.len() > 0 && s[0] == '+' { s.drop_first() } else { s }
}

/// What `str::parse::<usize>` gives: an optional `+`, then one or more
/// decimal digits whose value fits in a `usize`.
pub open spec fn parsed_usize(s: Seq<char>) -> Option<nat> {
    let digits = unsigned_digits(s);
    if digits.len() > 0 && all_digits(digits) && digits_value(digits) <= usize::MAX {
        Some(digits_value(digits))
    } else {
        None
    }
}

proof fn lemma_digits_value_grows(d: Seq<char>, i: int, j: int)
    requires
        0 <= i <= j <= d.len(),
        forall|k: int| 0 <= k < d.len() ==> is_digit(#[trigger] d[k]),
    ensures
        digits_value(d.take(i)) <= digits_value(d.take(j)),
    decreases j - i,
{
    if i < j {
        lemma_digits_value_grows(d, i, j - 1);
        assert(d.take(j).drop_last() =~= d.take(j - 1));
    }
}

/// Reads a `usize` as `str::parse::<usize>` does; see [`parsed_usize`].
pub fn parse_usize(s: &[char]) -> (r: Option<usize>)
    ensures
        r is None <==> parsed_usize(s@) is None,
        r matches Some(a) ==> parsed_usize(s@) == Some(a as nat),
{
    let start: usize = if s.len() > 0 && s[0] == '+' { 1 } else { 0 };
    let ghost digits = unsigned_digits(s@);
    assert(digits =~= s@.skip(start as int));
    if start == s.len() {
        assert(digits.len() == 0);
        assert(parsed_usize(s@) is None);
        return None;
    }
    let mut i = start;
    while i < s.len()
        invariant
            start <= i <= s@.len(),
            digits =~= s@.skip(start as int),
            digits == unsigned_digits(s@),
            forall|k: int| start <= k < i ==> is_digit(#[trigger] s@[k]),
        decreases s@.len() - i,
    {
        if !('0' <= s[i] && s[i] <= '9') {
            assert(digits[i - start] == s@[i as int]);
            assert(!is_digit(digits[i - start]));
            return None;
        }
        i = i + 1;
    }
    assert forall|k: int| 0 <= k < digits.len() implies is_digit(#[trigger] digits[k]) by {
        assert(digits[k] == s@[k + start]);
    }
    let mut value: usize = 0;
    let mut j = start;
    assert(digits.take(0) =~= Seq::<char>::empty());
    while j < s.len()
        invariant
            start <= j <= s@.len(),
            digits =~= s@.skip(start as int),
            digits == unsigned_digits(s@),
            forall|k: int| 0 <= k < digits.len() ==> is_digit(#[trigger] digits[k]),
            value as nat == digits_value(digits.take(j - start)),
        decreases s@.len() - j,
    {
        assert(digits[j - start] == s@[j as int]);
        assert(is_digit(s@[j as int]));
        assert(digits.take(j - start + 1).drop_last() =~= digits.take(j - start));
        assert(digits.take(j - start + 1).last() == s@[j as int]);
        let d = (s[j] as u32) - ('0' as u32);
        match value.checked_mul(10) {
            None => {
                proof {
                    lemma_digits_value_grows(digits, j - start + 1, digits.len() as int);
                    assert(digits.take(digits.len() as int) =~= digits);
                }
                return None;
            },
            Some(m) => match m.checked_add(d as usize) {
                None => {
                    proof {
                        lemma_digits_value_grows(digits, j - start + 1, digits.len() as int);
                        assert(digits.take(digits.len() as int) =~= digits);
                    }
                    return None;
                },
                Some(v) => {
                    value = v;
                },
            },
        }
        j = j + 1;
    }
    assert(digits.take(digits.len() as int) =~= digits);
    Some(value)
}

// ---------------------------------------------------------------------------
// Trimming and case
// ---------------------------------------------------------------------------

/// Number of leading [`white_space`] characters of `s`.
pub open spec fn leading_ws(s: Seq<char>) -> nat
    decreases s.len(),
{
    if s.len() > 0 && white_space(s[0]) {
        1 + leading_ws(s.drop_first())
    } else {
        0
    }
}

/// Number of trailing [`white_space`] characters of `s`.
pub open spec fn trailing_ws(s: Seq<char>) -> nat
    decreases s.len(),
{
    if s.len() > 0 && white_space(s.last()) {
        1 + trailing_ws(s.drop_last())
    } else {
        0
    }
}

/// `s` without its leading and trailing white space, as `str::trim` gives it.
pub open spec fn trimmed(s: Seq<char>) -> Seq<char> {
    let a = leading_ws(s);
    if a == s.len() {
        Seq::empty()
    } else {
        s.subrange(a as int, s.len() - trailing_ws(s))
    }
}

proof fn lemma_leading_ws(s: Seq<char>, i: int)
    requires
        0 <= i <= s.len(),
        forall|m: int| 0 <= m < i ==> white_space(s[m]),
        i == s.len() || !white_space(s[i]),
    ensures
        leading_ws(s) == i,
    decreases i,
{
    if i > 0 {
        let t = s.drop_first();
        assert forall|m: int| 0 <= m < i - 1 implies white_space(t[m]) by {
            assert(t[m] == s[m + 1]);
        }
        if i < s.len() {
            assert(t[i - 1] == s[i]);
        }
        lemma_leading_ws(t, i - 1);
    }
}

proof fn lemma_trailing_ws(s: Seq<char>, j: int)
    requires
        0 <= j <= s.len(),
        forall|m: int| j <= m < s.len() ==> white_space(s[m]),
        j == 0 || !white_space(s[j - 1]),
    ensures
        trailing_ws(s) == s.len() - j,
    decreases s.len() - j,
{
    if j < s.len() {
        let t = s.drop_last();
        assert forall|m: int| j <= m < t.len() implies white_space(t[m]) by {
            assert(t[m] == s[m]);
        }
        if j > 0 {
            assert(t[j - 1] == s[j - 1]);
        }
        lemma_trailing_ws(t, j);
    }
}

/// A text that neither starts nor ends with white space is its own trimmed
/// form.
pub proof fn lemma_trimmed_unchanged(s: Seq<char>)
    requires
        s.len() > 0,
        !white_space(s[0]),
        !white_space(s.last()),
    ensures
        trimmed(s) == s,
{
    assert(s.subrange(0, s.len() as int) =~= s);
}

/// Trimming a text that starts with `k` characters that are not white
/// space, the last of them at index `j`, keeps those characters.
pub proof fn lemma_trimmed_keeps_prefix(s: Seq<char>, j: int)
    requires
        0 <= j < s.len(),
        !white_space(s[0]),
        !white_space(s[j]),
    ensures
        trimmed(s).len() > j,
        trimmed(s).take(j + 1) == s.take(j + 1),
{
    lemma_trailing_ws_bound(s, j);
    assert(leading_ws(s) == 0);
}

proof fn lemma_trailing_ws_bound(s: Seq<char>, j: int)
    requires
        0 <= j < s.len(),
        !white_space(s[j]),
    ensures
        trailing_ws(s) <= s.len() - 1 - j,
    decreases s.len(),
{
    if white_space(s.last()) {
        assert(s.drop_last()[j] == s[j]);
        lemma_trailing_ws_bound(s.drop_last(), j);
    }
}

/// `s` without leading and trailing white space.
pub fn trim_chars(s: &[char]) -> (r: Vec<char>)
    ensures
        r@ == trimmed(s@),
{
    let n = s.len();
    let mut a: usize = 0;
    while a < n && is_white_space(s[a])
        invariant
            a <= n,
            n == s@.len(),
            forall|m: int| 0 <= m < a ==> white_space(s@[m]),
        decreases n - a,
    {
        a = a + 1;
    }
    proof {
        lemma_leading_ws(s@, a as int);
    }
    let mut out: Vec<char> = Vec::new();
    if a == n {
        return out;
    }
    let mut b: usize = n;
    while b > a && is_white_space(s[b - 1])
        invariant
            a < n,
            a <= b <= n,
            n == s@.len(),
            !white_space(s@[a as int]),
            forall|m: int| b <= m < n ==> white_space(s@[m]),
        decreases b,
    {
        b = b - 1;
    }
    proof {
        lemma_trailing_ws(s@, b as int);
    }
    let mut i = a;
    while i < b
        invariant
            a <= i <= b <= n,
            n == s@.len(),
            out@ == s@.subrange(a as int, i as int),
        decreases b - i,
    {
        out.push(s[i]);
        i = i + 1;
        assert(s@.subrange(a as int, i as int) =~= s@.subrange(a as int, i - 1).push(s@[i - 1]));
    }
    out
}

/// The ASCII lower-case form of `c`: `A` to `Z` become `a` to `z`, every
/// other character stays.
pub open spec fn ascii_lower(c: char) -> char {
    if 'A' <= c <= 'Z' {
        ((c as u32) + 32) as char
    } else {
        c
    }
}

/// `s` with every character mapped by [`ascii_lower`], as
/// `str::to_ascii_lowercase` gives it.
pub open spec fn ascii_lowercase(s: Seq<char>) -> Seq<char> {
    s.map_values(|c: char| ascii_lower(c))
}

fn to_ascii_lower(c: char) -> (r: char)
    ensures
        r == ascii_lower(c),
{
    if 'A' <= c && c <= 'Z' {
        let b = (c as u32) as u8;
        (b + 32) as char
    } else {
        c
    }
}

/// The ASCII lower-case form of `s`.
pub fn ascii_lowercase_chars(s: &[char]) -> (r: Vec<char>)
    ensures
        r@ == ascii_lowercase(s@),
{
    let mut out: Vec<char> = Vec::new();
    let mut i: usize = 0;
    while i < s.len()
        invariant
            i <= s@.len(),
            out@ == ascii_lowercase(s@.take(i as int)),
        decreases s@.len() - i,
    {
        out.push(to_ascii_lower(s[i]));
        i = i + 1;
        assert(ascii_lowercase(s@.take(i as int)) =~= ascii_lowercase(s@.take(i - 1)).push(ascii_lower(s@[i - 1])));
    }
    assert(s@.take(s@.len() as int) =~= s@);
    out
}

// ---------------------------------------------------------------------------
// Comparing and splitting
// ---------------------------------------------------------------------------

/// Whether `a` and `b` hold the same characters.
pub fn same_chars(a: &[char], b: &[char]) -> (r: bool)
    ensures
        r == (a@ == b@),
{
    if a.len() != b.len() {
        return false;
    }
    let mut i: usize = 0;
    while i < a.len()
        invariant
            a@.len() == b@.len(),
            i <= a@.len(),
            forall|k: int| 0 <= k < i ==> a@[k] == b@[k],
        decreases a@.len() - i,
    {
        if a[i] != b[i] {
            return false;
        }
        i = i + 1;
    }
    assert(a@ =~= b@);
    true
}

/// Whether the characters of `s` equal those of the literal `lit`.
pub fn is_literal(s: &[char], lit: &str) -> (r: bool)
    ensures
        r == (s@ == lit@),
{
    let l = chars_of(lit);
    same_chars(s, l.as_slice())
}

/// Whether `s` starts with `prefix`.
pub fn starts_with_chars(s: &[char], prefix: &[char]) -> (r: bool)
    ensures
        r == (prefix@.len() <= s@.len() && s@.take(prefix@.len() as int) == prefix@),
{
    if prefix.len() > s.len() {
        return false;
    }
    let mut i: usize = 0;
    while i < prefix.len()
        invariant
            prefix@.len() <= s@.len(),
            i <= prefix@.len(),
            forall|k: int| 0 <= k < i ==> s@[k] == prefix@[k],
        decreases prefix@.len() - i,
    {
        if s[i] != prefix[i] {
            assert(s@.take(prefix@.len() as int)[i as int] != prefix@[i as int]);
            return false;
        }
        i = i + 1;
    }
    assert(s@.take(prefix@.len() as int) =~= prefix@);
    true
}

/// The index of the first `c` in `s`.
pub open spec fn first_index_of(s: Seq<char>, c: char) -> Option<int>
    decreases s.len(),
{
    if s.len() == 0 {
        None
    } else if s[0] == c {
        Some(0)
    } else {
        match first_index_of(s.drop_first(), c) {
            Some(i) => Some(i + 1),
            None => None,
        }
    }
}

pub proof fn lemma_first_index_of(s: Seq<char>, c: char, i: int)
    requires
        0 <= i <= s.len(),
        forall|m: int| 0 <= m < i ==> s[m] != c,
    ensures
        i < s.len() && s[i] == c ==> first_index_of(s, c) == Some(i),
        i == s.len() ==> first_index_of(s, c) is None,
    decreases i,
{
    if i > 0 {
        let t = s.drop_first();
        assert forall|m: int| 0 <= m < i - 1 implies t[m] != c by {
            assert(t[m] == s[m + 1]);
        }
        if i < s.len() {
            assert(t[i - 1] == s[i]);
        }
        lemma_first_index_of(t, c, i - 1);
    }
}

/// `s` split at its first `sep`, which belongs to neither part, as
/// `str::split_once` splits.
pub open spec fn split_once(s: Seq<char>, sep: char) -> Option<(Seq<char>, Seq<char>)> {
    match first_index_of(s, sep) {
        Some(i) => Some((s.take(i), s.skip(i + 1))),
        None => None,
    }
}

/// Splits `s` at its first `sep`.
pub fn split_once_chars(s: &[char], sep: char) -> (r: Option<(Vec<char>, Vec<char>)>)
    ensures
        match (r, split_once(s@, sep)) {
            (None, None) => true,
            (Some(x), Some(y)) => x.0@ == y.0 && x.1@ == y.1,
            _ => false,
        },
{
    let mut i: usize = 0;
    while i < s.len() && s[i] != sep
        invariant
            i <= s@.len(),
            forall|m: int| 0 <= m < i ==> s@[m] != sep,
        decreases s@.len() - i,
    {
        i = i + 1;
    }
    proof {
        lemma_first_index_of(s@, sep, i as int);
    }
    if i == s.len() {
        return None;
    }
    let mut left: Vec<char> = Vec::new();
    let mut k: usize = 0;
    while k < i
        invariant
            k <= i < s@.len(),
            left@ == s@.take(k as int),
        decreases i - k,
    {
        left.push(s[k]);
        k = k + 1;
        assert(s@.take(k as int) =~= s@.take(k - 1).push(s@[k - 1]));
    }
    let mut right: Vec<char> = Vec::new();
    let mut k = i + 1;
    while k < s.len()
        invariant
            i + 1 <= k <= s@.len(),
            right@ == s@.subrange(i + 1, k as int),
        decreases s@.len() - k,
    {
        right.push(s[k]);
        k = k + 1;
        assert(s@.subrange(i + 1, k as int) =~= s@.subrange(i + 1, k - 1).push(s@[k - 1]));
    }
    assert(right@ =~= s@.skip(i + 1));
    Some((left, right))
}

/// Joins `parts` with `sep` between each two of them.
pub open spec fn joined(parts: Seq<Seq<char>>, sep: Seq<char>) -> Seq<char>
    decreases parts.len(),
{
    if parts.len() == 0 {
        Seq::empty()
    } else if parts.len() == 1 {
        parts[0]
    } else {
        joined(parts.drop_last(), sep) + sep + parts.last()
    }
}

/// Joins the strings of `parts` with `sep` between each two of them.
pub fn join_strings(parts: &Vec<String>, sep: &str) -> (r: String)
    ensures
        r@ == joined(parts@.map_values(|p: String| p@), sep@),
{
    let ghost views = parts@.map_values(|p: String| p@);
    let mut out = String::new();
    let mut i: usize = 0;
    while i < parts.len()
        invariant
            i <= parts@.len(),
            views == parts@.map_values(|p: String| p@),
            out@ == joined(views.take(i as int), sep@),
        decreases parts@.len() - i,
    {
        if i > 0 {
            out.append(sep);
        }
        out.append(parts[i].as_str());
        i = i + 1;
        assert(views.take(i as int).drop_last() =~= views.take(i - 1));
    }
    assert(views.take(parts@.len() as int) =~= views);
    out
}

// ---------------------------------------------------------------------------
// Paths
// ---------------------------------------------------------------------------

/// A character that separates path components: `/`, and on Windows `\`
/// as well.
pub open spec fn is_separator(c: char, windows: bool) -> bool {
    c == '/' || (windows && c == '\\')
}

/// The file name of `path`, as `Path::file_name` reads it: on Windows a
/// leading drive or share prefix ([`path_prefix_len`]) is not part of any
/// component; then see [`last_file_name`]. (Inside a verbatim `\\?\` path
/// Windows takes `/` and `.` literally; here they separate and are passed
/// over as in any other path.)
pub open spec fn file_name_of(path: Seq<char>, windows: bool) -> Option<Seq<char>> {
    last_file_name(path.skip(path_prefix_len(path, windows)), windows)
}

/// The last component of a path without prefix: components that are empty
/// or `.` are passed over, and there is none when the last remaining
/// component is `..` or there is no component at all.
pub open spec fn last_file_name(path: Seq<char>, windows: bool) -> Option<Seq<char>>
    decreases path.len(),
{
    match last_separator(path, windows) {
        None => component_name(path),
        Some(i) => if 0 <= i < path.len() {
            match component_name(path.skip(i + 1)) {
                Some(name) => Some(name),
                None => if path.skip(i + 1) == seq!['.', '.'] {
                    None
                } else {
                    last_file_name(path.take(i), windows)
                },
            }
        } else {
            None
        },
    }
}

/// A single path component as a file name: none for an empty component,
/// `.` or `..`.
pub open spec fn component_name(c: Seq<char>) -> Option<Seq<char>> {
    if c.len() == 0 || c == seq!['.'] || c == seq!['.', '.'] {
        None
    } else {
        Some(c)
    }
}

/// The index of the last separator of `s`.
pub open spec fn last_separator(s: Seq<char>, windows: bool) -> Option<int>
    decreases s.len(),
{
    if s.len() == 0 {
        None
    } else if is_separator(s.last(), windows) {
        Some(s.len() - 1)
    } else {
        last_separator(s.drop_last(), windows)
    }
}

/// The index of the first separator of `s` at or after `i`, or the length
/// of `s` when there is none.
pub open spec fn next_separator(s: Seq<char>, i: int, windows: bool) -> int
    decreases s.len() - i,
{
    if i < 0 || i >= s.len() {
        s.len() as int
    } else if is_separator(s[i], windows) {
        i
    } else {
        next_separator(s, i + 1, windows)
    }
}

/// An ASCII letter.
pub open spec fn is_ascii_letter(c: char) -> bool {
    ('a' <= c <= 'z') || ('A' <= c <= 'Z')
}

/// The length of a Windows path prefix: `X:` for a drive letter `X`; for a
/// path that starts with two separators, those and the next two components
/// (`\\server\share`, also `\\?\C:` and `\\.\device`) when both are
/// non-empty. None elsewhere, and none on other systems.
pub open spec fn path_prefix_len(path: Seq<char>, windows: bool) -> int {
    if !windows || path.len() < 2 {
        0
    } else if path[1] == ':' && is_ascii_letter(path[0]) {
        2
    } else if is_separator(path[0], true) && is_separator(path[1], true) {
        let a = next_separator(path, 2, true);
        if 2 < a < path.len() {
            let b = next_separator(path, a + 1, true);
            if b > a + 1 { b } else { 0 }
        } else {
            0
        }
    } else {
        0
    }
}

proof fn lemma_last_separator(s: Seq<char>, j: int, windows: bool)
    requires
        0 <= j <= s.len(),
        forall|m: int| j <= m < s.len() ==> !is_separator(s[m], windows),
    ensures
        j > 0 && is_separator(s[j - 1], windows) ==> last_separator(s, windows) == Some(j - 1),
        j == 0 ==> last_separator(s, windows) is None,
    decreases s.len() - j,
{
    if j < s.len() {
        let t = s.drop_last();
        assert forall|m: int| j <= m < t.len() implies !is_separator(t[m], windows) by {
            assert(t[m] == s[m]);
        }
        if j > 0 {
            assert(t[j - 1] == s[j - 1]);
        }
        lemma_last_separator(t, j, windows);
    }
}

fn slice_chars(s: &[char], from: usize, to: usize) -> (r: Vec<char>)
    requires
        from <= to <= s@.len(),
    ensures
        r@ == s@.subrange(from as int, to as int),
{
    let mut out: Vec<char> = Vec::new();
    let mut i = from;
    while i < to
        invariant
            from <= i <= to <= s@.len(),
            out@ == s@.subrange(from as int, i as int),
        decreases to - i,
    {
        out.push(s[i]);
        i = i + 1;
        assert(s@.subrange(from as int, i as int) =~= s@.subrange(from as int, i - 1).push(s@[i - 1]));
    }
    out
}

fn is_component_name(c: &[char]) -> (r: bool)
    ensures
        r == component_name(c@) is Some,
{
    if c.len() == 0 {
        return false;
    }
    if c.len() == 1 && c[0] == '.' {
        assert(c@ =~= seq!['.']);
        return false;
    }
    if c.len() == 2 && c[0] == '.' && c[1] == '.' {
        assert(c@ =~= seq!['.', '.']);
        return false;
    }
    assert(c@ != seq!['.']) by {
        if c@ == seq!['.'] {
            assert(c@[0] == '.');
        }
    }
    assert(c@ != seq!['.', '.']) by {
        if c@ == seq!['.', '.'] {
            assert(c@[0] == '.' && c@[1] == '.');
        }
    }
    true
}

fn is_separator_char(c: char, windows: bool) -> (r: bool)
    ensures
        r == is_separator(c, windows),
{
    c == '/' || (windows && c == '\\')
}

/// The first separator of `chars` at or after `i`, or the length.
fn find_separator(chars: &[char], i: usize, windows: bool) -> (r: usize)
    requires
        i <= chars@.len(),
    ensures
        r as int == next_separator(chars@, i as int, windows),
        i <= r <= chars@.len(),
    decreases chars@.len() - i,
{
    if i >= chars.len() {
        chars.len()
    } else if is_separator_char(chars[i], windows) {
        i
    } else {
        find_separator(chars, i + 1, windows)
    }
}

fn prefix_len(chars: &[char], windows: bool) -> (r: usize)
    ensures
        r as int == path_prefix_len(chars@, windows),
        r <= chars@.len(),
{
    if !windows || chars.len() < 2 {
        return 0;
    }
    let c0 = chars[0];
    if chars[1] == ':' && (('a' <= c0 && c0 <= 'z') || ('A' <= c0 && c0 <= 'Z')) {
        return 2;
    }
    if is_separator_char(chars[0], true) && is_separator_char(chars[1], true) {
        let a = find_separator(chars, 2, true);
        if 2 < a && a < chars.len() {
            let b = find_separator(chars, a + 1, true);
            if b > a + 1 {
                return b;
            }
        }
    }
    0
}

fn last_file_name_of(chars: &[char], windows: bool) -> (r: Option<String>)
    ensures
        match (r, last_file_name(chars@, windows)) {
            (None, None) => true,
            (Some(a), Some(b)) => a@ == b,
            _ => false,
        },
{
    let mut end = chars.len();
    assert(chars@.take(end as int) =~= chars@);
    loop
        invariant
            end <= chars@.len(),
            last_file_name(chars@, windows) == last_file_name(chars@.take(end as int), windows),
        decreases end,
    {
        let ghost s = chars@.take(end as int);
        let mut j = end;
        while j > 0 && !is_separator_char(chars[j - 1], windows)
            invariant
                j <= end <= chars@.len(),
                forall|m: int| j <= m < end ==> !is_separator(chars@[m], windows),
            decreases j,
        {
            j = j - 1;
        }
        proof {
            assert forall|m: int| j <= m < s.len() implies !is_separator(s[m], windows) by {
                assert(s[m] == chars@[m]);
            }
            lemma_last_separator(s, j as int, windows);
        }
        let comp = slice_chars(chars, j, end);
        if j == 0 {
            proof {
                assert(comp@ =~= s);
            }
            if is_component_name(comp.as_slice()) {
                return Some(string_from_chars(comp.as_slice()));
            }
            return None;
        }
        proof {
            assert(comp@ =~= s.skip(j as int));
        }
        if is_component_name(comp.as_slice()) {
            return Some(string_from_chars(comp.as_slice()));
        }
        if comp.len() == 2 {
            assert(comp@ =~= seq!['.', '.']);
            return None;
        }
        proof {
            assert(comp@ != seq!['.', '.']);
            assert(s.take(j - 1) =~= chars@.take(j - 1));
        }
        end = j - 1;
    }
}

/// The file name of `path`, with Windows path rules when `windows`; see
/// [`file_name_of`].
pub fn file_name(path: &str, windows: bool) -> (r: Option<String>)
    ensures
        match (r, file_name_of(path@, windows)) {
            (None, None) => true,
            (Some(a), Some(b)) => a@ == b,
            _ => false,
        },
{
    let chars = chars_of(path);
    let p = prefix_len(chars.as_slice(), windows);
    let rest = slice_chars(chars.as_slice(), p, chars.len());
    assert(rest@ =~= path@.skip(p as int));
    last_file_name_of(rest.as_slice(), windows)
}

} // verus!
