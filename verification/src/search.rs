//! Find: whole-word tests, case folding, and the forward and backward
//! searches of the Find and Replace dialogs, over character indices.

use vstd::prelude::*;

use crate::strings::same_chars;
use crate::text::chars_of;
use crate::unicode::{alphanumeric, char_is_alphanumeric, char_to_lowercase, lowercase, string_from_chars};

verus! {

// ---------------------------------------------------------------------------
// Words
// ---------------------------------------------------------------------------

/// A character that belongs to a word: alphanumeric, or `_`.
pub open spec fn word_char(c: char) -> bool {
    alphanumeric(c) || c == '_'
}

/// The `len` characters at `start` of `chars` form a whole word: neither
/// the character before them nor the one after them is a word character.
pub open spec fn whole_word_at(chars: Seq<char>, start: int, len: int) -> bool {
    &&& (start == 0 || !word_char(chars[start - 1]))
    &&& (start + len >= chars.len() || !word_char(chars[start + len]))
}

/// Whether `ch` is a word character.
pub fn is_word_char(ch: char) -> (r: bool)
    ensures
        r == word_char(ch),
{
    char_is_alphanumeric(ch) || ch == '_'
}

/// Whether the `len` characters at `start` of `chars` form a whole word.
pub fn is_whole_word_match(chars: &[char], start: usize, len: usize) -> (r: bool)
    requires
        start <= chars@.len(),
        start + len <= usize::MAX,
    ensures
        r == whole_word_at(chars@, start as int, len as int),
{
    let before_ok = start == 0 || !is_word_char(chars[start - 1]);
    let after_index = start + len;
    let after_ok = after_index >= chars.len() || !is_word_char(chars[after_index]);
    before_ok && after_ok
}

// ---------------------------------------------------------------------------
// Case folding
// ---------------------------------------------------------------------------

/// The case-folded form of `s`: each character replaced by what
/// `char::to_lowercase` yields for it.
pub open spec fn fold(s: Seq<char>) -> Seq<char>
    decreases s.len(),
{
    if s.len() == 0 {
        Seq::empty()
    } else {
        fold(s.drop_last()) + lowercase(s.last())
    }
}

/// The index in `fold(chars)` at which the folded form of character `i` of
/// `chars` starts (the length of the folded form of the first `i`).
pub open spec fn folded_bound(chars: Seq<char>, i: int) -> nat {
    fold(chars.take(i)).len()
}

proof fn lemma_fold_step(s: Seq<char>, i: int)
    requires
        0 <= i < s.len(),
    ensures
        fold(s.take(i + 1)) == fold(s.take(i)) + lowercase(s[i]),
{
    assert(s.take(i + 1).drop_last() =~= s.take(i));
}

/// Folds the characters of `s`.
pub fn fold_chars(s: &[char]) -> (r: Vec<char>)
    ensures
        r@ == fold(s@),
        r@.len() >= s@.len(),
{
    let mut out: Vec<char> = Vec::new();
    let mut i: usize = 0;
    assert(s@.take(0) =~= Seq::<char>::empty());
    while i < s.len()
        invariant
            i <= s@.len(),
            out@ == fold(s@.take(i as int)),
            out@.len() >= i,
        decreases s@.len() - i,
    {
        let lower = char_to_lowercase(s[i]);
        let mut j: usize = 0;
        let ghost before = out@;
        while j < lower.len()
            invariant
                j <= lower@.len(),
                out@ == before + lower@.take(j as int),
            decreases lower@.len() - j,
        {
            out.push(lower[j]);
            j = j + 1;
            assert(lower@.take(j as int) =~= lower@.take(j - 1).push(lower@[j - 1]));
        }
        assert(lower@.take(j as int) =~= lower@);
        proof {
            lemma_fold_step(s@, i as int);
        }
        i = i + 1;
    }
    assert(s@.take(s@.len() as int) =~= s@);
    out
}

/// Folds the case of `text`, character by character.
pub fn fold_case(text: &str) -> (r: String)
    ensures
        r@ == fold(text@),
{
    let chars = chars_of(text);
    let folded = fold_chars(chars.as_slice());
    string_from_chars(folded.as_slice())
}

/// Whether `left` and `right` are equal, exactly when `case_sensitive`,
/// else once both are case-folded.
pub fn strings_match_case(left: &str, right: &str, case_sensitive: bool) -> (r: bool)
    ensures
        r == if case_sensitive {
            left@ == right@
        } else {
            fold(left@) == fold(right@)
        },
{
    let l = chars_of(left);
    let r = chars_of(right);
    if case_sensitive {
        same_chars(l.as_slice(), r.as_slice())
    } else {
        let lf = fold_chars(l.as_slice());
        let rf = fold_chars(r.as_slice());
        same_chars(lf.as_slice(), rf.as_slice())
    }
}

/// A text together with its case-folded form and, for each character
/// index of the text, the index in the folded form where it starts.
pub struct FoldedText {
    pub text: Vec<char>,
    pub boundaries: Vec<usize>,
}

impl FoldedText {
    /// This is the folded form of `source`, with its boundaries.
    pub open spec fn wf(&self, source: Seq<char>) -> bool {
        &&& self.text@ == fold(source)
        &&& self.boundaries@.len() == source.len() + 1
        &&& forall|i: int| 0 <= i <= source.len() ==> #[trigger] self.boundaries@[i] == folded_bound(source, i)
        &&& forall|i: int, j: int| 0 <= i < j <= source.len() ==> self.boundaries@[i] < self.boundaries@[j]
    }

    /// Folds `source` and records where each of its characters starts.
    pub fn new(source: &[char]) -> (r: FoldedText)
        ensures
            r.wf(source@),
    {
        let mut text: Vec<char> = Vec::new();
        let mut boundaries: Vec<usize> = Vec::new();
        boundaries.push(0);
        let mut i: usize = 0;
        assert(source@.take(0) =~= Seq::<char>::empty());
        while i < source.len()
            invariant
                i <= source@.len(),
                text@ == fold(source@.take(i as int)),
                boundaries@.len() == i + 1,
                forall|k: int| 0 <= k <= i ==> #[trigger] boundaries@[k] == folded_bound(source@, k),
                forall|k: int, l: int| 0 <= k < l <= i ==> boundaries@[k] < boundaries@[l],
                boundaries@[i as int] == text@.len(),
            decreases source@.len() - i,
        {
            let lower = char_to_lowercase(source[i]);
            let mut j: usize = 0;
            let ghost before = text@;
            while j < lower.len()
                invariant
                    j <= lower@.len(),
                    text@ == before + lower@.take(j as int),
                decreases lower@.len() - j,
            {
                text.push(lower[j]);
                j = j + 1;
                assert(lower@.take(j as int) =~= lower@.take(j - 1).push(lower@[j - 1]));
            }
            assert(lower@.take(j as int) =~= lower@);
            proof {
                lemma_fold_step(source@, i as int);
            }
            boundaries.push(text.len());
            i = i + 1;
        }
        assert(source@.take(source@.len() as int) =~= source@);
        FoldedText { text, boundaries }
    }
}

// ---------------------------------------------------------------------------
// Positions in sorted boundaries
// ---------------------------------------------------------------------------

pub open spec fn strictly_increasing(b: Seq<usize>) -> bool {
    forall|i: int, j: int| 0 <= i < j < b.len() ==> b[i] < b[j]
}

/// The first of `boundaries`, in order, that is greater than `value`.
pub fn next_boundary_after(boundaries: &[usize], value: usize) -> (r: Option<usize>)
    ensures
        match r {
            Some(b) => exists|i: int|
                0 <= i < boundaries@.len() && boundaries@[i] == b && b > value && forall|k: int|
                    0 <= k < i ==> boundaries@[k] <= value,
            None => forall|k: int| 0 <= k < boundaries@.len() ==> boundaries@[k] <= value,
        },
{
    match next_boundary_index(boundaries, value) {
        Some(i) => Some(boundaries[i]),
        None => None,
    }
}

/// The index of the first of `boundaries` that is greater than `value`.
fn next_boundary_index(boundaries: &[usize], value: usize) -> (r: Option<usize>)
    ensures
        match r {
            Some(i) => i < boundaries@.len() && boundaries@[i as int] > value && forall|k: int|
                0 <= k < i ==> boundaries@[k] <= value,
            None => forall|k: int| 0 <= k < boundaries@.len() ==> boundaries@[k] <= value,
        },
{
    let mut i: usize = 0;
    while i < boundaries.len()
        invariant
            i <= boundaries@.len(),
            forall|k: int| 0 <= k < i ==> boundaries@[k] <= value,
        decreases boundaries@.len() - i,
    {
        if boundaries[i] > value {
            return Some(i);
        }
        i = i + 1;
    }
    None
}

/// The index at which `value` stands in the strictly increasing
/// `boundaries`, if it does (a binary search).
fn boundary_index(boundaries: &[usize], value: usize) -> (r: Option<usize>)
    requires
        strictly_increasing(boundaries@),
    ensures
        match r {
            Some(i) => i < boundaries@.len() && boundaries@[i as int] == value,
            None => forall|k: int| 0 <= k < boundaries@.len() ==> boundaries@[k] != value,
        },
{
    let mut lo: usize = 0;
    let mut hi: usize = boundaries.len();
    while lo < hi
        invariant
            lo <= hi <= boundaries@.len(),
            strictly_increasing(boundaries@),
            forall|k: int| 0 <= k < lo ==> boundaries@[k] < value,
            forall|k: int| hi <= k < boundaries@.len() ==> boundaries@[k] > value,
        decreases hi - lo,
    {
        let mid = lo + (hi - lo) / 2;
        if boundaries[mid] == value {
            return Some(mid);
        } else if boundaries[mid] < value {
            lo = mid + 1;
        } else {
            hi = mid;
        }
    }
    None
}

// ---------------------------------------------------------------------------
// Substring search
// ---------------------------------------------------------------------------

/// `needle` occurs in `hay` at index `i`.
pub open spec fn matches_at(hay: Seq<char>, needle: Seq<char>, i: int) -> bool {
    0 <= i && i + needle.len() <= hay.len() && hay.subrange(i, i + needle.len()) == needle
}

fn matches_here(hay: &[char], needle: &[char], i: usize) -> (r: bool)
    requires
        i + needle@.len() <= hay@.len(),
    ensures
        r == matches_at(hay@, needle@, i as int),
{
    let hay_len = hay.len();
    let mut k: usize = 0;
    while k < needle.len()
        invariant
            hay_len == hay@.len(),
            i + needle@.len() <= hay@.len(),
            k <= needle@.len(),
            forall|m: int| 0 <= m < k ==> hay@[i + m] == needle@[m],
        decreases needle@.len() - k,
    {
        if hay[i + k] != needle[k] {
            assert(hay@.subrange(i as int, i + needle@.len())[k as int] != needle@[k as int]);
            return false;
        }
        k = k + 1;
    }
    assert(hay@.subrange(i as int, i + needle@.len()) =~= needle@);
    true
}

/// The first index at or after `from` at which `needle` occurs in `hay`
/// and ends at or before `limit`.
pub(crate) fn find_from(hay: &[char], needle: &[char], from: usize, limit: usize) -> (r: Option<usize>)
    requires
        limit <= hay@.len(),
    ensures
        match r {
            Some(q) => from <= q && q + needle@.len() <= limit && matches_at(hay@, needle@, q as int)
                && forall|p: int| from <= p < q ==> !matches_at(hay@, needle@, p),
            None => forall|p: int|
                from <= p && p + needle@.len() <= limit ==> !matches_at(hay@, needle@, p),
        },
{
    if needle.len() > limit {
        return None;
    }
    let last = limit - needle.len();
    let mut p = from;
    while p <= last
        invariant
            limit <= hay@.len(),
            last + needle@.len() == limit,
            from <= p,
            forall|q: int| from <= q < p ==> !matches_at(hay@, needle@, q),
        decreases last + 1 - p,
    {
        if matches_here(hay, needle, p) {
            return Some(p);
        }
        if p == last {
            return None;
        }
        p = p + 1;
    }
    None
}

// ---------------------------------------------------------------------------
// Case-sensitive search
// ---------------------------------------------------------------------------

/// `needle` occurs at index `i` of `chars` and, when `whole_word`, forms a
/// whole word there.
pub open spec fn exact_hit(chars: Seq<char>, needle: Seq<char>, i: int, whole_word: bool) -> bool {
    matches_at(chars, needle, i) && (!whole_word || whole_word_at(chars, i, needle.len() as int))
}

/// The first index at or after `i` at which there is an [`exact_hit`].
pub open spec fn first_exact_hit(chars: Seq<char>, needle: Seq<char>, i: int, whole_word: bool) -> Option<int>
    decreases chars.len() + 1 - i,
{
    if i < 0 || i > chars.len() {
        None
    } else if exact_hit(chars, needle, i, whole_word) {
        Some(i)
    } else {
        first_exact_hit(chars, needle, i + 1, whole_word)
    }
}

proof fn lemma_first_exact_skip(chars: Seq<char>, needle: Seq<char>, a: int, b: int, ww: bool)
    requires
        0 <= a <= b,
        forall|p: int| a <= p < b ==> !exact_hit(chars, needle, p, ww),
    ensures
        first_exact_hit(chars, needle, a, ww) == if b <= chars.len() + 1 {
            first_exact_hit(chars, needle, b, ww)
        } else {
            None
        },
    decreases b - a,
{
    if a < b && a <= chars.len() {
        lemma_first_exact_skip(chars, needle, a + 1, b, ww);
    }
}

/// The matches of `needle` in the first `limit` characters that a left to
/// right scan from `p` finds, each scan resuming after the previous match
/// (so matches do not overlap), as `str::match_indices` finds them; of
/// those that form a whole word when `whole_word`, the last one.
pub open spec fn last_exact_hit(chars: Seq<char>, needle: Seq<char>, limit: int, p: int, whole_word: bool) -> Option<int>
    decreases limit + 1 - p,
{
    if needle.len() == 0 || p < 0 || p + needle.len() > limit {
        None
    } else if matches_at(chars, needle, p) {
        match last_exact_hit(chars, needle, limit, p + needle.len(), whole_word) {
            Some(x) => Some(x),
            None => if !whole_word || whole_word_at(chars, p, needle.len() as int) {
                Some(p)
            } else {
                None
            },
        }
    } else {
        last_exact_hit(chars, needle, limit, p + 1, whole_word)
    }
}

proof fn lemma_last_exact_skip(chars: Seq<char>, needle: Seq<char>, limit: int, a: int, b: int, ww: bool)
    requires
        0 <= a <= b,
        needle.len() > 0,
        forall|p: int| a <= p < b && p + needle.len() <= limit ==> !matches_at(chars, needle, p),
    ensures
        last_exact_hit(chars, needle, limit, a, ww) == last_exact_hit(chars, needle, limit, b, ww),
    decreases b - a,
{
    if a < b {
        lemma_last_exact_skip(chars, needle, limit, a + 1, b, ww);
    }
}

/// Searches forward from character `start_char` (clamped to the length)
/// for the first occurrence of `needle` that, when `whole_word`, is a whole
/// word; returns its start and length.
pub fn find_case_sensitive_forward(chars: &[char], needle: &[char], start_char: usize, whole_word: bool) -> (r: Option<(usize, usize)>)
    requires
        needle@.len() > 0,
    ensures
        ({
            let spec_r = first_exact_hit(chars@, needle@, if start_char <= chars@.len() { start_char as int } else { chars@.len() as int }, whole_word);
            &&& r is Some <==> spec_r is Some
            &&& r matches Some(x) ==> spec_r == Some(x.0 as int) && x.1 == needle@.len()
        }),
{
    let n = chars.len();
    let start = if start_char <= n { start_char } else { n };
    let mut search_from = start;
    loop
        invariant
            start <= search_from <= n,
            n == chars@.len(),
            start == (if start_char <= n { start_char } else { n }),
            needle@.len() > 0,
            first_exact_hit(chars@, needle@, start as int, whole_word) == first_exact_hit(chars@, needle@, search_from as int, whole_word),
        decreases n - search_from,
    {
        match find_from(chars, needle, search_from, n) {
            None => {
                proof {
                    lemma_first_exact_skip(chars@, needle@, search_from as int, n + 1, whole_word);
                    assert(first_exact_hit(chars@, needle@, n + 1, whole_word) is None);
                    assert(first_exact_hit(chars@, needle@, start as int, whole_word) is None);
                }
                return None;
            }
            Some(q) => {
                proof {
                    lemma_first_exact_skip(chars@, needle@, search_from as int, q as int, whole_word);
                }
                if !whole_word || is_whole_word_match(chars, q, needle.len()) {
                    return Some((q, needle.len()));
                }
                search_from = q + 1;
            }
        }
    }
}

/// Searches backward: of the non-overlapping occurrences of `needle` that
/// a left to right scan finds before character `end_char` (clamped to the
/// length), the last one that, when `whole_word`, is a whole word.
pub fn find_case_sensitive_backward(chars: &[char], needle: &[char], end_char: usize, whole_word: bool) -> (r: Option<(usize, usize)>)
    requires
        needle@.len() > 0,
    ensures
        ({
            let spec_r = last_exact_hit(chars@, needle@, if end_char <= chars@.len() { end_char as int } else { chars@.len() as int }, 0, whole_word);
            &&& r is Some <==> spec_r is Some
            &&& r matches Some(x) ==> spec_r == Some(x.0 as int) && x.1 == needle@.len()
        }),
{
    let n = chars.len();
    let limit = if end_char <= n { end_char } else { n };
    let ghost lim = limit as int;
    let mut last_valid: Option<(usize, usize)> = None;
    let mut p: usize = 0;
    loop
        invariant
            p <= limit,
            limit <= n,
            limit == (if end_char <= n { end_char } else { n }),
            n == chars@.len(),
            lim == limit,
            needle@.len() > 0,
            last_valid matches Some(v) ==> v.1 == needle@.len(),
            ({
                let spec_r = last_exact_hit(chars@, needle@, lim, 0, whole_word);
                let rest = last_exact_hit(chars@, needle@, lim, p as int, whole_word);
                spec_r == match rest {
                    Some(x) => Some(x),
                    None => match last_valid { Some(v) => Some(v.0 as int), None => None },
                }
            }),
        decreases limit + 1 - p,
    {
        match find_from(chars, needle, p, limit) {
            None => {
                proof {
                    lemma_last_exact_skip(chars@, needle@, lim, p as int, lim + 1, whole_word);
                }
                return last_valid;
            }
            Some(q) => {
                proof {
                    lemma_last_exact_skip(chars@, needle@, lim, p as int, q as int, whole_word);
                }
                if !whole_word || is_whole_word_match(chars, q, needle.len()) {
                    last_valid = Some((q, needle.len()));
                }
                p = q + needle.len();
            }
        }
    }
}


// ---------------------------------------------------------------------------
// Case-insensitive search
// ---------------------------------------------------------------------------

/// Characters `s` to `e` of `chars` fold to exactly an occurrence of
/// `needle` in the folded text and, when `whole_word`, form a whole word.
pub open spec fn folded_hit(chars: Seq<char>, needle: Seq<char>, s: int, e: int, whole_word: bool) -> bool {
    &&& 0 <= s <= e <= chars.len()
    &&& folded_bound(chars, e) == folded_bound(chars, s) + needle.len()
    &&& matches_at(fold(chars), needle, folded_bound(chars, s) as int)
    &&& (!whole_word || whole_word_at(chars, s, e - s))
}

/// Some characters starting at `s` make a [`folded_hit`].
pub open spec fn folded_hit_at(chars: Seq<char>, needle: Seq<char>, s: int, whole_word: bool) -> bool {
    exists|e: int| folded_hit(chars, needle, s, e, whole_word)
}

/// The length of the characters that make a [`folded_hit`] at `s`.
pub open spec fn folded_match_len(chars: Seq<char>, needle: Seq<char>, s: int, whole_word: bool) -> int {
    (choose|e: int| folded_hit(chars, needle, s, e, whole_word)) - s
}

/// The first character index at or after `s` at which a [`folded_hit`]
/// starts.
pub open spec fn first_folded_hit(chars: Seq<char>, needle: Seq<char>, s: int, whole_word: bool) -> Option<int>
    decreases chars.len() + 1 - s,
{
    if s < 0 || s > chars.len() {
        None
    } else if folded_hit_at(chars, needle, s, whole_word) {
        Some(s)
    } else {
        first_folded_hit(chars, needle, s + 1, whole_word)
    }
}

proof fn lemma_first_folded_skip(chars: Seq<char>, needle: Seq<char>, a: int, b: int, ww: bool)
    requires
        0 <= a <= b,
        forall|p: int| a <= p < b ==> !folded_hit_at(chars, needle, p, ww),
    ensures
        first_folded_hit(chars, needle, a, ww) == if b <= chars.len() + 1 {
            first_folded_hit(chars, needle, b, ww)
        } else {
            None
        },
    decreases b - a,
{
    if a < b && a <= chars.len() {
        lemma_first_folded_skip(chars, needle, a + 1, b, ww);
    }
}

/// For an occurrence of `needle` at index `p` of the folded text: the start
/// and length of the characters whose folded forms it spans, when it starts
/// and ends where characters start and, when `whole_word`, those characters
/// form a whole word.
pub open spec fn folded_candidate(chars: Seq<char>, needle: Seq<char>, p: int, whole_word: bool) -> Option<(int, int)> {
    if exists|s: int, e: int|
        0 <= s <= e <= chars.len() && folded_bound(chars, s) == p && folded_bound(chars, e) == p
            + needle.len() && (!whole_word || whole_word_at(chars, s, e - s)) {
        let (s, e) = choose|s: int, e: int|
            0 <= s <= e <= chars.len() && folded_bound(chars, s) == p && folded_bound(chars, e) == p
                + needle.len() && (!whole_word || whole_word_at(chars, s, e - s));
        Some((s, e - s))
    } else {
        None
    }
}

/// The occurrences of `needle` in the first `limit` characters of the
/// folded text that a left to right scan from `p` finds, each scan resuming
/// after the previous occurrence; of those that have a
/// [`folded_candidate`], the candidate of the last one.
pub open spec fn last_folded_hit(chars: Seq<char>, needle: Seq<char>, limit: int, p: int, whole_word: bool) -> Option<(int, int)>
    decreases limit + 1 - p,
{
    if needle.len() == 0 || p < 0 || p + needle.len() > limit {
        None
    } else if matches_at(fold(chars), needle, p) {
        match last_folded_hit(chars, needle, limit, p + needle.len(), whole_word) {
            Some(x) => Some(x),
            None => folded_candidate(chars, needle, p, whole_word),
        }
    } else {
        last_folded_hit(chars, needle, limit, p + 1, whole_word)
    }
}

proof fn lemma_last_folded_skip(chars: Seq<char>, needle: Seq<char>, limit: int, a: int, b: int, ww: bool)
    requires
        0 <= a <= b,
        needle.len() > 0,
        forall|p: int| a <= p < b && p + needle.len() <= limit ==> !matches_at(fold(chars), needle, p),
    ensures
        last_folded_hit(chars, needle, limit, a, ww) == last_folded_hit(chars, needle, limit, b, ww),
    decreases b - a,
{
    if a < b {
        lemma_last_folded_skip(chars, needle, limit, a + 1, b, ww);
    }
}

/// Searches the folded text forward from character `start_char` (clamped
/// to the length) for the first occurrence of the folded `needle` that
/// spans whole characters and, when `whole_word`, a whole word; returns the
/// start and length of those characters.
pub fn find_folded_forward(folded: &FoldedText, needle: &[char], chars: &[char], start_char: usize, whole_word: bool) -> (r: Option<(usize, usize)>)
    requires
        folded.wf(chars@),
        needle@.len() > 0,
    ensures
        ({
            let spec_r = first_folded_hit(chars@, needle@, if start_char <= chars@.len() { start_char as int } else { chars@.len() as int }, whole_word);
            &&& r is Some <==> spec_r is Some
            &&& r matches Some(x) ==> spec_r == Some(x.0 as int) && folded_hit(chars@, needle@, x.0 as int, x.0 + x.1, whole_word)
                && folded_match_len(chars@, needle@, x.0 as int, whole_word) == x.1
        }),
{
    let n = chars.len();
    let start = if start_char <= n { start_char } else { n };
    let flen = folded.text.len();
    let ghost bnd = folded.boundaries@;
    let ghost f = folded.text@;
    proof {
        assert(chars@.take(n as int) =~= chars@);
        assert(bnd[n as int] == flen);
    }
    let mut search_from = folded.boundaries[start];
    let ghost mut k: int = start as int;
    loop
        invariant
            folded.wf(chars@),
            n == chars@.len(),
            flen == f.len(),
            f == folded.text@,
            bnd == folded.boundaries@,
            bnd[n as int] == flen,
            needle@.len() > 0,
            start == (if start_char <= n { start_char } else { n }),
            start <= k <= n,
            search_from == bnd[k],
            first_folded_hit(chars@, needle@, start as int, whole_word) == first_folded_hit(chars@, needle@, k, whole_word),
        decreases flen - search_from,
    {
        let found = find_from(&folded.text, needle, search_from, flen);
        match found {
            None => {
                proof {
                    assert forall|p: int| k <= p < n + 1 implies !folded_hit_at(chars@, needle@, p, whole_word) by {
                        if folded_hit_at(chars@, needle@, p, whole_word) {
                            let e = choose|e: int| folded_hit(chars@, needle@, p, e, whole_word);
                            assert(bnd[p] == folded_bound(chars@, p));
                            if p > k {
                                assert(bnd[k] < bnd[p]);
                            }
                        }
                    }
                    lemma_first_folded_skip(chars@, needle@, k, n + 1, whole_word);
                }
                return None;
            }
            Some(q) => {
                let end_byte = q + needle.len();
                let start_idx = boundary_index(&folded.boundaries, q);
                let end_idx = boundary_index(&folded.boundaries, end_byte);
                let hit = match (start_idx, end_idx) {
                    (Some(s), Some(e)) => Some((s, e)),
                    _ => None,
                };
                match hit {
                    None => {
                        match next_boundary_after(&folded.boundaries, q) {
                            None => {
                                proof {
                                    assert(bnd[n as int] <= q);
                                }
                                return None;
                            }
                            Some(b) => {
                                let ghost j = choose|i: int|
                                    0 <= i < bnd.len() && bnd[i] == b && b > q && forall|m: int|
                                        0 <= m < i ==> bnd[m] <= q;
                                proof {
                                    if j <= k {
                                        if j < k {
                                            assert(bnd[j] < bnd[k]);
                                        }
                                    }
                                    assert forall|p: int| k <= p < j implies !folded_hit_at(chars@, needle@, p, whole_word) by {
                                        if folded_hit_at(chars@, needle@, p, whole_word) {
                                            let e = choose|e: int| folded_hit(chars@, needle@, p, e, whole_word);
                                            assert(bnd[p] == folded_bound(chars@, p));
                                            assert(bnd[e] == folded_bound(chars@, e));
                                            if p > k {
                                                assert(bnd[k] < bnd[p]);
                                            }
                                            assert(bnd[p] <= q);
                                        }
                                    }
                                    lemma_first_folded_skip(chars@, needle@, k, j, whole_word);
                                }
                                search_from = b;
                                proof {
                                    k = j;
                                }
                            }
                        }
                    }
                    Some((s, e)) => {
                        proof {
                            if s <= k {
                                if s < k {
                                    assert(bnd[s as int] < bnd[k]);
                                }
                            }
                            if e <= s {
                                if e < s {
                                    assert(bnd[e as int] < bnd[s as int]);
                                }
                            }
                            assert forall|p: int| k <= p < s implies !folded_hit_at(chars@, needle@, p, whole_word) by {
                                if folded_hit_at(chars@, needle@, p, whole_word) {
                                    let e2 = choose|e2: int| folded_hit(chars@, needle@, p, e2, whole_word);
                                    assert(bnd[p] == folded_bound(chars@, p));
                                    if p > k {
                                        assert(bnd[k] < bnd[p]);
                                    }
                                    assert(bnd[p] < bnd[s as int]);
                                }
                            }
                            lemma_first_folded_skip(chars@, needle@, k, s as int, whole_word);
                            assert(bnd[s as int] == folded_bound(chars@, s as int));
                            assert(bnd[e as int] == folded_bound(chars@, e as int));
                        }
                        let len = e - s;
                        if !whole_word || is_whole_word_match(chars, s, len) {
                            proof {
                                assert(folded_hit(chars@, needle@, s as int, e as int, whole_word));
                                let e2 = choose|e2: int| folded_hit(chars@, needle@, s as int, e2, whole_word);
                                assert(bnd[e2] == folded_bound(chars@, e2));
                                if e2 < e {
                                    assert(bnd[e2] < bnd[e as int]);
                                } else if e2 > e {
                                    assert(bnd[e as int] < bnd[e2]);
                                }
                            }
                            return Some((s, len));
                        }
                        proof {
                            assert(!folded_hit_at(chars@, needle@, s as int, whole_word)) by {
                                if folded_hit_at(chars@, needle@, s as int, whole_word) {
                                    let e2 = choose|e2: int| folded_hit(chars@, needle@, s as int, e2, whole_word);
                                    assert(bnd[e2] == folded_bound(chars@, e2));
                                    if e2 < e {
                                        assert(bnd[e2] < bnd[e as int]);
                                    } else if e2 > e {
                                        assert(bnd[e as int] < bnd[e2]);
                                    }
                                }
                            }
                            if s >= n {
                                assert(bnd[s as int] == flen);
                            }
                            assert(bnd[s + 1] > bnd[s as int]);
                        }
                        search_from = folded.boundaries[s + 1];
                        proof {
                            k = s + 1;
                        }
                    }
                }
            }
        }
    }
}

/// Searches the folded text backward: of the non-overlapping occurrences of
/// the folded `needle` that a left to right scan finds before the folded
/// form of character `end_char` (clamped to the length), the last one that
/// spans whole characters and, when `whole_word`, a whole word; returns the
/// start and length of those characters.
pub fn find_folded_backward(folded: &FoldedText, needle: &[char], chars: &[char], end_char: usize, whole_word: bool) -> (r: Option<(usize, usize)>)
    requires
        folded.wf(chars@),
        needle@.len() > 0,
    ensures
        ({
            let limit = folded_bound(chars@, if end_char <= chars@.len() { end_char as int } else { chars@.len() as int });
            let spec_r = last_folded_hit(chars@, needle@, limit as int, 0, whole_word);
            &&& r is Some <==> spec_r is Some
            &&& r matches Some(x) ==> spec_r == Some((x.0 as int, x.1 as int))
        }),
{
    let n = chars.len();
    let end = if end_char <= n { end_char } else { n };
    let limit = folded.boundaries[end];
    let ghost bnd = folded.boundaries@;
    let ghost lim = limit as int;
    proof {
        assert(chars@.take(n as int) =~= chars@);
        assert(bnd[n as int] == folded.text@.len());
        if end < n {
            assert(bnd[end as int] < bnd[n as int]);
        }
    }
    let mut last_valid: Option<(usize, usize)> = None;
    let mut p: usize = 0;
    loop
        invariant
            folded.wf(chars@),
            n == chars@.len(),
            bnd == folded.boundaries@,
            bnd[n as int] == folded.text@.len(),
            needle@.len() > 0,
            end == (if end_char <= n { end_char } else { n }),
            limit == bnd[end as int],
            lim == limit,
            limit <= folded.text@.len(),
            p <= limit,
            ({
                let spec_r = last_folded_hit(chars@, needle@, lim, 0, whole_word);
                let rest = last_folded_hit(chars@, needle@, lim, p as int, whole_word);
                spec_r == match rest {
                    Some(x) => Some(x),
                    None => match last_valid { Some(v) => Some((v.0 as int, v.1 as int)), None => None },
                }
            }),
        decreases limit + 1 - p,
    {
        match find_from(&folded.text, needle, p, limit) {
            None => {
                proof {
                    lemma_last_folded_skip(chars@, needle@, lim, p as int, lim + 1, whole_word);
                }
                return last_valid;
            }
            Some(q) => {
                proof {
                    lemma_last_folded_skip(chars@, needle@, lim, p as int, q as int, whole_word);
                }
                let end_byte = q + needle.len();
                let start_idx = boundary_index(&folded.boundaries, q);
                let end_idx = boundary_index(&folded.boundaries, end_byte);
                let ghost cand = folded_candidate(chars@, needle@, q as int, whole_word);
                match (start_idx, end_idx) {
                    (Some(s), Some(e)) => {
                        proof {
                            if e <= s {
                                if e < s {
                                    assert(bnd[e as int] < bnd[s as int]);
                                }
                            }
                            assert(bnd[s as int] == folded_bound(chars@, s as int));
                            assert(bnd[e as int] == folded_bound(chars@, e as int));
                        }
                        let ok = !whole_word || is_whole_word_match(chars, s, e - s);
                        proof {
                            assert forall|s2: int, e2: int|
                                0 <= s2 <= e2 <= chars@.len() && folded_bound(chars@, s2) == q
                                    && folded_bound(chars@, e2) == q + needle@.len() implies s2 == s
                                && e2 == e by {
                                assert(bnd[s2] == folded_bound(chars@, s2));
                                assert(bnd[e2] == folded_bound(chars@, e2));
                                if s2 < s {
                                    assert(bnd[s2] < bnd[s as int]);
                                } else if s2 > s {
                                    assert(bnd[s as int] < bnd[s2]);
                                }
                                if e2 < e {
                                    assert(bnd[e2] < bnd[e as int]);
                                } else if e2 > e {
                                    assert(bnd[e as int] < bnd[e2]);
                                }
                            }
                            if ok {
                                assert(cand == Some((s as int, e - s)));
                            } else {
                                assert(cand is None);
                            }
                        }
                        if ok {
                            last_valid = Some((s, e - s));
                        }
                    }
                    _ => {
                        proof {
                            assert(cand is None) by {
                                if cand is Some {
                                    let (s2, e2) = choose|s2: int, e2: int|
                                        0 <= s2 <= e2 <= chars@.len() && folded_bound(chars@, s2) == q
                                            && folded_bound(chars@, e2) == q + needle@.len() && (!whole_word
                                            || whole_word_at(chars@, s2, e2 - s2));
                                    assert(bnd[s2] == folded_bound(chars@, s2));
                                    assert(bnd[e2] == folded_bound(chars@, e2));
                                }
                            }
                        }
                    }
                }
                p = end_byte;
            }
        }
    }
}

// ---------------------------------------------------------------------------
// Find and Replace All
// ---------------------------------------------------------------------------

/// `i`, or `n` when `i` is past it.
pub open spec fn clamp(i: int, n: int) -> int {
    if i <= n { i } else { n }
}

/// An executable search result agrees with a specified one.
pub open spec fn same_match(r: Option<(usize, usize)>, s: Option<(int, int)>) -> bool {
    match (r, s) {
        (None, None) => true,
        (Some(a), Some(b)) => a.0 as int == b.0 && a.1 as int == b.1,
        _ => false,
    }
}

/// One search, without wrapping: forward from character `start`, or
/// backward from it, case-sensitive or on folded text, as the Find dialog's
/// options say. The result is a start and a length, in characters.
pub open spec fn search_once(text: Seq<char>, find: Seq<char>, case_sensitive: bool, whole_word: bool, start: int, forward: bool) -> Option<(int, int)> {
    let from = clamp(start, text.len() as int);
    if case_sensitive {
        let hit = if forward {
            first_exact_hit(text, find, from, whole_word)
        } else {
            last_exact_hit(text, find, from, 0, whole_word)
        };
        match hit {
            Some(i) => Some((i, find.len() as int)),
            None => None,
        }
    } else {
        let needle = fold(find);
        if forward {
            match first_folded_hit(text, needle, from, whole_word) {
                Some(s) => Some((s, folded_match_len(text, needle, s, whole_word))),
                None => None,
            }
        } else {
            last_folded_hit(text, needle, folded_bound(text, from) as int, 0, whole_word)
        }
    }
}

/// The Find dialog's search: nothing for an empty search text; else one
/// search from `start`, and, when that finds nothing and `wrap` is set, a
/// second one from the start of the text (forward) or its end (backward).
pub open spec fn search(text: Seq<char>, find: Seq<char>, case_sensitive: bool, whole_word: bool, start: int, forward: bool, wrap: bool) -> Option<(int, int)> {
    if find.len() == 0 {
        None
    } else {
        match search_once(text, find, case_sensitive, whole_word, start, forward) {
            Some(x) => Some(x),
            None => if wrap {
                search_once(text, find, case_sensitive, whole_word, if forward { 0 } else { text.len() as int }, forward)
            } else {
                None
            },
        }
    }
}

fn search_once_exec(text: &[char], find: &[char], case_sensitive: bool, whole_word: bool, start: usize, forward: bool) -> (r: Option<(usize, usize)>)
    requires
        find@.len() > 0,
    ensures
        same_match(r, search_once(text@, find@, case_sensitive, whole_word, start as int, forward)),
        r matches Some(x) ==> 1 <= x.1 && x.0 + x.1 <= text@.len(),
        forward ==> (r matches Some(x) ==> clamp(start as int, text@.len() as int) <= x.0),
{
    if case_sensitive {
        let r = if forward {
            find_case_sensitive_forward(text, find, start, whole_word)
        } else {
            find_case_sensitive_backward(text, find, start, whole_word)
        };
        proof {
            if forward {
                let from = clamp(start as int, text@.len() as int);
                if let Some(x) = r {
                    lemma_first_exact_found(text@, find@, from, whole_word);
                }
            } else if let Some(x) = r {
                lemma_last_exact_found(text@, find@, clamp(start as int, text@.len() as int), 0, whole_word);
            }
        }
        r
    } else {
        let needle = fold_chars(find);
        let folded = FoldedText::new(text);
        proof {
            assert(text@.take(text@.len() as int) =~= text@);
        }
        if forward {
            let r = find_folded_forward(&folded, needle.as_slice(), text, start, whole_word);
            proof {
                if let Some(x) = r {
                    let from = clamp(start as int, text@.len() as int);
                    lemma_first_folded_found(text@, needle@, from, whole_word);
                    let e = x.0 + x.1;
                    if x.1 < 1 {
                        assert(folded.boundaries@[e] == folded_bound(text@, e));
                        assert(folded.boundaries@[x.0 as int] == folded_bound(text@, x.0 as int));
                        if x.1 < 0 {
                            assert(folded.boundaries@[e] < folded.boundaries@[x.0 as int]);
                        }
                    }
                }
            }
            r
        } else {
            let r = find_folded_backward(&folded, needle.as_slice(), text, start, whole_word);
            proof {
                if let Some(x) = r {
                    let from = clamp(start as int, text@.len() as int);
                    lemma_last_folded_found(text@, needle@, folded_bound(text@, from) as int, 0, whole_word);
                    let (s2, e2) = choose|s2: int, e2: int|
                        0 <= s2 <= e2 <= text@.len() && folded_bound(text@, e2) == folded_bound(text@, s2)
                            + needle@.len() && s2 == x.0 && e2 - s2 == x.1;
                    assert(e2 != s2);
                }
            }
            r
        }
    }
}

proof fn lemma_first_exact_found(chars: Seq<char>, needle: Seq<char>, i: int, ww: bool)
    ensures
        first_exact_hit(chars, needle, i, ww) matches Some(j) ==> i <= j && exact_hit(chars, needle, j, ww),
    decreases chars.len() + 1 - i,
{
    if 0 <= i <= chars.len() && !exact_hit(chars, needle, i, ww) {
        lemma_first_exact_found(chars, needle, i + 1, ww);
    }
}

proof fn lemma_first_folded_found(chars: Seq<char>, needle: Seq<char>, i: int, ww: bool)
    ensures
        first_folded_hit(chars, needle, i, ww) matches Some(j) ==> i <= j && folded_hit_at(chars, needle, j, ww),
    decreases chars.len() + 1 - i,
{
    if 0 <= i <= chars.len() && !folded_hit_at(chars, needle, i, ww) {
        lemma_first_folded_found(chars, needle, i + 1, ww);
    }
}

proof fn lemma_last_exact_found(chars: Seq<char>, needle: Seq<char>, limit: int, p: int, ww: bool)
    ensures
        last_exact_hit(chars, needle, limit, p, ww) matches Some(j) ==> p <= j && exact_hit(chars, needle, j, ww),
    decreases limit + 1 - p,
{
    if needle.len() > 0 && p >= 0 && p + needle.len() <= limit {
        if matches_at(chars, needle, p) {
            lemma_last_exact_found(chars, needle, limit, p + needle.len(), ww);
        } else {
            lemma_last_exact_found(chars, needle, limit, p + 1, ww);
        }
    }
}

proof fn lemma_last_folded_found(chars: Seq<char>, needle: Seq<char>, limit: int, p: int, ww: bool)
    ensures
        last_folded_hit(chars, needle, limit, p, ww) matches Some(x) ==> exists|s: int, e: int|
            0 <= s <= e <= chars.len() && folded_bound(chars, e) == folded_bound(chars, s) + needle.len()
                && s == x.0 && e - s == x.1,
    decreases limit + 1 - p,
{
    if needle.len() > 0 && p >= 0 && p + needle.len() <= limit {
        if matches_at(fold(chars), needle, p) {
            lemma_last_folded_found(chars, needle, limit, p + needle.len(), ww);
        } else {
            lemma_last_folded_found(chars, needle, limit, p + 1, ww);
        }
    }
}

proof fn lemma_last_folded_hit(chars: Seq<char>, needle: Seq<char>, limit: int, p: int, ww: bool)
    ensures
        last_folded_hit(chars, needle, limit, p, ww) matches Some(x) ==> folded_hit(chars, needle, x.0, x.0 + x.1, ww),
    decreases limit + 1 - p,
{
    if needle.len() > 0 && p >= 0 && p + needle.len() <= limit {
        if matches_at(fold(chars), needle, p) {
            lemma_last_folded_hit(chars, needle, limit, p + needle.len(), ww);
        } else {
            lemma_last_folded_hit(chars, needle, limit, p + 1, ww);
        }
    }
}

/// Folding distributes over concatenation.
proof fn lemma_fold_append(a: Seq<char>, b: Seq<char>)
    ensures
        fold(a + b) == fold(a) + fold(b),
    decreases b.len(),
{
    if b.len() == 0 {
        assert(a + b =~= a);
        assert(fold(a) + fold(b) =~= fold(a));
    } else {
        lemma_fold_append(a, b.drop_last());
        assert((a + b).drop_last() =~= a + b.drop_last());
        assert(fold(a) + fold(b.drop_last()) + lowercase(b.last()) =~= fold(a) + (fold(b.drop_last()) + lowercase(b.last())));
    }
}

/// The characters of a [`folded_hit`] fold to the needle.
proof fn lemma_folded_hit_text(chars: Seq<char>, needle: Seq<char>, s: int, e: int, ww: bool)
    requires
        folded_hit(chars, needle, s, e, ww),
    ensures
        fold(chars.subrange(s, e)) == needle,
{
    let head = chars.take(s);
    let mid = chars.subrange(s, e);
    let tail = chars.skip(e);
    assert(chars.take(e) =~= head + mid);
    assert(chars =~= chars.take(e) + tail);
    lemma_fold_append(head, mid);
    lemma_fold_append(chars.take(e), tail);
    let bs = folded_bound(chars, s) as int;
    let be = folded_bound(chars, e) as int;
    assert(fold(chars).subrange(bs, be) =~= fold(mid));
}

/// The Find dialog's search over `text` for `find_text`, from character
/// `start_char`, forward or backward, wrapping around when `wrap`; see
/// [`search`]. A result is a start and a length, in characters.
pub fn find_match(text: &[char], find_text: &[char], case_sensitive: bool, whole_word: bool, start_char: usize, forward: bool, wrap: bool) -> (r: Option<(usize, usize)>)
    ensures
        same_match(r, search(text@, find_text@, case_sensitive, whole_word, start_char as int, forward, wrap)),
        r matches Some(x) ==> 1 <= x.1 && x.0 + x.1 <= text@.len(),
        forward && !wrap ==> (r matches Some(x) ==> clamp(start_char as int, text@.len() as int) <= x.0),
{
    if find_text.len() == 0 {
        return None;
    }
    let first = search_once_exec(text, find_text, case_sensitive, whole_word, start_char, forward);
    match first {
        Some(x) => Some(x),
        None => {
            if wrap {
                let from = if forward { 0 } else { text.len() };
                search_once_exec(text, find_text, case_sensitive, whole_word, from, forward)
            } else {
                None
            }
        }
    }
}

/// The text that Replace All makes of `text[cursor..]`: each match that a
/// forward search from the cursor finds is replaced by `replace`, and the
/// search resumes after it.
pub open spec fn replaced_from(text: Seq<char>, find: Seq<char>, case_sensitive: bool, whole_word: bool, replace: Seq<char>, cursor: int) -> Seq<char>
    decreases text.len() + 1 - cursor,
{
    if cursor < 0 || cursor > text.len() {
        Seq::empty()
    } else {
        match search(text, find, case_sensitive, whole_word, cursor, true, false) {
            Some((s, l)) => if cursor <= s && 1 <= l && s + l <= text.len() {
                text.subrange(cursor, s) + replace + replaced_from(text, find, case_sensitive, whole_word, replace, s + l)
            } else {
                Seq::empty()
            },
            None => text.subrange(cursor, text.len() as int),
        }
    }
}

/// Replace All: `None` when the search finds nothing (or the search text is
/// empty); else the text with every match, found left to right without
/// overlap, replaced by `replace`.
pub fn replace_all(text: &[char], find_text: &[char], case_sensitive: bool, whole_word: bool, replace: &[char]) -> (r: Option<Vec<char>>)
    ensures
        match r {
            None => search(text@, find_text@, case_sensitive, whole_word, 0, true, false) is None,
            Some(t) => search(text@, find_text@, case_sensitive, whole_word, 0, true, false) is Some
                && t@ == replaced_from(text@, find_text@, case_sensitive, whole_word, replace@, 0),
        },
{
    let n = text.len();
    let first = find_match(text, find_text, case_sensitive, whole_word, 0, true, false);
    if first.is_none() {
        return None;
    }
    let mut rebuilt: Vec<char> = Vec::new();
    let mut cursor: usize = 0;
    loop
        invariant
            cursor <= n,
            n == text@.len(),
            search(text@, find_text@, case_sensitive, whole_word, 0, true, false) is Some,
            replaced_from(text@, find_text@, case_sensitive, whole_word, replace@, 0) == rebuilt@
                + replaced_from(text@, find_text@, case_sensitive, whole_word, replace@, cursor as int),
        decreases n + 1 - cursor,
    {
        let found = find_match(text, find_text, case_sensitive, whole_word, cursor, true, false);
        match found {
            None => {
                let ghost before = rebuilt@;
                let mut i = cursor;
                while i < n
                    invariant
                        cursor <= i <= n,
                        n == text@.len(),
                        rebuilt@ == before + text@.subrange(cursor as int, i as int),
                    decreases n - i,
                {
                    rebuilt.push(text[i]);
                    i = i + 1;
                    assert(text@.subrange(cursor as int, i as int) =~= text@.subrange(cursor as int, i - 1).push(text@[i - 1]));
                }
                return Some(rebuilt);
            }
            Some((s, l)) => {
                let ghost before = rebuilt@;
                let mut i = cursor;
                while i < s
                    invariant
                        cursor <= i <= s,
                        s <= n,
                        n == text@.len(),
                        rebuilt@ == before + text@.subrange(cursor as int, i as int),
                    decreases s - i,
                {
                    rebuilt.push(text[i]);
                    i = i + 1;
                    assert(text@.subrange(cursor as int, i as int) =~= text@.subrange(cursor as int, i - 1).push(text@[i - 1]));
                }
                let ghost mid = rebuilt@;
                let mut j: usize = 0;
                while j < replace.len()
                    invariant
                        j <= replace@.len(),
                        rebuilt@ == mid + replace@.take(j as int),
                    decreases replace@.len() - j,
                {
                    rebuilt.push(replace[j]);
                    j = j + 1;
                    assert(replace@.take(j as int) =~= replace@.take(j - 1).push(replace@[j - 1]));
                }
                assert(replace@.take(j as int) =~= replace@);
                cursor = s + l;
            }
        }
    }
}

/// Replace All with case-sensitive matching and a replacement equal to the
/// search text leaves the text as it was.
pub proof fn law_replace_all_by_itself(text: Seq<char>, find: Seq<char>, whole_word: bool, cursor: int)
    requires
        0 <= cursor <= text.len(),
    ensures
        replaced_from(text, find, true, whole_word, find, cursor) == text.subrange(cursor, text.len() as int),
    decreases text.len() + 1 - cursor,
{
    if find.len() > 0 {
        lemma_first_exact_found(text, find, cursor, whole_word);
        if let Some(i) = first_exact_hit(text, find, cursor, whole_word) {
            let l = find.len() as int;
            law_replace_all_by_itself(text, find, whole_word, i + l);
            assert(text.subrange(i, i + l) == find);
            assert(text.subrange(cursor, i) + find + text.subrange(i + l, text.len() as int)
                =~= text.subrange(cursor, text.len() as int));
        }
    }
}

/// What a search finds lies within the text and, when `whole_word`, is a
/// whole word; a case-sensitive search finds the search text itself, and
/// one that ignores case finds characters that fold to what the search
/// text folds to.
pub proof fn lemma_search_found(text: Seq<char>, find: Seq<char>, case_sensitive: bool, whole_word: bool, start: int, forward: bool, wrap: bool)
    ensures
        search(text, find, case_sensitive, whole_word, start, forward, wrap) matches Some(x) ==> {
            &&& 0 <= x.0 <= x.0 + x.1 <= text.len()
            &&& case_sensitive ==> x.1 == find.len() && text.subrange(x.0, x.0 + x.1) == find
            &&& !case_sensitive ==> fold(text.subrange(x.0, x.0 + x.1)) == fold(find)
            &&& whole_word ==> whole_word_at(text, x.0, x.1)
        },
{
    let from = clamp(start, text.len() as int);
    let again = clamp(if forward { 0 } else { text.len() as int }, text.len() as int);
    let needle = fold(find);
    if case_sensitive {
        if forward {
            lemma_first_exact_found(text, find, from, whole_word);
            lemma_first_exact_found(text, find, again, whole_word);
        } else {
            lemma_last_exact_found(text, find, from, 0, whole_word);
            lemma_last_exact_found(text, find, again, 0, whole_word);
        }
    } else if forward {
        lemma_first_folded_found(text, needle, from, whole_word);
        lemma_first_folded_found(text, needle, again, whole_word);
        if let Some(x) = search(text, find, case_sensitive, whole_word, start, forward, wrap) {
            let e = x.0 + folded_match_len(text, needle, x.0, whole_word);
            assert(folded_hit(text, needle, x.0, e, whole_word));
            lemma_folded_hit_text(text, needle, x.0, e, whole_word);
        }
    } else {
        lemma_last_folded_hit(text, needle, folded_bound(text, from) as int, 0, whole_word);
        lemma_last_folded_hit(text, needle, folded_bound(text, again) as int, 0, whole_word);
        if let Some(x) = search(text, find, case_sensitive, whole_word, start, forward, wrap) {
            lemma_folded_hit_text(text, needle, x.0, x.0 + x.1, whole_word);
        }
    }
}

// ---------------------------------------------------------------------------
// What a match is, and what the searches find
// ---------------------------------------------------------------------------

/// Characters `q` to `q + len` of `text` are a match of the search text
/// `find`: equal to it when `case_sensitive`, else folding to what it folds
/// to; and a whole word when `whole_word`.
pub open spec fn is_match(text: Seq<char>, find: Seq<char>, case_sensitive: bool, whole_word: bool, q: int, len: int) -> bool {
    &&& 0 <= q && 0 <= len && q + len <= text.len()
    &&& if case_sensitive {
        text.subrange(q, q + len) == find
    } else {
        fold(text.subrange(q, q + len)) == fold(find)
    }
    &&& (whole_word ==> whole_word_at(text, q, len))
}

/// A match of `find` starts at character `q` of `text`.
pub open spec fn match_starts_at(text: Seq<char>, find: Seq<char>, case_sensitive: bool, whole_word: bool, q: int) -> bool {
    exists|len: int| is_match(text, find, case_sensitive, whole_word, q, len)
}

/// Characters that fold to the needle make a [`folded_hit`].
proof fn lemma_text_folded_hit(chars: Seq<char>, needle: Seq<char>, s: int, e: int, ww: bool)
    requires
        0 <= s <= e <= chars.len(),
        fold(chars.subrange(s, e)) == needle,
        ww ==> whole_word_at(chars, s, e - s),
    ensures
        folded_hit(chars, needle, s, e, ww),
{
    let head = chars.take(s);
    let mid = chars.subrange(s, e);
    let tail = chars.skip(e);
    assert(chars.take(e) =~= head + mid);
    assert(chars =~= chars.take(e) + tail);
    lemma_fold_append(head, mid);
    lemma_fold_append(chars.take(e), tail);
    let bs = folded_bound(chars, s) as int;
    let be = folded_bound(chars, e) as int;
    assert(be == bs + needle.len());
    assert(fold(chars).subrange(bs, be) =~= fold(mid));
}

/// A match starts at `q` exactly where the searches see a hit.
proof fn lemma_match_starts_iff(text: Seq<char>, find: Seq<char>, cs: bool, ww: bool, q: int)
    ensures
        match_starts_at(text, find, cs, ww, q) <==> if cs {
            exact_hit(text, find, q, ww)
        } else {
            folded_hit_at(text, fold(find), q, ww)
        },
{
    if cs {
        if match_starts_at(text, find, cs, ww, q) {
            let len = choose|len: int| is_match(text, find, cs, ww, q, len);
            assert(text.subrange(q, q + len).len() == len);
        }
        if exact_hit(text, find, q, ww) {
            assert(is_match(text, find, cs, ww, q, find.len() as int));
        }
    } else {
        if match_starts_at(text, find, cs, ww, q) {
            let len = choose|len: int| is_match(text, find, cs, ww, q, len);
            lemma_text_folded_hit(text, fold(find), q, q + len, ww);
        }
        if folded_hit_at(text, fold(find), q, ww) {
            let e = choose|e: int| folded_hit(text, fold(find), q, e, ww);
            lemma_folded_hit_text(text, fold(find), q, e, ww);
            assert(is_match(text, find, cs, ww, q, e - q));
        }
    }
}

proof fn lemma_first_exact_min(chars: Seq<char>, needle: Seq<char>, i: int, ww: bool)
    requires
        0 <= i,
    ensures
        match first_exact_hit(chars, needle, i, ww) {
            Some(j) => forall|q: int| i <= q < j ==> !exact_hit(chars, needle, q, ww),
            None => forall|q: int| i <= q <= chars.len() ==> !exact_hit(chars, needle, q, ww),
        },
    decreases chars.len() + 1 - i,
{
    if i <= chars.len() && !exact_hit(chars, needle, i, ww) {
        lemma_first_exact_min(chars, needle, i + 1, ww);
    }
}

proof fn lemma_first_folded_min(chars: Seq<char>, needle: Seq<char>, i: int, ww: bool)
    requires
        0 <= i,
    ensures
        match first_folded_hit(chars, needle, i, ww) {
            Some(j) => forall|q: int| i <= q < j ==> !folded_hit_at(chars, needle, q, ww),
            None => forall|q: int| i <= q <= chars.len() ==> !folded_hit_at(chars, needle, q, ww),
        },
    decreases chars.len() + 1 - i,
{
    if i <= chars.len() && !folded_hit_at(chars, needle, i, ww) {
        lemma_first_folded_min(chars, needle, i + 1, ww);
    }
}

/// A forward search from `start` without wrapping finds the first match
/// that starts at or after `start`, and nothing when none does.
proof fn lemma_forward_once(text: Seq<char>, find: Seq<char>, cs: bool, ww: bool, start: int)
    requires
        find.len() > 0,
        0 <= start <= text.len(),
    ensures
        match search_once(text, find, cs, ww, start, true) {
            Some((p, l)) => start <= p && is_match(text, find, cs, ww, p, l) && forall|q: int|
                start <= q < p ==> !match_starts_at(text, find, cs, ww, q),
            None => forall|q: int| start <= q ==> !match_starts_at(text, find, cs, ww, q),
        },
{
    lemma_search_found(text, find, cs, ww, start, true, false);
    if cs {
        lemma_first_exact_min(text, find, start, ww);
        lemma_first_exact_found(text, find, start, ww);
    } else {
        lemma_first_folded_min(text, fold(find), start, ww);
        lemma_first_folded_found(text, fold(find), start, ww);
    }
    match search_once(text, find, cs, ww, start, true) {
        Some((p, l)) => {
            assert forall|q: int| start <= q < p implies !match_starts_at(text, find, cs, ww, q) by {
                lemma_match_starts_iff(text, find, cs, ww, q);
            }
        },
        None => {
            assert forall|q: int| start <= q implies !match_starts_at(text, find, cs, ww, q) by {
                lemma_match_starts_iff(text, find, cs, ww, q);
                if q > text.len() && match_starts_at(text, find, cs, ww, q) {
                    let len = choose|len: int| is_match(text, find, cs, ww, q, len);
                }
            }
        },
    }
}

/// Find Next's search, forward from `start` and wrapping around, finds the
/// first match in wrap order: the first that starts at or after `start`,
/// else the first from the start of the text; and nothing only when the
/// text holds no match at all.
pub proof fn law_forward_search_finds_first_match(text: Seq<char>, find: Seq<char>, cs: bool, ww: bool, start: int)
    requires
        find.len() > 0,
        0 <= start <= text.len(),
    ensures
        match search(text, find, cs, ww, start, true, true) {
            Some((p, l)) => {
                &&& is_match(text, find, cs, ww, p, l)
                &&& start <= p ==> forall|q: int| start <= q < p ==> !match_starts_at(text, find, cs, ww, q)
                &&& p < start ==> forall|q: int| (0 <= q < p || start <= q) ==> !match_starts_at(text, find, cs, ww, q)
            },
            None => forall|q: int| !match_starts_at(text, find, cs, ww, q),
        },
{
    lemma_forward_once(text, find, cs, ww, start);
    lemma_forward_once(text, find, cs, ww, 0);
    assert forall|q: int| q < 0 implies !match_starts_at(text, find, cs, ww, q) by {
        if match_starts_at(text, find, cs, ww, q) {
            let len = choose|len: int| is_match(text, find, cs, ww, q, len);
        }
    }
}

/// Replace All from `cursor`: when no match starts at or after it, the rest
/// of the text stays as it is; else the first such match is replaced, the
/// text before it kept, and Replace All goes on after the match. (A
/// non-empty folded search text is assumed when case is ignored; folding
/// never empties a non-empty text.)
pub proof fn law_replaced_from_first_match(text: Seq<char>, find: Seq<char>, cs: bool, ww: bool, replace: Seq<char>, cursor: int)
    requires
        find.len() > 0,
        cs || fold(find).len() > 0,
        0 <= cursor <= text.len(),
    ensures
        (forall|q: int| cursor <= q ==> !match_starts_at(text, find, cs, ww, q)) ==> replaced_from(text, find, cs, ww, replace, cursor)
            == text.subrange(cursor, text.len() as int),
        (exists|q: int| cursor <= q && match_starts_at(text, find, cs, ww, q)) ==> exists|p: int, l: int| {
            &&& cursor <= p
            &&& 1 <= l
            &&& is_match(text, find, cs, ww, p, l)
            &&& (forall|q: int| cursor <= q < p ==> !match_starts_at(text, find, cs, ww, q))
            &&& replaced_from(text, find, cs, ww, replace, cursor) == text.subrange(cursor, p) + replace
                + replaced_from(text, find, cs, ww, replace, p + l)
        },
{
    lemma_forward_once(text, find, cs, ww, cursor);
    assert(clamp(cursor, text.len() as int) == cursor);
    assert(search(text, find, cs, ww, cursor, true, false) == search_once(text, find, cs, ww, cursor, true));
    match search_once(text, find, cs, ww, cursor, true) {
        Some((p, l)) => {
            if l == 0 {
                assert(text.subrange(p, p) =~= Seq::<char>::empty());
                assert(fold(Seq::<char>::empty()) =~= Seq::<char>::empty());
            }
            assert(is_match(text, find, cs, ww, p, l));
            assert(match_starts_at(text, find, cs, ww, p));
            assert(replaced_from(text, find, cs, ww, replace, cursor) == text.subrange(cursor, p) + replace
                + replaced_from(text, find, cs, ww, replace, p + l));
        },
        None => {},
    }
}
} // verus!
