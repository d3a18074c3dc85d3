//! Text primitives over sequences of characters: white space, trimming,
//! searching and splitting into lines.

use vstd::prelude::*;

verus! {

/// White space: the characters that carry the Unicode property `White_Space`.
pub open spec fn is_space(c: char) -> bool {
    let u = c as u32;
    ||| 0x09 <= u <= 0x0D
    ||| u == 0x20
    ||| u == 0x85
    ||| u == 0xA0
    ||| u == 0x1680
    ||| 0x2000 <= u <= 0x200A
    ||| u == 0x2028
    ||| u == 0x2029
    ||| u == 0x202F
    ||| u == 0x205F
    ||| u == 0x3000
}

/// The first index at or after `i` that holds no white space, or the end.
pub open spec fn skip_spaces(s: Seq<char>, i: int) -> int
    decreases s.len() - i,
{
    if 0 <= i < s.len() && is_space(s[i]) {
        skip_spaces(s, i + 1)
    } else {
        i
    }
}

/// The first index at or after `i` that holds white space, or the end.
pub open spec fn skip_word(s: Seq<char>, i: int) -> int
    decreases s.len() - i,
{
    if 0 <= i < s.len() && !is_space(s[i]) {
        skip_word(s, i + 1)
    } else {
        i
    }
}

/// The first index at or after `i` that holds `c`, or the end.
pub open spec fn find_from(s: Seq<char>, c: char, i: int) -> int
    decreases s.len() - i,
{
    if 0 <= i < s.len() && s[i] != c {
        find_from(s, c, i + 1)
    } else {
        i
    }
}

/// The end of `s.take(n)` once its trailing white space is cut off.
pub open spec fn trim_end_at(s: Seq<char>, n: int) -> int
    decreases n,
{
    if 0 < n <= s.len() && is_space(s[n - 1]) {
        trim_end_at(s, n - 1)
    } else {
        n
    }
}

/// `s` without its leading and trailing white space.
pub open spec fn trim(s: Seq<char>) -> Seq<char> {
    let from = skip_spaces(s, 0);
    let to = trim_end_at(s, s.len() as int);
    if from < to {
        s.subrange(from, to)
    } else {
        Seq::empty()
    }
}

/// `needle` stands in `hay` at index `i`.
pub open spec fn occurs_at(hay: Seq<char>, needle: Seq<char>, i: int) -> bool {
    0 <= i && i + needle.len() <= hay.len() && hay.subrange(i, i + needle.len()) == needle
}

/// `needle` stands somewhere in `hay`.
pub open spec fn has_substring(hay: Seq<char>, needle: Seq<char>) -> bool {
    exists|i: int| occurs_at(hay, needle, i)
}

/// `hay` begins with `prefix`.
pub open spec fn has_prefix(hay: Seq<char>, prefix: Seq<char>) -> bool {
    occurs_at(hay, prefix, 0)
}

/// The line that starts at `i` and whose terminator, if it has one, stands at
/// `e`: a carriage return directly before a line feed belongs to the
/// terminator, one at the end of the text to the line.
pub open spec fn line_at(s: Seq<char>, i: int, e: int) -> Seq<char> {
    if i < e < s.len() && s[e - 1] == '\r' {
        s.subrange(i, e - 1)
    } else {
        s.subrange(i, e)
    }
}

/// The second of the words of `s` that white space separates; empty where
/// `s` has fewer than two words.
pub open spec fn second_word(s: Seq<char>) -> Seq<char> {
    let first = skip_spaces(s, 0);
    let gap = skip_word(s, first);
    let from = skip_spaces(s, gap);
    s.subrange(from, skip_word(s, from))
}

/// The lines of `s` from index `i` on. A line ends at a line feed or at the
/// end of the text; a text that ends in a line feed has no empty last line.
pub open spec fn lines_from(s: Seq<char>, i: int) -> Seq<Seq<char>>
    decreases s.len() + 1 - i,
    via lines_from_terminates
{
    if 0 <= i < s.len() {
        let e = find_from(s, '\n', i);
        seq![line_at(s, i, e)] + lines_from(s, e + 1)
    } else {
        Seq::empty()
    }
}

#[via_fn]
proof fn lines_from_terminates(s: Seq<char>, i: int) {
    if 0 <= i < s.len() {
        lemma_find_from_bounds(s, '\n', i);
    }
}

/// The view of the raw text of a sensor that may not have been read.
pub open spec fn reading_view(reading: Option<&str>) -> Option<Seq<char>> {
    match reading {
        Some(raw) => Some(raw@),
        None => None,
    }
}

/// The lines of `s`.
pub open spec fn lines_of(s: Seq<char>) -> Seq<Seq<char>> {
    lines_from(s, 0)
}

/// `find_from` stays between its start and the end of the text.
pub proof fn lemma_find_from_bounds(s: Seq<char>, c: char, i: int)
    requires
        0 <= i <= s.len(),
    ensures
        i <= find_from(s, c, i) <= s.len(),
        find_from(s, c, i) < s.len() ==> s[find_from(s, c, i)] == c,
        forall|j: int| i <= j < find_from(s, c, i) ==> s[j] != c,
    decreases s.len() - i,
{
    if i < s.len() && s[i] != c {
        lemma_find_from_bounds(s, c, i + 1);
    }
}

/// `skip_spaces` passes over white space only, and stops at the first
/// character that is none.
pub proof fn lemma_skip_spaces_bounds(s: Seq<char>, i: int)
    requires
        0 <= i <= s.len(),
    ensures
        i <= skip_spaces(s, i) <= s.len(),
        skip_spaces(s, i) < s.len() ==> !is_space(s[skip_spaces(s, i)]),
        forall|j: int| i <= j < skip_spaces(s, i) ==> is_space(s[j]),
    decreases s.len() - i,
{
    if i < s.len() && is_space(s[i]) {
        lemma_skip_spaces_bounds(s, i + 1);
    }
}

/// `trim_end_at` passes over white space only, and stops behind the last
/// character that is none.
pub proof fn lemma_trim_end_bounds(s: Seq<char>, n: int)
    requires
        0 <= n <= s.len(),
    ensures
        0 <= trim_end_at(s, n) <= n,
        trim_end_at(s, n) > 0 ==> !is_space(s[trim_end_at(s, n) - 1]),
        forall|j: int| trim_end_at(s, n) <= j < n ==> is_space(s[j]),
    decreases n,
{
    if 0 < n && is_space(s[n - 1]) {
        lemma_trim_end_bounds(s, n - 1);
    }
}

/// Trimming cuts white space off both ends and nothing else: what is left
/// stands in the text with only white space before and after it, and
/// neither begins nor ends with white space.
pub proof fn lemma_trim_is_tight(s: Seq<char>)
    ensures
        ({
            let t = trim(s);
            let from = skip_spaces(s, 0);
            &&& 0 <= from && from + t.len() <= s.len()
            &&& t == s.subrange(from, from + t.len())
            &&& forall|j: int| 0 <= j < from ==> is_space(s[j])
            &&& forall|j: int| from + t.len() <= j < s.len() ==> is_space(s[j])
            &&& t.len() > 0 ==> !is_space(t.first()) && !is_space(t.last())
        }),
{
    lemma_skip_spaces_bounds(s, 0);
    lemma_trim_end_bounds(s, s.len() as int);
    let t = trim(s);
    let from = skip_spaces(s, 0);
    let to = trim_end_at(s, s.len() as int);
    if from < to {
        assert(t.first() == s[from]);
        assert(t.last() == s[to - 1]);
    } else {
        if from < s.len() {
            assert(is_space(s[from]));
        }
        assert(t =~= s.subrange(from, from + t.len()));
    }
}

/// Whether `c` is white space.
pub fn is_whitespace(c: char) -> (b: bool)
    ensures
        b == is_space(c),
{
    let u: u32 = c as u32;
    (0x09 <= u && u <= 0x0D) || u == 0x20 || u == 0x85 || u == 0xA0 || u == 0x1680 || (0x2000 <= u
        && u <= 0x200A) || u == 0x2028 || u == 0x2029 || u == 0x202F || u == 0x205F || u == 0x3000
}

/// The index of the first `c` at or after `i`, or the length of `s`.
pub fn find_char_from(s: &str, c: char, i: usize) -> (e: usize)
    requires
        i <= s@.len(),
    ensures
        e == find_from(s@, c, i as int),
        i <= e <= s@.len(),
{
    let n = s.unicode_len();
    let mut e: usize = i;
    while e < n && s.get_char(e) != c
        invariant
            n == s@.len(),
            i <= e <= n,
            find_from(s@, c, i as int) == find_from(s@, c, e as int),
        decreases n - e,
    {
        e += 1;
    }
    e
}

/// The first index at or after `i` that holds no white space, or the length
/// of `s`.
pub fn skip_spaces_from(s: &str, i: usize) -> (e: usize)
    requires
        i <= s@.len(),
    ensures
        e == skip_spaces(s@, i as int),
        i <= e <= s@.len(),
{
    let n = s.unicode_len();
    let mut e: usize = i;
    while e < n && is_whitespace(s.get_char(e))
        invariant
            n == s@.len(),
            i <= e <= n,
            skip_spaces(s@, i as int) == skip_spaces(s@, e as int),
        decreases n - e,
    {
        e += 1;
    }
    e
}

/// The first index at or after `i` that holds white space, or the length of
/// `s`.
pub fn skip_word_from(s: &str, i: usize) -> (e: usize)
    requires
        i <= s@.len(),
    ensures
        e == skip_word(s@, i as int),
        i <= e <= s@.len(),
{
    let n = s.unicode_len();
    let mut e: usize = i;
    while e < n && !is_whitespace(s.get_char(e))
        invariant
            n == s@.len(),
            i <= e <= n,
            skip_word(s@, i as int) == skip_word(s@, e as int),
        decreases n - e,
    {
        e += 1;
    }
    e
}

/// The index of the first `c` in `s`, if there is one.
pub fn find_char(s: &str, c: char) -> (r: Option<usize>)
    ensures
        r is Some <==> s@.contains(c),
        r is Some ==> r->0 == find_from(s@, c, 0),
        r is Some ==> r->0 < s@.len() && r->0 < usize::MAX && s@[r->0 as int] == c,
{
    let e = find_char_from(s, c, 0);
    proof {
        lemma_find_from_bounds(s@, c, 0);
    }
    if e < s.unicode_len() {
        assert(s@[e as int] == c);
        Some(e)
    } else {
        None
    }
}

/// `s` without its leading and trailing white space.
pub fn trimmed(s: &str) -> (r: String)
    ensures
        r@ == trim(s@),
{
    let n = s.unicode_len();
    let mut from: usize = 0;
    while from < n && is_whitespace(s.get_char(from))
        invariant
            n == s@.len(),
            from <= n,
            skip_spaces(s@, 0) == skip_spaces(s@, from as int),
        decreases n - from,
    {
        from += 1;
    }
    let mut to: usize = n;
    while to > 0 && is_whitespace(s.get_char(to - 1))
        invariant
            n == s@.len(),
            to <= n,
            trim_end_at(s@, n as int) == trim_end_at(s@, to as int),
        decreases to,
    {
        to -= 1;
    }
    if from < to {
        String::from_str(s.substring_char(from, to))
    } else {
        String::new()
    }
}

/// The second of the words of `s` that white space separates; empty where
/// `s` has fewer than two words.
pub fn second_word_of<'a>(s: &'a str) -> (r: &'a str)
    ensures
        r@ == second_word(s@),
{
    let first = skip_spaces_from(s, 0);
    let gap = skip_word_from(s, first);
    let from = skip_spaces_from(s, gap);
    let to = skip_word_from(s, from);
    s.substring_char(from, to)
}

/// Whether `needle` stands in `hay` at index `i`.
pub fn matches_at(hay: &str, needle: &str, i: usize) -> (b: bool)
    ensures
        b == occurs_at(hay@, needle@, i as int),
{
    let hn = hay.unicode_len();
    let nn = needle.unicode_len();
    if nn > hn || i > hn - nn {
        return false;
    }
    let mut k: usize = 0;
    while k < nn
        invariant
            hn == hay@.len(),
            nn == needle@.len(),
            i + nn <= hn,
            k <= nn,
            forall|j: int| 0 <= j < k ==> hay@[i + j] == needle@[j],
        decreases nn - k,
    {
        if hay.get_char(i + k) != needle.get_char(k) {
            assert(hay@.subrange(i as int, i + nn)[k as int] != needle@[k as int]);
            return false;
        }
        k += 1;
    }
    assert(hay@.subrange(i as int, i + nn) =~= needle@);
    true
}

/// Whether `hay` begins with `prefix`.
pub fn starts_with(hay: &str, prefix: &str) -> (b: bool)
    ensures
        b == has_prefix(hay@, prefix@),
{
    matches_at(hay, prefix, 0)
}

/// Whether `needle` stands somewhere in `hay`.
pub fn contains(hay: &str, needle: &str) -> (b: bool)
    ensures
        b == has_substring(hay@, needle@),
{
    let hn = hay.unicode_len();
    let nn = needle.unicode_len();
    if nn > hn {
        return false;
    }
    let last = hn - nn;
    let mut i: usize = 0;
    while i < last
        invariant
            hn == hay@.len(),
            nn == needle@.len(),
            last == hn - nn,
            i <= last,
            forall|j: int| 0 <= j < i ==> !occurs_at(hay@, needle@, j),
        decreases last - i,
    {
        if matches_at(hay, needle, i) {
            return true;
        }
        i += 1;
    }
    matches_at(hay, needle, last)
}

/// The line of `text` that starts at `i`, and the index of its terminator
/// (the length of `text` where the line has none).
pub fn line_starting_at<'a>(text: &'a str, i: usize) -> (r: (&'a str, usize))
    requires
        i < text@.len(),
    ensures
        i <= r.1 <= text@.len(),
        r.1 == find_from(text@, '\n', i as int),
        r.0@ == line_at(text@, i as int, r.1 as int),
        lines_from(text@, i as int) == seq![r.0@] + lines_from(text@, r.1 + 1),
{
    let n = text.unicode_len();
    let e = find_char_from(text, '\n', i);
    let end = if i < e && e < n && text.get_char(e - 1) == '\r' {
        e - 1
    } else {
        e
    };
    (text.substring_char(i, end), e)
}

} // verus!
