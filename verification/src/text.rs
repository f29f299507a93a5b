//! Character-level helpers shared by the parsers and the formatters.
//!
//! Text is reasoned about as `Seq<char>`, the view of `str` and `String`.
//! Executable code first spreads a string into a `Vec<char>` so that it can
//! be indexed in constant time.

use vstd::prelude::*;

verus! {

/// The characters of an optional string.
pub open spec fn text_of(s: Option<String>) -> Option<Seq<char>> {
    match s {
        Some(text) => Some(text@),
        None => None,
    }
}

/// The characters of `s`, in order.
pub fn chars_of(s: &str) -> (chars: Vec<char>)
    ensures
        chars@ == s@,
{
    let mut chars: Vec<char> = Vec::new();
    for c in it: s.chars()
        invariant
            it.seq() == s@,
            chars@ == it.seq().take(it.index() as int),
    {
        chars.push(c);
    }
    chars
}

/// `String::push` of std: the string afterwards is the string before with
/// `c` added at its end.
#[verifier::external_body]
pub(crate) fn push_char(s: &mut String, c: char)
    ensures
        final(s)@ == old(s)@.push(c),
{
    s.push(c);
}

/// The text made of the characters `chars[from..to]`.
pub fn string_of(chars: &Vec<char>, from: usize, to: usize) -> (s: String)
    requires
        from <= to <= chars.len(),
    ensures
        s@ == chars@.subrange(from as int, to as int),
{
    let mut s = String::new();
    let mut i: usize = from;
    while i < to
        invariant
            from <= i <= to <= chars.len(),
            s@ == chars@.subrange(from as int, i as int),
        decreases to - i,
    {
        push_char(&mut s, chars[i]);
        i += 1;
    }
    s
}

/// Whether `c` is white space as Unicode defines it (`White_Space`).
pub uninterp spec fn is_whitespace(c: char) -> bool;

/// `char::is_whitespace` of std.
#[verifier::external_body]
pub(crate) fn char_is_whitespace(c: char) -> (b: bool)
    ensures
        b == is_whitespace(c),
{
    c.is_whitespace()
}

/// `s` in lower case, by the rules of Unicode for whole strings.
pub uninterp spec fn lowercased(s: Seq<char>) -> Seq<char>;

/// `str::to_lowercase` of std.
#[verifier::external_body]
pub(crate) fn to_lowercase(s: &str) -> (lower: String)
    ensures
        lower@ == lowercased(s@),
{
    s.to_lowercase()
}

/// `s` in upper case, by the rules of Unicode for whole strings.
pub uninterp spec fn uppercased(s: Seq<char>) -> Seq<char>;

/// `str::to_uppercase` of std.
#[verifier::external_body]
pub(crate) fn to_uppercase(s: &str) -> (upper: String)
    ensures
        upper@ == uppercased(s@),
{
    s.to_uppercase()
}

/// How many characters at the start of `s` meet `p` with none other before them.
pub open spec fn leading(s: Seq<char>, p: spec_fn(char) -> bool) -> nat
    decreases s.len(),
{
    if s.len() > 0 && p(s[0]) {
        1 + leading(s.drop_first(), p)
    } else {
        0
    }
}

/// How many characters at the end of `s` meet `p` with none other after them.
pub open spec fn trailing(s: Seq<char>, p: spec_fn(char) -> bool) -> nat
    decreases s.len(),
{
    if s.len() > 0 && p(s.last()) {
        1 + trailing(s.drop_last(), p)
    } else {
        0
    }
}

/// `s` without the characters at its start, and then at its end, that meet `p`.
pub open spec fn stripped(s: Seq<char>, p: spec_fn(char) -> bool) -> Seq<char> {
    let rest = s.skip(leading(s, p) as int);
    rest.take(rest.len() - trailing(rest, p))
}

/// The test for white space.
pub open spec fn whitespace() -> spec_fn(char) -> bool {
    |c: char| is_whitespace(c)
}

/// What is left where a run at the start and a run at the end are taken
/// off begins and ends with a character that does not meet `p`, or is empty.
pub proof fn lemma_stripped_ends(s: Seq<char>, p: spec_fn(char) -> bool)
    ensures
        stripped(s, p).len() > 0 ==> !p(stripped(s, p).first()) && !p(stripped(s, p).last()),
        exists|from: int, to: int|
            0 <= from <= to <= s.len() && stripped(s, p) == #[trigger] s.subrange(from, to),
{
    lemma_leading_stops(s, p);
    let rest = s.skip(leading(s, p) as int);
    lemma_trailing_stops(rest, p);
    let from = leading(s, p) as int;
    let to = s.len() - trailing(rest, p);
    assert(stripped(s, p) =~= s.subrange(from, to));
}

/// The run at the start ends before the end of the text, at a character
/// that does not meet `p`, or is the whole text.
pub proof fn lemma_leading_stops(s: Seq<char>, p: spec_fn(char) -> bool)
    ensures
        leading(s, p) <= s.len(),
        leading(s, p) < s.len() ==> !p(s[leading(s, p) as int]),
    decreases s.len(),
{
    if s.len() > 0 && p(s[0]) {
        lemma_leading_stops(s.drop_first(), p);
    }
}

/// The run at the end begins after the start of the text, behind a
/// character that does not meet `p`, or is the whole text.
pub proof fn lemma_trailing_stops(s: Seq<char>, p: spec_fn(char) -> bool)
    ensures
        trailing(s, p) <= s.len(),
        trailing(s, p) < s.len() ==> !p(s[s.len() - trailing(s, p) - 1]),
    decreases s.len(),
{
    if s.len() > 0 && p(s.last()) {
        lemma_trailing_stops(s.drop_last(), p);
    }
}

/// `s` without the white space at its start.
pub open spec fn trimmed_start(s: Seq<char>) -> Seq<char> {
    s.skip(leading(s, whitespace()) as int)
}

/// `s` without the white space at its start and at its end.
pub open spec fn trimmed(s: Seq<char>) -> Seq<char> {
    stripped(s, whitespace())
}

/// Counts the white space at the start of `chars[from..]`.
pub fn skip_whitespace(chars: &Vec<char>, from: usize) -> (at: usize)
    requires
        from <= chars.len(),
    ensures
        from <= at <= chars.len(),
        at - from == leading(chars@.skip(from as int), whitespace()),
{
    let mut at: usize = from;
    while at < chars.len() && char_is_whitespace(chars[at])
        invariant
            from <= at <= chars.len(),
            leading(chars@.skip(from as int), whitespace()) == (at - from) + leading(
                chars@.skip(at as int),
                whitespace(),
            ),
        decreases chars.len() - at,
    {
        assert(chars@.skip(at as int).drop_first() =~= chars@.skip(at + 1));
        at += 1;
    }
    at
}

/// Counts back over the white space at the end of `chars[from..to]`.
pub fn skip_whitespace_back(chars: &Vec<char>, from: usize, to: usize) -> (at: usize)
    requires
        from <= to <= chars.len(),
    ensures
        from <= at <= to,
        to - at == trailing(chars@.subrange(from as int, to as int), whitespace()),
{
    let mut at: usize = to;
    while at > from && char_is_whitespace(chars[at - 1])
        invariant
            from <= at <= to <= chars.len(),
            trailing(chars@.subrange(from as int, to as int), whitespace()) == (to - at)
                + trailing(chars@.subrange(from as int, at as int), whitespace()),
        decreases at - from,
    {
        assert(chars@.subrange(from as int, at as int).drop_last() =~= chars@.subrange(
            from as int,
            at - 1,
        ));
        at -= 1;
    }
    at
}

/// `s` without the white space at its start and at its end.
pub fn trim(s: &str) -> (t: String)
    ensures
        t@ == trimmed(s@),
{
    let chars = chars_of(s);
    let from = skip_whitespace(&chars, 0);
    assert(chars@.skip(0) =~= chars@);
    let to = skip_whitespace_back(&chars, from, chars.len());
    string_of(&chars, from, to)
}

/// Finds the first `c` in `chars[from..to]`.
pub fn find_char(chars: &Vec<char>, from: usize, to: usize, c: char) -> (r: Option<usize>)
    requires
        from <= to <= chars.len(),
    ensures
        match chars@.subrange(from as int, to as int).index_of_first(c) {
            Some(i) => r == Some((from + i) as usize),
            None => r is None,
        },
{
    let ghost part = chars@.subrange(from as int, to as int);
    let mut i: usize = from;
    while i < to
        invariant
            from <= i <= to <= chars.len(),
            part == chars@.subrange(from as int, to as int),
            forall|j: int| 0 <= j < i - from ==> part[j] != c,
        decreases to - i,
    {
        if chars[i] == c {
            assert(part[i - from] == c);
            proof {
                part.index_of_first_ensures(c);
            }
            return Some(i);
        }
        i += 1;
    }
    proof {
        part.index_of_first_ensures(c);
    }
    None
}

/// Whether `s` holds the characters of `p` from index `at` on.
pub open spec fn has_prefix_at(s: Seq<char>, at: int, p: Seq<char>) -> bool {
    &&& 0 <= at
    &&& at + p.len() <= s.len()
    &&& s.subrange(at, at + p.len()) == p
}

/// Tests whether `pattern` stands in `chars` at index `at`.
pub fn starts_with_at(chars: &Vec<char>, at: usize, pattern: &Vec<char>) -> (found: bool)
    ensures
        found == has_prefix_at(chars@, at as int, pattern@),
{
    if at > chars.len() || pattern.len() > chars.len() - at {
        return false;
    }
    let mut i: usize = 0;
    while i < pattern.len()
        invariant
            at + pattern.len() <= chars.len(),
            i <= pattern.len(),
            forall|j: int| 0 <= j < i ==> chars@[at + j] == pattern@[j],
        decreases pattern.len() - i,
    {
        if chars[at + i] != pattern[i] {
            return false;
        }
        i += 1;
    }
    assert(chars@.subrange(at as int, at + pattern.len()) =~= pattern@);
    true
}

/// Tests whether two strings hold the same characters.
pub fn same_text(a: &str, b: &str) -> (same: bool)
    ensures
        same == (a@ == b@),
{
    let left = chars_of(a);
    let right = chars_of(b);
    if left.len() != right.len() {
        return false;
    }
    let found = starts_with_at(&left, 0, &right);
    assert(left@.subrange(0, left@.len() as int) =~= left@);
    found
}

} // verus!
