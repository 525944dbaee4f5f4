//! Character sequences: conversion between `str` and `Vec<char>`, searching
//! and trimming. Everything here is stated over `Seq<char>`, the view of a
//! string.

use vstd::prelude::*;

verus! {

/// `pattern` occurs in `text` starting at index `at`.
pub open spec fn occurs_at(text: Seq<char>, pattern: Seq<char>, at: int) -> bool {
    &&& 0 <= at
    &&& at + pattern.len() <= text.len()
    &&& text.subrange(at, at + pattern.len()) == pattern
}

/// `pattern` occurs somewhere in `text`.
pub open spec fn contains(text: Seq<char>, pattern: Seq<char>) -> bool {
    exists|at: int| occurs_at(text, pattern, at)
}

/// `text` begins with `pattern`.
pub open spec fn starts_with(text: Seq<char>, pattern: Seq<char>) -> bool {
    occurs_at(text, pattern, 0)
}

/// `text` ends with `pattern`.
pub open spec fn ends_with(text: Seq<char>, pattern: Seq<char>) -> bool {
    occurs_at(text, pattern, text.len() - pattern.len())
}

/// Blanks that may trail a line: space, tab, carriage return, line feed.
pub open spec fn is_blank(c: char) -> bool {
    c == ' ' || c == '\t' || c == '\r' || c == '\n'
}

/// The length of `text` once its trailing blanks are cut off.
pub open spec fn trimmed_len(text: Seq<char>) -> nat
    decreases text.len(),
{
    if text.len() > 0 && is_blank(text.last()) {
        trimmed_len(text.drop_last())
    } else {
        text.len()
    }
}

/// `text` without its trailing blanks.
pub open spec fn trim_end(text: Seq<char>) -> Seq<char> {
    text.take(trimmed_len(text) as int)
}

/// The number of characters equal to `c` at the start of `text`.
pub open spec fn leading(text: Seq<char>, c: char) -> nat
    decreases text.len(),
{
    if text.len() > 0 && text.first() == c {
        1 + leading(text.drop_first(), c)
    } else {
        0
    }
}

/// The number of characters equal to `c` at the end of `text`.
pub open spec fn trailing(text: Seq<char>, c: char) -> nat
    decreases text.len(),
{
    if text.len() > 0 && text.last() == c {
        1 + trailing(text.drop_last(), c)
    } else {
        0
    }
}

/// `text` with every `c` at either end removed.
pub open spec fn strip(text: Seq<char>, c: char) -> Seq<char> {
    let from = leading(text, c) as int;
    let rest = text.skip(from);
    rest.take(rest.len() - trailing(rest, c))
}

/// `trimmed_len` never exceeds the length, and marks the last non-blank.
pub proof fn lemma_trimmed_len(text: Seq<char>)
    ensures
        trimmed_len(text) <= text.len(),
        trimmed_len(text) > 0 ==> !is_blank(text[trimmed_len(text) - 1]),
        forall|i: int| trimmed_len(text) <= i < text.len() ==> is_blank(#[trigger] text[i]),
    decreases text.len(),
{
    if text.len() > 0 && is_blank(text.last()) {
        let rest = text.drop_last();
        lemma_trimmed_len(rest);
        assert forall|i: int| trimmed_len(text) <= i < text.len() implies is_blank(
            #[trigger] text[i],
        ) by {
            if i < rest.len() {
                assert(text[i] == rest[i]);
            }
        }
    }
}

/// `leading` counts a run of `c` that ends before the length or at a
/// different character.
pub proof fn lemma_leading(text: Seq<char>, c: char)
    ensures
        leading(text, c) <= text.len(),
        forall|i: int| 0 <= i < leading(text, c) ==> #[trigger] text[i] == c,
        leading(text, c) < text.len() ==> text[leading(text, c) as int] != c,
    decreases text.len(),
{
    if text.len() > 0 && text.first() == c {
        let rest = text.drop_first();
        lemma_leading(rest, c);
        assert forall|i: int| 0 <= i < leading(text, c) implies #[trigger] text[i] == c by {
            if i > 0 {
                assert(text[i] == rest[i - 1]);
            }
        }
        if leading(text, c) < text.len() {
            assert(text[leading(text, c) as int] == rest[leading(rest, c) as int]);
        }
    }
}

/// `trailing` counts a run of `c` that starts after the beginning or after a
/// different character.
pub proof fn lemma_trailing(text: Seq<char>, c: char)
    ensures
        trailing(text, c) <= text.len(),
        forall|i: int| text.len() - trailing(text, c) <= i < text.len() ==> #[trigger] text[i] == c,
        trailing(text, c) < text.len() ==> text[text.len() - trailing(text, c) - 1] != c,
    decreases text.len(),
{
    if text.len() > 0 && text.last() == c {
        let rest = text.drop_last();
        lemma_trailing(rest, c);
        assert forall|i: int|
            text.len() - trailing(text, c) <= i < text.len() implies #[trigger] text[i] == c by {
            if i < text.len() - 1 {
                assert(text[i] == rest[i]);
            }
        }
        if trailing(text, c) < text.len() {
            assert(text[text.len() - trailing(text, c) - 1] == rest[rest.len() - trailing(rest, c)
                - 1]);
        }
    }
}

/// A run of `n` characters `c` that is followed by nothing or by another
/// character is exactly the leading run.
pub proof fn lemma_leading_is(text: Seq<char>, c: char, n: int)
    requires
        0 <= n <= text.len(),
        forall|i: int| 0 <= i < n ==> #[trigger] text[i] == c,
        n < text.len() ==> text[n] != c,
    ensures
        leading(text, c) == n,
{
    lemma_leading(text, c);
    let k = leading(text, c) as int;
    if k < n {
        assert(text[k] == c);
    } else if k > n {
        assert(text[n] == c);
    }
}

/// A run of `n` characters `c` at the end that is preceded by nothing or by
/// another character is exactly the trailing run.
pub proof fn lemma_trailing_is(text: Seq<char>, c: char, n: int)
    requires
        0 <= n <= text.len(),
        forall|i: int| text.len() - n <= i < text.len() ==> #[trigger] text[i] == c,
        n < text.len() ==> text[text.len() - n - 1] != c,
    ensures
        trailing(text, c) == n,
{
    lemma_trailing(text, c);
    let k = trailing(text, c) as int;
    if k < n {
        assert(text[text.len() - k - 1] == c);
    } else if k > n {
        assert(text[text.len() - n - 1] == c);
    }
}

/// The characters of `s`, in order.
pub fn chars_of(s: &str) -> (v: Vec<char>)
    ensures
        v@ == s@,
{
    let mut v: Vec<char> = Vec::new();
    for c in it: s.chars()
        invariant
            v@ == it.seq().take(it.index() as int),
            it.seq() == s@,
    {
        v.push(c);
    }
    v
}

/// Appends one character to a string.
///
/// Trusted: this is `String::push`, which std documents as appending the
/// given character to the end of the string.
#[verifier::external_body]
pub(crate) fn push_char(s: &mut String, c: char)
    ensures
        final(s)@ == old(s)@.push(c),
{
    s.push(c)
}

/// The string made of the characters `v[from..to]`.
pub fn string_of_range(v: &[char], from: usize, to: usize) -> (s: String)
    requires
        from <= to <= v@.len(),
    ensures
        s@ == v@.subrange(from as int, to as int),
{
    let mut s = String::new();
    let mut i: usize = from;
    while i < to
        invariant
            from <= i <= to <= v@.len(),
            s@ == v@.subrange(from as int, i as int),
        decreases to - i,
    {
        push_char(&mut s, v[i]);
        i += 1;
        assert(s@ =~= v@.subrange(from as int, i as int));
    }
    s
}

/// The string made of the characters of `v`.
pub fn string_of(v: &[char]) -> (s: String)
    ensures
        s@ == v@,
{
    let s = string_of_range(v, 0, v.len());
    assert(v@.subrange(0, v@.len() as int) =~= v@);
    s
}

/// Whether `pattern` occurs in `text` at index `at`.
pub fn has_at(text: &[char], pattern: &[char], at: usize) -> (b: bool)
    ensures
        b == occurs_at(text@, pattern@, at as int),
{
    if at > text.len() || pattern.len() > text.len() - at {
        return false;
    }
    let mut j: usize = 0;
    while j < pattern.len()
        invariant
            at + pattern@.len() <= text@.len() <= usize::MAX,
            j <= pattern@.len(),
            forall|k: int| 0 <= k < j ==> text@[at + k] == pattern@[k],
        decreases pattern@.len() - j,
    {
        if text[at + j] != pattern[j] {
            assert(text@.subrange(at as int, at + pattern@.len())[j as int] != pattern@[j as int]);
            return false;
        }
        j += 1;
    }
    assert(text@.subrange(at as int, at + pattern@.len()) =~= pattern@);
    true
}

/// The first index at which `pattern` occurs in `text`, if it occurs.
pub fn position_of(text: &[char], pattern: &[char]) -> (r: Option<usize>)
    ensures
        r is Some <==> contains(text@, pattern@),
        r matches Some(at) ==> occurs_at(text@, pattern@, at as int) && forall|k: int|
            0 <= k < at ==> !occurs_at(text@, pattern@, k),
{
    if pattern.len() > text.len() {
        return None;
    }
    let last: usize = text.len() - pattern.len();
    let mut i: usize = 0;
    while i < last
        invariant
            last == text@.len() - pattern@.len(),
            i <= last,
            forall|k: int| 0 <= k < i ==> !occurs_at(text@, pattern@, k),
        decreases last - i,
    {
        if has_at(text, pattern, i) {
            return Some(i);
        }
        i += 1;
    }
    if has_at(text, pattern, last) {
        Some(last)
    } else {
        None
    }
}

/// Whether `text` holds `pattern`.
pub fn holds(text: &[char], pattern: &[char]) -> (b: bool)
    ensures
        b == contains(text@, pattern@),
{
    position_of(text, pattern).is_some()
}

/// Whether `text` begins with `pattern`.
pub fn begins_with(text: &[char], pattern: &[char]) -> (b: bool)
    ensures
        b == starts_with(text@, pattern@),
{
    has_at(text, pattern, 0)
}

/// How many characters of `text` are left once the trailing blanks are cut.
pub fn trimmed_length(text: &[char]) -> (n: usize)
    ensures
        n == trimmed_len(text@),
{
    let mut n: usize = text.len();
    assert(text@.take(n as int) =~= text@);
    while n > 0 && (text[n - 1] == ' ' || text[n - 1] == '\t' || text[n - 1] == '\r' || text[n - 1]
        == '\n')
        invariant
            n <= text@.len(),
            trimmed_len(text@) == trimmed_len(text@.take(n as int)),
        decreases n,
    {
        assert(text@.take(n as int).drop_last() =~= text@.take(n - 1));
        n -= 1;
    }
    n
}

/// Whether `text`, trailing blanks aside, ends with `pattern`.
pub fn trimmed_ends_with(text: &[char], pattern: &[char]) -> (b: bool)
    ensures
        b == ends_with(trim_end(text@), pattern@),
{
    let n = trimmed_length(text);
    proof {
        lemma_trimmed_len(text@);
    }
    if pattern.len() > n {
        return false;
    }
    let at = n - pattern.len();
    let b = has_at(text, pattern, at);
    proof {
        let cut = trim_end(text@);
        assert(cut.subrange(at as int, at + pattern@.len()) =~= text@.subrange(
            at as int,
            at + pattern@.len(),
        ));
    }
    b
}

/// The characters of `text` with every `c` at either end removed.
pub fn stripped(text: &[char], c: char) -> (s: String)
    ensures
        s@ == strip(text@, c),
{
    let mut from: usize = 0;
    while from < text.len() && text[from] == c
        invariant
            from <= text@.len(),
            forall|i: int| 0 <= i < from ==> text@[i] == c,
        decreases text@.len() - from,
    {
        from += 1;
    }
    let mut to: usize = text.len();
    while to > from && text[to - 1] == c
        invariant
            from <= to <= text@.len(),
            forall|i: int| to <= i < text@.len() ==> text@[i] == c,
        decreases to,
    {
        to -= 1;
    }
    proof {
        lemma_leading_is(text@, c, from as int);
        let rest = text@.skip(from as int);
        assert forall|i: int| rest.len() - (text@.len() - to) <= i < rest.len() implies rest[i]
            == c by {
            assert(rest[i] == text@[from + i]);
        }
        lemma_trailing_is(rest, c, text@.len() - to);
        assert(rest.take(rest.len() - trailing(rest, c)) =~= text@.subrange(
            from as int,
            to as int,
        ));
    }
    string_of_range(text, from, to)
}

/// Whether two texts are the same.
pub fn same_text(a: &str, b: &str) -> (same: bool)
    ensures
        same == (a@ == b@),
{
    let left = chars_of(a);
    let right = chars_of(b);
    if left.len() != right.len() {
        return false;
    }
    let same = has_at(left.as_slice(), right.as_slice(), 0);
    assert(left@.subrange(0, left@.len() as int) =~= left@);
    same
}

} // verus!
