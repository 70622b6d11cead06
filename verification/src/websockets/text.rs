//! Text handling for the opening handshake: case-insensitive matching,
//! searching and trimming, all on sequences of characters.
//!
//! Letters are compared without regard to case for ASCII only, as HTTP
//! does; every other character has to match exactly. Whitespace is what
//! Unicode calls `White_Space`.

use vstd::prelude::*;

verus! {

/// The characters of `text`, one by one.
pub fn chars_of(text: &str) -> (chars: Vec<char>)
    ensures
        chars@ == text@,
{
    let mut chars: Vec<char> = Vec::new();
    for c in it: text.chars()
        invariant
            it.seq() == text@,
            chars@ == text@.take(it.index() as int),
    {
        chars.push(c);
        assert(chars@ =~= text@.take(it.index() + 1));
    }
    assert(chars@ =~= text@);
    chars
}

/// `c` in lower case if it is an ASCII capital, else `c` itself.
pub open spec fn spec_lower(c: char) -> char {
    if 'A' <= c && c <= 'Z' {
        ((c as u32) + 32) as char
    } else {
        c
    }
}

/// `c` in lower case if it is an ASCII capital, else `c` itself.
pub fn lower(c: char) -> (lowered: char)
    ensures
        lowered == spec_lower(c),
{
    if c >= 'A' && c <= 'Z' {
        ((c as u8) + 32) as char
    } else {
        c
    }
}

/// Whether `c` has the Unicode property `White_Space`.
pub open spec fn spec_is_whitespace(c: char) -> bool {
    let code = c as u32;
    ||| 0x09 <= code <= 0x0D
    ||| code == 0x20
    ||| code == 0x85
    ||| code == 0xA0
    ||| code == 0x1680
    ||| 0x2000 <= code <= 0x200A
    ||| code == 0x2028
    ||| code == 0x2029
    ||| code == 0x202F
    ||| code == 0x205F
    ||| code == 0x3000
}

/// Whether `c` has the Unicode property `White_Space`.
pub fn is_whitespace(c: char) -> (white: bool)
    ensures
        white == spec_is_whitespace(c),
{
    let code = c as u32;
    (0x09 <= code && code <= 0x0D) || code == 0x20 || code == 0x85 || code == 0xA0 || code
        == 0x1680 || (0x2000 <= code && code <= 0x200A) || code == 0x2028 || code == 0x2029
        || code == 0x202F || code == 0x205F || code == 0x3000
}

/// The first position from `from` on at which `c` stands in `text`; the
/// length of `text` if there is none.
pub open spec fn spec_find(text: Seq<char>, c: char, from: int) -> int
    decreases text.len() - from,
{
    if from >= text.len() {
        text.len() as int
    } else if text[from] == c {
        from
    } else {
        spec_find(text, c, from + 1)
    }
}

/// The first position from `from` on at which `c` stands in `text`; the
/// length of `text` if there is none.
pub fn find(text: &[char], c: char, from: usize) -> (at: usize)
    requires
        from <= text@.len(),
    ensures
        at == spec_find(text@, c, from as int),
        from <= at <= text@.len(),
        at < text@.len() ==> text@[at as int] == c,
{
    let mut at = from;
    while at < text.len() && text[at] != c
        invariant
            from <= at <= text@.len(),
            spec_find(text@, c, from as int) == spec_find(text@, c, at as int),
        decreases text@.len() - at,
    {
        at += 1;
    }
    at
}

/// Where the text between `from` and `to` starts once leading whitespace
/// is dropped.
pub open spec fn spec_trim_start(text: Seq<char>, from: int, to: int) -> int
    decreases to - from,
{
    if from >= to {
        to
    } else if spec_is_whitespace(text[from]) {
        spec_trim_start(text, from + 1, to)
    } else {
        from
    }
}

/// Where the text between `from` and `to` ends once trailing whitespace is
/// dropped.
pub open spec fn spec_trim_end(text: Seq<char>, from: int, to: int) -> int
    decreases to - from,
{
    if to <= from {
        from
    } else if spec_is_whitespace(text[to - 1]) {
        spec_trim_end(text, from, to - 1)
    } else {
        to
    }
}

/// The text between `from` and `to` without the whitespace at its ends.
pub open spec fn spec_trim_range(text: Seq<char>, from: int, to: int) -> Seq<char> {
    let start = spec_trim_start(text, from, to);
    text.subrange(start, spec_trim_end(text, start, to))
}

/// `text` without the whitespace at its ends.
pub open spec fn spec_trim(text: Seq<char>) -> Seq<char> {
    spec_trim_range(text, 0, text.len() as int)
}

/// The bounds of the text between `from` and `to` without the whitespace
/// at its ends.
pub fn trim_range(text: &[char], from: usize, to: usize) -> (bounds: (usize, usize))
    requires
        from <= to <= text@.len(),
    ensures
        bounds.0 == spec_trim_start(text@, from as int, to as int),
        bounds.1 == spec_trim_end(text@, bounds.0 as int, to as int),
        from <= bounds.0 <= bounds.1 <= to,
        text@.subrange(bounds.0 as int, bounds.1 as int) == spec_trim_range(
            text@,
            from as int,
            to as int,
        ),
{
    let mut start = from;
    while start < to && is_whitespace(text[start])
        invariant
            from <= start <= to <= text@.len(),
            spec_trim_start(text@, from as int, to as int) == spec_trim_start(
                text@,
                start as int,
                to as int,
            ),
        decreases to - start,
    {
        start += 1;
    }
    let mut end = to;
    while end > start && is_whitespace(text[end - 1])
        invariant
            start <= end <= to <= text@.len(),
            spec_trim_end(text@, start as int, to as int) == spec_trim_end(
                text@,
                start as int,
                end as int,
            ),
        decreases end - start,
    {
        end -= 1;
    }
    (start, end)
}

/// Whether `pattern` stands in `text` at position `at`, ASCII letters
/// compared without regard to case.
pub open spec fn spec_matches_at(text: Seq<char>, pattern: Seq<char>, at: int) -> bool {
    &&& 0 <= at
    &&& at + pattern.len() <= text.len()
    &&& forall|j: int|
        0 <= j < pattern.len() ==> spec_lower(text[at + j]) == spec_lower(#[trigger] pattern[j])
}

/// Whether `a` and `b` are the same text, ASCII letters compared without
/// regard to case.
pub open spec fn spec_equal_ignore_case(a: Seq<char>, b: Seq<char>) -> bool {
    &&& a.len() == b.len()
    &&& forall|j: int| 0 <= j < b.len() ==> spec_lower(a[j]) == spec_lower(#[trigger] b[j])
}

/// Whether `pattern` stands somewhere in `text`, ASCII letters compared
/// without regard to case.
pub open spec fn spec_contains_ignore_case(text: Seq<char>, pattern: Seq<char>) -> bool {
    exists|at: int| spec_matches_at(text, pattern, at)
}

/// Whether `pattern` stands in `text` at position `at`, ASCII letters
/// compared without regard to case.
pub fn matches_at(text: &[char], pattern: &[char], at: usize) -> (found: bool)
    ensures
        found == spec_matches_at(text@, pattern@, at as int),
{
    if pattern.len() > text.len() || at > text.len() - pattern.len() {
        return false;
    }
    let mut j: usize = 0;
    while j < pattern.len()
        invariant
            j <= pattern@.len(),
            at + pattern@.len() <= text@.len() <= usize::MAX,
            forall|k: int|
                0 <= k < j ==> spec_lower(text@[at + k]) == spec_lower(#[trigger] pattern@[k]),
        decreases pattern@.len() - j,
    {
        if lower(text[at + j]) != lower(pattern[j]) {
            return false;
        }
        j += 1;
    }
    true
}

/// Whether `a` and `b` are the same text, ASCII letters compared without
/// regard to case.
pub fn equal_ignore_case(a: &[char], b: &[char]) -> (equal: bool)
    ensures
        equal == spec_equal_ignore_case(a@, b@),
{
    a.len() == b.len() && matches_at(a, b, 0)
}

/// Whether `pattern` stands somewhere in `text`, ASCII letters compared
/// without regard to case.
pub fn contains_ignore_case(text: &[char], pattern: &[char]) -> (found: bool)
    ensures
        found == spec_contains_ignore_case(text@, pattern@),
{
    if pattern.len() > text.len() {
        return false;
    }
    let last = text.len() - pattern.len();
    let mut at: usize = 0;
    while at < last
        invariant
            at <= last,
            last + pattern@.len() == text@.len(),
            forall|k: int| 0 <= k < at ==> !spec_matches_at(text@, pattern@, k),
        decreases last - at,
    {
        if matches_at(text, pattern, at) {
            return true;
        }
        at += 1;
    }
    matches_at(text, pattern, last)
}

} // verus!
