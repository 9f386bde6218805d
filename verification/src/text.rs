//! Character-level helpers shared by the parsers: Unicode white space, ASCII
//! case folding, and moving between `str`, `String` and character vectors.

use vstd::prelude::*;

verus! {

/// The characters with the Unicode `White_Space` property.
pub open spec fn white_space(c: char) -> bool {
    ||| ('\u{9}' <= c && c <= '\u{d}')
    ||| c == ' '
    ||| c == '\u{85}'
    ||| c == '\u{a0}'
    ||| c == '\u{1680}'
    ||| ('\u{2000}' <= c && c <= '\u{200a}')
    ||| c == '\u{2028}'
    ||| c == '\u{2029}'
    ||| c == '\u{202f}'
    ||| c == '\u{205f}'
    ||| c == '\u{3000}'
}

/// Whether `c` has the Unicode `White_Space` property, as
/// `char::is_whitespace` tests.
pub(crate) fn is_white_space(c: char) -> (r: bool)
    ensures
        r == white_space(c),
{
    ('\u{9}' <= c && c <= '\u{d}') || c == ' ' || c == '\u{85}' || c == '\u{a0}' || c == '\u{1680}'
        || ('\u{2000}' <= c && c <= '\u{200a}') || c == '\u{2028}' || c == '\u{2029}' || c == '\u{202f}'
        || c == '\u{205f}' || c == '\u{3000}'
}

/// ASCII upper-case letters mapped to lower case, everything else unchanged.
pub open spec fn ascii_lower(c: char) -> char {
    if 'A' <= c && c <= 'Z' {
        ((c as u32) + 32) as char
    } else {
        c
    }
}

pub open spec fn ascii_lower_seq(s: Seq<char>) -> Seq<char> {
    s.map_values(|c: char| ascii_lower(c))
}

pub fn to_ascii_lower(c: char) -> (r: char)
    ensures
        r == ascii_lower(c),
{
    if 'A' <= c && c <= 'Z' {
        let b: u8 = (c as u8) + 32;
        b as char
    } else {
        c
    }
}

/// `String::push`: appends one character.
#[verifier::external_body]
pub(crate) fn push_char(s: &mut String, c: char)
    ensures
        final(s)@ == old(s)@.push(c),
{
    s.push(c);
}

/// The characters of a string slice, in order.
pub fn chars_of(s: &str) -> (v: Vec<char>)
    ensures
        v@ == s@,
{
    let mut v: Vec<char> = Vec::new();
    for c in it: s.chars()
        invariant
            v@ == it.seq().take(it.index() as int),
            it.seq() == s@,
    {
        v.push(c);
    }
    v
}

/// A string holding exactly the characters `chars[from..to]`.
pub fn string_of(chars: &[char], from: usize, to: usize) -> (s: String)
    requires
        from <= to <= chars@.len(),
    ensures
        s@ == chars@.subrange(from as int, to as int),
{
    let mut s = String::new();
    let mut i = from;
    while i < to
        invariant
            from <= i <= to <= chars@.len(),
            s@ == chars@.subrange(from as int, i as int),
        decreases to - i,
    {
        push_char(&mut s, chars[i]);
        assert(chars@.subrange(from as int, i + 1) == chars@.subrange(from as int, i as int).push(chars@[i as int]));
        i = i + 1;
    }
    s
}

/// A string of all the characters in `chars`.
pub fn string_from(chars: &[char]) -> (s: String)
    ensures
        s@ == chars@,
{
    let s = string_of(chars, 0, chars.len());
    assert(chars@.subrange(0, chars@.len() as int) == chars@);
    s
}

/// ASCII-lower-cased copy of a character slice.
pub fn lower_chars(chars: &[char]) -> (v: Vec<char>)
    ensures
        v@ == ascii_lower_seq(chars@),
{
    let mut v: Vec<char> = Vec::new();
    let mut i: usize = 0;
    while i < chars.len()
        invariant
            i <= chars@.len(),
            v@ == ascii_lower_seq(chars@.take(i as int)),
        decreases chars@.len() - i,
    {
        v.push(to_ascii_lower(chars[i]));
        assert(chars@.take(i + 1) == chars@.take(i as int).push(chars@[i as int]));
        i = i + 1;
    }
    assert(chars@.take(chars@.len() as int) == chars@);
    v
}

/// The decimal digits of `n`, most significant first.
pub open spec fn decimal(n: nat) -> Seq<char>
    decreases n,
{
    if n < 10 {
        seq![digit_char(n)]
    } else {
        decimal(n / 10).push(digit_char(n % 10))
    }
}

pub open spec fn digit_char(d: nat) -> char {
    ((d + 48) as u32) as char
}

fn digit(d: u64) -> (c: char)
    requires
        d < 10,
    ensures
        c == digit_char(d as nat),
{
    let b: u8 = (d as u8) + 48;
    b as char
}

/// Appends the decimal form of `n` to `s`.
pub fn push_decimal(s: &mut String, n: u64)
    ensures
        final(s)@ == old(s)@ + decimal(n as nat),
    decreases n,
{
    if n < 10 {
        push_char(s, digit(n));
        assert(old(s)@ + decimal(n as nat) == old(s)@.push(digit_char(n as nat)));
    } else {
        push_decimal(s, n / 10);
        push_char(s, digit(n % 10));
        assert(old(s)@ + decimal(n as nat) == (old(s)@ + decimal((n / 10) as nat)).push(
            digit_char((n % 10) as nat),
        ));
    }
}

/// `needle` occurs in `hay` starting at index `pos`.
pub open spec fn occurs_at(hay: Seq<char>, pos: int, needle: Seq<char>) -> bool {
    0 <= pos && pos + needle.len() <= hay.len() && hay.subrange(pos, pos + needle.len()) == needle
}

/// The first index at or after `from` where `needle` occurs, if any.
pub open spec fn find_from(hay: Seq<char>, from: int, needle: Seq<char>) -> Option<int>
    decreases hay.len() + 1 - from,
{
    if from < 0 || from + needle.len() > hay.len() {
        None
    } else if occurs_at(hay, from, needle) {
        Some(from)
    } else {
        find_from(hay, from + 1, needle)
    }
}

pub fn matches_at(hay: &[char], pos: usize, needle: &[char]) -> (r: bool)
    ensures
        r == occurs_at(hay@, pos as int, needle@),
{
    if pos > hay.len() || needle.len() > hay.len() - pos {
        return false;
    }
    let mut i: usize = 0;
    while i < needle.len()
        invariant
            pos + needle@.len() <= hay@.len(),
            pos <= hay@.len(),
            hay@.len() == hay.len(),
            i <= needle@.len(),
            forall|k: int| 0 <= k < i ==> hay@[pos + k] == needle@[k],
        decreases needle@.len() - i,
    {
        if hay[pos + i] != needle[i] {
            assert(hay@.subrange(pos as int, pos + needle@.len())[i as int] != needle@[i as int]);
            return false;
        }
        i = i + 1;
    }
    assert(hay@.subrange(pos as int, pos + needle@.len()) =~= needle@);
    true
}

/// First occurrence of `needle` in `hay` at or after `from`.
pub fn find_chars(hay: &[char], from: usize, needle: &[char]) -> (r: Option<usize>)
    ensures
        match r {
            Some(p) => find_from(hay@, from as int, needle@) == Some(p as int) && from <= p
                && p + needle@.len() <= hay@.len() && occurs_at(hay@, p as int, needle@),
            None => find_from(hay@, from as int, needle@) is None,
        },
{
    let mut pos = from;
    loop
        invariant
            from <= pos,
            find_from(hay@, from as int, needle@) == find_from(hay@, pos as int, needle@),
        decreases hay@.len() + 1 - pos,
    {
        if pos > hay.len() || needle.len() > hay.len() - pos {
            return None;
        }
        if matches_at(hay, pos, needle) {
            return Some(pos);
        }
        assert(needle@.len() > 0) by {
            if needle@.len() == 0 {
                assert(hay@.subrange(pos as int, pos as int) =~= needle@);
            }
        }
        pos = pos + 1;
    }
}

/// First occurrence of a single character at or after `from`.
pub open spec fn find_char_from(hay: Seq<char>, from: int, c: char) -> Option<int>
    decreases hay.len() - from,
{
    if from < 0 || from >= hay.len() {
        None
    } else if hay[from] == c {
        Some(from)
    } else {
        find_char_from(hay, from + 1, c)
    }
}

pub fn find_char(hay: &[char], from: usize, c: char) -> (r: Option<usize>)
    ensures
        match r {
            Some(p) => find_char_from(hay@, from as int, c) == Some(p as int) && from <= p < hay@.len()
                && hay@[p as int] == c,
            None => find_char_from(hay@, from as int, c) is None,
        },
{
    let mut pos = from;
    while pos < hay.len()
        invariant
            from <= pos,
            find_char_from(hay@, from as int, c) == find_char_from(hay@, pos as int, c),
        decreases hay@.len() - pos,
    {
        if hay[pos] == c {
            return Some(pos);
        }
        pos = pos + 1;
    }
    None
}

/// `s` without leading white space.
pub open spec fn trim_start(s: Seq<char>) -> Seq<char>
    decreases s.len(),
{
    if s.len() > 0 && white_space(s[0]) {
        trim_start(s.drop_first())
    } else {
        s
    }
}

/// `s` without trailing white space.
pub open spec fn trim_end(s: Seq<char>) -> Seq<char>
    decreases s.len(),
{
    if s.len() > 0 && white_space(s.last()) {
        trim_end(s.drop_last())
    } else {
        s
    }
}

/// `s` without leading or trailing white space, as `str::trim` gives it.
pub open spec fn trim(s: Seq<char>) -> Seq<char> {
    trim_end(trim_start(s))
}

/// The bounds of `chars[from..to]` with white space trimmed off both ends.
pub fn trim_bounds(chars: &[char], from: usize, to: usize) -> (r: (usize, usize))
    requires
        from <= to <= chars@.len(),
    ensures
        from <= r.0 <= r.1 <= to,
        chars@.subrange(r.0 as int, r.1 as int) == trim(chars@.subrange(from as int, to as int)),
{
    let mut a = from;
    while a < to && is_white_space(chars[a])
        invariant
            from <= a <= to <= chars@.len(),
            trim_start(chars@.subrange(from as int, to as int)) == trim_start(chars@.subrange(a as int, to as int)),
        decreases to - a,
    {
        assert(chars@.subrange(a as int, to as int).drop_first() == chars@.subrange(a + 1, to as int));
        a = a + 1;
    }
    assert(trim_start(chars@.subrange(a as int, to as int)) == chars@.subrange(a as int, to as int));
    let mut b = to;
    while b > a && is_white_space(chars[b - 1])
        invariant
            from <= a <= b <= to <= chars@.len(),
            trim_end(chars@.subrange(a as int, to as int)) == trim_end(chars@.subrange(a as int, b as int)),
        decreases b,
    {
        assert(chars@.subrange(a as int, b as int).drop_last() == chars@.subrange(a as int, b - 1));
        b = b - 1;
    }
    assert(trim_end(chars@.subrange(a as int, b as int)) == chars@.subrange(a as int, b as int));
    (a, b)
}

/// `str::trim` into an owned string.
pub fn trimmed(s: &str) -> (r: String)
    ensures
        r@ == trim(s@),
{
    let chars = chars_of(s);
    let (a, b) = trim_bounds(chars.as_slice(), 0, chars.len());
    assert(chars@.subrange(0, chars@.len() as int) == chars@);
    string_of(chars.as_slice(), a, b)
}

/// `chars[from..to]` is exactly `lit`.
pub fn range_is(chars: &[char], from: usize, to: usize, lit: &str) -> (r: bool)
    requires
        from <= to <= chars@.len(),
    ensures
        r == (chars@.subrange(from as int, to as int) == lit@),
{
    let l = chars_of(lit);
    if to - from != l.len() {
        assert(chars@.subrange(from as int, to as int).len() != lit@.len());
        return false;
    }
    let r = matches_at(chars, from, l.as_slice());
    r
}

/// Where `needle` occurs at `at`, a search from any earlier index finds an
/// occurrence, no later than `at`.
pub proof fn lemma_find_from_finds(hay: Seq<char>, from: int, needle: Seq<char>, at: int)
    requires
        0 <= from <= at,
        occurs_at(hay, at, needle),
    ensures
        find_from(hay, from, needle) matches Some(i) && from <= i <= at,
    decreases at - from,
{
    if !occurs_at(hay, from, needle) {
        lemma_find_from_finds(hay, from + 1, needle, at);
    }
}

/// Searching a suffix is searching the whole from further on.
pub proof fn lemma_find_char_skip(s: Seq<char>, i: int, j: int, c: char)
    requires
        0 <= i <= s.len(),
        0 <= j,
    ensures
        find_char_from(s.skip(i), j, c) == match find_char_from(s, i + j, c) {
            Some(p) => Some(p - i),
            None => None::<int>,
        },
    decreases s.len() - i - j,
{
    if i + j < s.len() {
        assert(s.skip(i)[j] == s[i + j]);
        if s[i + j] != c {
            lemma_find_char_skip(s, i, j + 1, c);
        }
    }
}

/// A found character is where the search says it is.
pub proof fn lemma_find_char_found(s: Seq<char>, from: int, c: char)
    requires
        0 <= from,
    ensures
        find_char_from(s, from, c) matches Some(p) ==> from <= p < s.len() && s[p] == c,
        find_char_from(s, from, c) is None ==> forall|k: int| from <= k < s.len() ==> s[k] != c,
    decreases s.len() - from,
{
    if 0 <= from < s.len() && s[from] != c {
        lemma_find_char_found(s, from + 1, c);
    }
}

} // verus!
