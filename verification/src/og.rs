//! Link-preview metadata read out of an HTML page: `<meta>` attributes,
//! the `<title>` element and the HTML entities found in their values.

use vstd::prelude::*;

use vstd::string::{StrSliceExecFns, StringExecFns};

use crate::numbers::{parse_radix, parse_u32_radix};
use crate::text::{
    ascii_lower_seq, chars_of, find_char, find_char_from, find_chars, find_from, is_white_space,
    lower_chars, matches_at, push_char, string_from, string_of, trim, trim_bounds, white_space,
};

verus! {

// ---- HTML entities ---------------------------------------------------------

/// A Unicode scalar value: a code point that is not a surrogate.
pub open spec fn is_scalar_value(v: u32) -> bool {
    v < 0xD800 || (0xE000 <= v && v <= 0x10FFFF)
}

/// `char::from_u32`: the character with scalar value `v`, if `v` is one.
#[verifier::external_body]
pub(crate) fn char_from_u32(v: u32) -> (r: Option<char>)
    ensures
        r is Some <==> is_scalar_value(v),
        r matches Some(c) ==> c as u32 == v,
{
    char::from_u32(v)
}

/// The character a named or numeric entity body (the text between `&` and
/// `;`) stands for.
pub open spec fn entity_char(ent: Seq<char>) -> Option<char> {
    if ent == "amp"@ {
        Some('&')
    } else if ent == "lt"@ {
        Some('<')
    } else if ent == "gt"@ {
        Some('>')
    } else if ent == "quot"@ {
        Some('"')
    } else if ent == "apos"@ || ent == "#39"@ {
        Some('\'')
    } else if ent == "nbsp"@ {
        Some('\u{a0}')
    } else if ent.len() > 0 && ent[0] == '#' {
        let num = ent.drop_first();
        let v = if num.len() > 0 && (num[0] == 'x' || num[0] == 'X') {
            parse_u32_radix(num.drop_first(), 16)
        } else {
            parse_u32_radix(num, 10)
        };
        match v {
            Some(n) => if is_scalar_value(n) { Some(n as char) } else { None },
            None => None,
        }
    } else {
        None
    }
}

/// The entity `after` starts with (`after[0]` is `&`): the character and the
/// index of its closing `;`, which must come within ten characters.
pub open spec fn entity_at(after: Seq<char>) -> Option<(char, int)> {
    match find_char_from(after, 0, ';') {
        Some(semi) => if 1 <= semi <= 10 && semi < after.len() {
            match entity_char(after.subrange(1, semi)) {
                Some(c) => Some((c, semi)),
                None => None,
            }
        } else {
            None
        },
        None => None,
    }
}

/// The decoding of `s` from index `i` on: each recognised entity becomes its
/// character, everything else is kept.
pub open spec fn decode_from(s: Seq<char>, i: int) -> Seq<char>
    decreases s.len() - i,
{
    if i < 0 || i >= s.len() {
        Seq::empty()
    } else if s[i] != '&' {
        seq![s[i]] + decode_from(s, i + 1)
    } else {
        match entity_at(s.skip(i)) {
            Some((c, semi)) => seq![c] + decode_from(s, i + semi + 1),
            None => seq!['&'] + decode_from(s, i + 1),
        }
    }
}

/// `s` with the entities that realistically occur in `<meta>` content
/// decoded; anything unrecognised is left as it was.
pub open spec fn decode_entities_spec(s: Seq<char>) -> Seq<char> {
    decode_from(s, 0)
}

proof fn lemma_char_round_trip(c: char)
    ensures
        (c as u32) as char == c,
{
}

fn numeric_entity(chars: &[char], from: usize, to: usize) -> (r: Option<char>)
    requires
        from <= to <= chars@.len(),
    ensures
        r == ({
            let num = chars@.subrange(from as int, to as int);
            let v = if num.len() > 0 && (num[0] == 'x' || num[0] == 'X') {
                parse_u32_radix(num.drop_first(), 16)
            } else {
                parse_u32_radix(num, 10)
            };
            match v {
                Some(n) => if is_scalar_value(n) { Some(n as char) } else { None },
                None => None,
            }
        }),
{
    let ghost num = chars@.subrange(from as int, to as int);
    let v = if from < to && (chars[from] == 'x' || chars[from] == 'X') {
        assert(num.drop_first() == chars@.subrange(from + 1, to as int));
        parse_radix(chars, from + 1, to, 16)
    } else {
        parse_radix(chars, from, to, 10)
    };
    match v {
        Some(n) => {
            let c = char_from_u32(n);
            match c {
                Some(d) => {
                    proof {
                        lemma_char_round_trip(d);
                    }
                    Some(d)
                },
                None => None,
            }
        },
        None => None,
    }
}

fn entity_char_of(chars: &[char], from: usize, to: usize) -> (r: Option<char>)
    requires
        from <= to <= chars@.len(),
    ensures
        r == entity_char(chars@.subrange(from as int, to as int)),
{
    let ghost ent = chars@.subrange(from as int, to as int);
    if crate::text::range_is(chars, from, to, "amp") {
        Some('&')
    } else if crate::text::range_is(chars, from, to, "lt") {
        Some('<')
    } else if crate::text::range_is(chars, from, to, "gt") {
        Some('>')
    } else if crate::text::range_is(chars, from, to, "quot") {
        Some('"')
    } else if crate::text::range_is(chars, from, to, "apos") || crate::text::range_is(chars, from, to, "#39") {
        Some('\'')
    } else if crate::text::range_is(chars, from, to, "nbsp") {
        Some('\u{a0}')
    } else if from < to && chars[from] == '#' {
        assert(ent.drop_first() == chars@.subrange(from + 1, to as int));
        numeric_entity(chars, from + 1, to)
    } else {
        None
    }
}

fn entity_at_index(chars: &[char], i: usize) -> (r: Option<(char, usize)>)
    requires
        i < chars@.len(),
    ensures
        match r {
            Some((c, semi)) => entity_at(chars@.skip(i as int)) == Some((c, semi as int)),
            None => entity_at(chars@.skip(i as int)) is None,
        },
{
    let ghost after = chars@.skip(i as int);
    proof {
        crate::text::lemma_find_char_skip(chars@, i as int, 0, ';');
        crate::text::lemma_find_char_found(chars@, i as int, ';');
    }
    let p = match find_char(chars, i, ';') {
        Some(p) => p,
        None => return None,
    };
    let semi = p - i;
    if 1 <= semi && semi <= 10 {
        assert(after.subrange(1, semi as int) == chars@.subrange(i + 1, p as int));
        match entity_char_of(chars, i + 1, p) {
            Some(c) => Some((c, semi)),
            None => None,
        }
    } else {
        None
    }
}

/// Decodes the handful of HTML entities that realistically appear inside
/// `<meta>` content: `&amp;`, `&lt;`, `&gt;`, `&quot;`, `&apos;`/`&#39;`,
/// `&nbsp;` and decimal or hexadecimal character references. An entity must
/// close with `;` within ten characters of its `&`. Anything unrecognised is
/// left verbatim.
pub fn decode_entities(input: &str) -> (r: String)
    ensures
        r@ == decode_entities_spec(input@),
{
    let chars = chars_of(input);
    let ghost s = input@;
    let mut out = String::new();
    let mut i: usize = 0;
    while i < chars.len()
        invariant
            chars@ == s,
            i <= s.len(),
            decode_from(s, 0) == out@ + decode_from(s, i as int),
        decreases s.len() - i,
    {
        if chars[i] != '&' {
            push_char(&mut out, chars[i]);
            i = i + 1;
        } else {
            match entity_at_index(chars.as_slice(), i) {
                Some((c, semi)) => {
                    push_char(&mut out, c);
                    i = i + semi + 1;
                },
                None => {
                    push_char(&mut out, '&');
                    i = i + 1;
                },
            }
        }
    }
    assert(decode_from(s, i as int) == Seq::<char>::empty());
    out
}

proof fn lemma_decode_plain_from(s: Seq<char>, i: int)
    requires
        0 <= i <= s.len(),
        forall|k: int| 0 <= k < s.len() ==> s[k] != '&',
    ensures
        decode_from(s, i) == s.skip(i),
    decreases s.len() - i,
{
    if i < s.len() {
        lemma_decode_plain_from(s, i + 1);
        assert(s.skip(i) =~= seq![s[i]] + s.skip(i + 1));
    } else {
        assert(s.skip(i) =~= Seq::<char>::empty());
    }
}

/// Text without an `&` is left exactly as it is.
pub proof fn law_decode_plain_text_unchanged(s: Seq<char>)
    requires
        forall|k: int| 0 <= k < s.len() ==> s[k] != '&',
    ensures
        decode_entities_spec(s) == s,
{
    lemma_decode_plain_from(s, 0);
    assert(s.skip(0) =~= s);
}

proof fn lemma_find_char_run(s: Seq<char>, i: int, j: int, c: char)
    requires
        0 <= i <= j < s.len(),
        forall|k: int| i <= k < j ==> #[trigger] s[k] != c,
        s[j] == c,
    ensures
        find_char_from(s, i, c) == Some(j),
    decreases j - i,
{
    if i < j {
        lemma_find_char_run(s, i + 1, j, c);
    }
}

/// Every character can be written as a hexadecimal reference: for each
/// Unicode scalar value `n`, `&#x` followed by `n` in lower-case hex and
/// `;` decodes to the character `n`.
pub proof fn law_hex_reference_decodes(n: u32)
    requires
        is_scalar_value(n),
    ensures
        decode_entities_spec("&#x"@ + crate::numbers::lower_hex_spelling(n as nat) + ";"@) == seq![n as char],
{
    reveal_strlit("&#x");
    reveal_strlit(";");
    reveal_strlit("amp");
    reveal_strlit("lt");
    reveal_strlit("gt");
    reveal_strlit("quot");
    reveal_strlit("apos");
    reveal_strlit("#39");
    reveal_strlit("nbsp");
    assert(crate::numbers::pow16(6) == 0x1000000) by {
        reveal_with_fuel(crate::numbers::pow16, 7);
    }
    crate::numbers::lemma_lower_hex_spelling(n as nat, 6);
    let h = crate::numbers::lower_hex_spelling(n as nat);
    let s = "&#x"@ + h + ";"@;
    let semi: int = 3 + h.len() as int;
    assert(s.len() == semi + 1);
    assert(s[0] == '&' && s[1] == '#' && s[2] == 'x' && s[semi] == ';');
    assert forall|k: int| 0 <= k < semi implies #[trigger] s[k] != ';' by {
        if k >= 3 {
            assert(s[k] == h[k - 3]);
        }
    }
    lemma_find_char_run(s, 0, semi, ';');
    let ent = s.subrange(1, semi);
    assert(ent[0] == '#' && ent[1] == 'x');
    assert(ent != "amp"@ && ent != "lt"@ && ent != "gt"@ && ent != "quot"@ && ent != "apos"@ && ent != "nbsp"@) by {
        assert("amp"@[0] == 'a' && "lt"@[0] == 'l' && "gt"@[0] == 'g' && "quot"@[0] == 'q' && "apos"@[0] == 'a' && "nbsp"@[0] == 'n');
    }
    assert(ent != "#39"@) by {
        assert("#39"@[1] == '3');
    }
    let num = ent.drop_first();
    assert(num.drop_first() =~= h);
    assert(h[0] != '+');
    assert(crate::numbers::parse_u32_radix(h, 16) == Some(n));
    assert(entity_char(ent) == Some(n as char));
    assert(s.skip(0) =~= s);
    assert(entity_at(s.skip(0)) == Some((n as char, semi)));
    assert(decode_from(s, semi + 1) == Seq::<char>::empty());
    assert(decode_from(s, 0) =~= seq![n as char]);
}

// ---- tag attributes ------------------------------------------------------

/// The first index at or after `i` that is not white space.
pub open spec fn skip_ws(s: Seq<char>, i: int) -> int
    decreases s.len() - i,
{
    if 0 <= i < s.len() && white_space(s[i]) { skip_ws(s, i + 1) } else { i }
}

/// The first index at or after `i` that is white space (or the end).
pub open spec fn skip_non_ws(s: Seq<char>, i: int) -> int
    decreases s.len() - i,
{
    if 0 <= i < s.len() && !white_space(s[i]) { skip_non_ws(s, i + 1) } else { i }
}

/// The end of an attribute name starting at `i`: the first `=`, `/` or
/// white space.
pub open spec fn name_end(s: Seq<char>, i: int) -> int
    decreases s.len() - i,
{
    if 0 <= i < s.len() && s[i] != '=' && s[i] != '/' && !white_space(s[i]) {
        name_end(s, i + 1)
    } else {
        i
    }
}

/// The end of an unquoted value starting at `i`: the first `/` or white
/// space.
pub open spec fn unquoted_end(s: Seq<char>, i: int) -> int
    decreases s.len() - i,
{
    if 0 <= i < s.len() && s[i] != '/' && !white_space(s[i]) { unquoted_end(s, i + 1) } else { i }
}

/// The first index at or after `i` holding `q` (or the end).
pub open spec fn until_char(s: Seq<char>, i: int, q: char) -> int
    decreases s.len() - i,
{
    if 0 <= i < s.len() && s[i] != q { until_char(s, i + 1, q) } else { i }
}

/// One attribute read at `i` (where `s[i]` is not white space): its
/// lower-cased name, its raw value (empty when there is no `=`), and where
/// reading resumes. A `/` where a name would start is passed over.
pub open spec fn attr_at(s: Seq<char>, i: int) -> (Seq<char>, Seq<char>, int) {
    let e = name_end(s, i);
    let name = ascii_lower_seq(s.subrange(i, e));
    let j = skip_ws(s, e);
    if j < s.len() && s[j] == '=' {
        let k = skip_ws(s, j + 1);
        if k < s.len() && (s[k] == '"' || s[k] == '\'') {
            let m = until_char(s, k + 1, s[k]);
            (name, s.subrange(k + 1, m), if m < s.len() { m + 1 } else { m })
        } else {
            let m = unquoted_end(s, k);
            (name, s.subrange(k, m), m)
        }
    } else {
        (name, Seq::empty(), if j == i { i + 1 } else { j })
    }
}

/// The attributes read from index `i` on, in order, names non-empty.
pub open spec fn attrs_from(s: Seq<char>, i: int) -> Seq<(Seq<char>, Seq<char>)>
    decreases s.len() - i,
{
    let j = skip_ws(s, i);
    if i < 0 || j >= s.len() || j < i {
        Seq::empty()
    } else {
        let (name, value, next) = attr_at(s, j);
        if next <= j || next > s.len() {
            Seq::empty()
        } else if name.len() > 0 {
            seq![(name, value)] + attrs_from(s, next)
        } else {
            attrs_from(s, next)
        }
    }
}

/// The attributes of a tag body (the text between `<` and `>`), after its
/// tag name.
pub open spec fn tag_attrs(tag: Seq<char>) -> Seq<(Seq<char>, Seq<char>)> {
    attrs_from(tag, skip_non_ws(tag, 0))
}

/// The value a list of attributes gives a name: the last one listed.
pub open spec fn attr_lookup(attrs: Seq<(Seq<char>, Seq<char>)>, name: Seq<char>) -> Option<Seq<char>>
    decreases attrs.len(),
{
    if attrs.len() == 0 {
        None
    } else if attrs.last().0 == name {
        Some(attrs.last().1)
    } else {
        attr_lookup(attrs.drop_last(), name)
    }
}

proof fn lemma_skip_non_ws_run(s: Seq<char>, i: int, j: int)
    requires
        0 <= i <= j <= s.len(),
        forall|k: int| i <= k < j ==> !white_space(#[trigger] s[k]),
        j == s.len() || white_space(s[j]),
    ensures
        skip_non_ws(s, i) == j,
    decreases j - i,
{
    if i < j {
        lemma_skip_non_ws_run(s, i + 1, j);
    }
}

proof fn lemma_name_end_run(s: Seq<char>, i: int, j: int)
    requires
        0 <= i <= j <= s.len(),
        forall|k: int| i <= k < j ==> #[trigger] s[k] != '=' && s[k] != '/' && !white_space(s[k]),
        j == s.len() || s[j] == '=',
    ensures
        name_end(s, i) == j,
    decreases j - i,
{
    if i < j {
        lemma_name_end_run(s, i + 1, j);
    }
}

proof fn lemma_until_char_run(s: Seq<char>, i: int, j: int, q: char)
    requires
        0 <= i <= j <= s.len(),
        forall|k: int| i <= k < j ==> #[trigger] s[k] != q,
        j == s.len() || s[j] == q,
    ensures
        until_char(s, i, q) == j,
    decreases j - i,
{
    if i < j {
        lemma_until_char_run(s, i + 1, j, q);
    }
}

/// A quoted value is read whole: in `meta NAME=QvQ`, where `Q` is `"` or
/// `'` and `v` holds no `Q`, the tag's one attribute is NAME
/// (lower-cased) with value exactly `v`, whatever else `v` holds, the other
/// quote character included.
pub proof fn law_quoted_value_read_whole(name: Seq<char>, q: char, v: Seq<char>)
    requires
        name.len() > 0,
        forall|k: int| 0 <= k < name.len() ==> #[trigger] name[k] != '=' && name[k] != '/' && !white_space(name[k]),
        q == '"' || q == '\'',
        forall|k: int| 0 <= k < v.len() ==> #[trigger] v[k] != q,
    ensures
        tag_attrs("meta "@ + name + "="@ + seq![q] + v + seq![q]) == seq![(ascii_lower_seq(name), v)],
{
    reveal_strlit("meta ");
    reveal_strlit("=");
    let s = "meta "@ + name + "="@ + seq![q] + v + seq![q];
    let e: int = 5 + name.len() as int;
    let k: int = e + 1;
    let m: int = k + 1 + v.len() as int;
    assert(s.len() == m + 1);
    assert(s[4] == ' ');
    assert forall|x: int| 0 <= x < 4 implies !white_space(#[trigger] s[x]) by {
        assert(s[x] == "meta "@[x]);
    }
    lemma_skip_non_ws_run(s, 0, 4);
    assert forall|x: int| 5 <= x < e implies #[trigger] s[x] != '=' && s[x] != '/' && !white_space(s[x]) by {
        assert(s[x] == name[x - 5]);
    }
    assert(s[e] == '=');
    lemma_name_end_run(s, 5, e);
    assert(s[5] == name[0]);
    assert(skip_ws(s, 5) == 5);
    assert(skip_ws(s, 4) == 5);
    assert(s[k] == q);
    assert(skip_ws(s, e) == e);
    assert(skip_ws(s, e + 1) == e + 1);
    assert forall|x: int| k + 1 <= x < m implies #[trigger] s[x] != q by {
        assert(s[x] == v[x - k - 1]);
    }
    assert(s[m] == q);
    lemma_until_char_run(s, k + 1, m, q);
    assert(s.subrange(5, e) =~= name);
    assert(s.subrange(k + 1, m) =~= v);
    assert(attr_at(s, 5) == (ascii_lower_seq(name), v, m + 1));
    assert(skip_ws(s, m + 1) == m + 1);
    assert(attrs_from(s, m + 1) == Seq::<(Seq<char>, Seq<char>)>::empty());
    assert(attrs_from(s, 4) =~= seq![(ascii_lower_seq(name), v)]);
}

/// The attributes of one tag. A name given twice keeps its last value.
pub struct TagAttrs {
    pairs: Vec<(String, String)>,
}

impl View for TagAttrs {
    type V = Seq<(Seq<char>, Seq<char>)>;

    closed spec fn view(&self) -> Seq<(Seq<char>, Seq<char>)> {
        self.pairs@.map_values(|p: (String, String)| (p.0@, p.1@))
    }
}

impl TagAttrs {
    /// The value of attribute `name`, if the tag has it.
    pub fn get(&self, name: &str) -> (r: Option<&String>)
        ensures
            match r {
                Some(v) => attr_lookup(self@, name@) == Some(v@),
                None => attr_lookup(self@, name@) is None,
            },
    {
        let key = String::from_str(name);
        let mut i = self.pairs.len();
        assert(self@.take(i as int) =~= self@);
        while i > 0
            invariant
                i <= self.pairs@.len(),
                key@ == name@,
                attr_lookup(self@, name@) == attr_lookup(self@.take(i as int), name@),
            decreases i,
        {
            assert(self@.take(i as int).drop_last() == self@.take(i - 1));
            assert(self@.take(i as int).last() == (self.pairs@[i - 1].0@, self.pairs@[i - 1].1@));
            if self.pairs[i - 1].0 == key {
                return Some(&self.pairs[i - 1].1);
            }
            i = i - 1;
        }
        None
    }
}

fn skip_ws_from(s: &[char], i: usize) -> (r: usize)
    requires
        i <= s@.len(),
    ensures
        r == skip_ws(s@, i as int),
        i <= r <= s@.len(),
{
    let mut k = i;
    while k < s.len() && is_white_space(s[k])
        invariant
            i <= k <= s@.len(),
            skip_ws(s@, i as int) == skip_ws(s@, k as int),
        decreases s@.len() - k,
    {
        k = k + 1;
    }
    k
}

fn skip_non_ws_from(s: &[char], i: usize) -> (r: usize)
    requires
        i <= s@.len(),
    ensures
        r == skip_non_ws(s@, i as int),
        i <= r <= s@.len(),
{
    let mut k = i;
    while k < s.len() && !is_white_space(s[k])
        invariant
            i <= k <= s@.len(),
            skip_non_ws(s@, i as int) == skip_non_ws(s@, k as int),
        decreases s@.len() - k,
    {
        k = k + 1;
    }
    k
}

fn name_end_from(s: &[char], i: usize) -> (r: usize)
    requires
        i <= s@.len(),
    ensures
        r == name_end(s@, i as int),
        i <= r <= s@.len(),
{
    let mut k = i;
    while k < s.len() && s[k] != '=' && s[k] != '/' && !is_white_space(s[k])
        invariant
            i <= k <= s@.len(),
            name_end(s@, i as int) == name_end(s@, k as int),
        decreases s@.len() - k,
    {
        k = k + 1;
    }
    k
}

fn unquoted_end_from(s: &[char], i: usize) -> (r: usize)
    requires
        i <= s@.len(),
    ensures
        r == unquoted_end(s@, i as int),
        i <= r <= s@.len(),
{
    let mut k = i;
    while k < s.len() && s[k] != '/' && !is_white_space(s[k])
        invariant
            i <= k <= s@.len(),
            unquoted_end(s@, i as int) == unquoted_end(s@, k as int),
        decreases s@.len() - k,
    {
        k = k + 1;
    }
    k
}

fn until_char_from(s: &[char], i: usize, q: char) -> (r: usize)
    requires
        i <= s@.len(),
    ensures
        r == until_char(s@, i as int, q),
        i <= r <= s@.len(),
{
    let mut k = i;
    while k < s.len() && s[k] != q
        invariant
            i <= k <= s@.len(),
            until_char(s@, i as int, q) == until_char(s@, k as int, q),
        decreases s@.len() - k,
    {
        k = k + 1;
    }
    k
}

fn read_attr(s: &[char], i: usize) -> (r: (String, String, usize))
    requires
        i < s@.len(),
    ensures
        (r.0@, r.1@, r.2 as int) == attr_at(s@, i as int),
        i < r.2 <= s@.len(),
{
    let e = name_end_from(s, i);
    let name_part = vstd::slice::slice_subrange(s, i, e);
    let name = string_from(lower_chars(name_part).as_slice());
    let j = skip_ws_from(s, e);
    if j < s.len() && s[j] == '=' {
        let k = skip_ws_from(s, j + 1);
        if k < s.len() && (s[k] == '"' || s[k] == '\'') {
            let m = until_char_from(s, k + 1, s[k]);
            let value = string_of(s, k + 1, m);
            let next = if m < s.len() { m + 1 } else { m };
            (name, value, next)
        } else {
            let m = unquoted_end_from(s, k);
            let value = string_of(s, k, m);
            (name, value, m)
        }
    } else {
        let next = if j == i { i + 1 } else { j };
        (name, String::new(), next)
    }
}

fn attrs_of_chars(s: &[char]) -> (r: TagAttrs)
    ensures
        r@ == tag_attrs(s@),
{
    let mut pairs: Vec<(String, String)> = Vec::new();
    let mut i = skip_non_ws_from(s, 0);
    loop
        invariant
            i <= s@.len(),
            tag_attrs(s@) == pairs@.map_values(|p: (String, String)| (p.0@, p.1@)) + attrs_from(s@, i as int),
        ensures
            tag_attrs(s@) == pairs@.map_values(|p: (String, String)| (p.0@, p.1@)),
        decreases s@.len() - i,
    {
        let j = skip_ws_from(s, i);
        if j >= s.len() {
            assert(attrs_from(s@, i as int) == Seq::<(Seq<char>, Seq<char>)>::empty());
            assert(pairs@.map_values(|p: (String, String)| (p.0@, p.1@)) + Seq::<(Seq<char>, Seq<char>)>::empty()
                == pairs@.map_values(|p: (String, String)| (p.0@, p.1@)));
            break;
        }
        let (name, value, next) = read_attr(s, j);
        let ghost before = pairs@.map_values(|p: (String, String)| (p.0@, p.1@));
        if name.as_str().unicode_len() > 0 {
            pairs.push((name, value));
            assert(pairs@.map_values(|p: (String, String)| (p.0@, p.1@)) == before.push((name@, value@)));
            assert(before + attrs_from(s@, i as int) == before.push((name@, value@)) + attrs_from(s@, next as int));
        }
        i = next;
    }
    TagAttrs { pairs }
}

/// Parses the attributes inside a single tag body (the text between `<`
/// and `>`), tolerating single-quoted, double-quoted and unquoted values
/// and arbitrary white space. Names are ASCII-lower-cased; values are
/// returned raw. A `/` where a name would start, as in `<meta ... />`, is
/// passed over.
pub fn parse_tag_attrs(tag: &str) -> (r: TagAttrs)
    ensures
        r@ == tag_attrs(tag@),
{
    let chars = chars_of(tag);
    attrs_of_chars(chars.as_slice())
}

// ---- preview metadata ---------------------------------------------------

/// The key a `<meta>` tag names: `property`, else `name`.
pub open spec fn meta_key(attrs: Seq<(Seq<char>, Seq<char>)>) -> Option<Seq<char>> {
    match attr_lookup(attrs, "property"@) {
        Some(k) => Some(k),
        None => attr_lookup(attrs, "name"@),
    }
}

/// Every `<meta>` tag from index `from` on that has a key and a `content`:
/// its lower-cased key and raw content, in document order. Tags are found in
/// the lower-cased text `lower` and read from `html`.
pub open spec fn meta_pairs(html: Seq<char>, lower: Seq<char>, from: int) -> Seq<(Seq<char>, Seq<char>)>
    decreases html.len() - from,
{
    match find_from(lower, from, "<meta"@) {
        None => Seq::empty(),
        Some(start) => match find_char_from(html, start, '>') {
            None => Seq::empty(),
            Some(end) => if from <= start && start < end && end < html.len() {
                let attrs = tag_attrs(html.subrange(start + 1, end));
                let rest = meta_pairs(html, lower, end + 1);
                match (meta_key(attrs), attr_lookup(attrs, "content"@)) {
                    (Some(k), Some(c)) => seq![(ascii_lower_seq(k), c)] + rest,
                    _ => rest,
                }
            } else {
                Seq::empty()
            },
        },
    }
}

/// The content of the first listed tag with key `key`.
pub open spec fn prop_lookup(props: Seq<(Seq<char>, Seq<char>)>, key: Seq<char>) -> Option<Seq<char>>
    decreases props.len(),
{
    if props.len() == 0 {
        None
    } else if props[0].0 == key {
        Some(props[0].1)
    } else {
        prop_lookup(props.drop_first(), key)
    }
}

/// The trimmed text of the first `<title>` element, if it is closed.
pub open spec fn title_of(html: Seq<char>, lower: Seq<char>) -> Option<Seq<char>> {
    match find_from(lower, 0, "<title"@) {
        None => None,
        Some(ts) => match find_char_from(html, ts, '>') {
            None => None,
            Some(gt) => match find_from(lower, gt + 1, "</title>"@) {
                None => None,
                Some(te) => Some(trim(html.subrange(gt + 1, te))),
            },
        },
    }
}

/// The value for an output key: the first candidate whose trimmed and
/// decoded content is non-empty, else the trimmed and decoded fallback when
/// that is non-empty.
pub open spec fn pick(props: Seq<(Seq<char>, Seq<char>)>, candidates: Seq<Seq<char>>, fallback: Option<Seq<char>>) -> Option<Seq<char>>
    decreases candidates.len(),
{
    if candidates.len() > 0 {
        match prop_lookup(props, candidates[0]) {
            Some(v) => if decode_entities_spec(trim(v)).len() > 0 {
                Some(decode_entities_spec(trim(v)))
            } else {
                pick(props, candidates.drop_first(), fallback)
            },
            None => pick(props, candidates.drop_first(), fallback),
        }
    } else {
        match fallback {
            Some(f) => if trim(f).len() > 0 { Some(decode_entities_spec(trim(f))) } else { None },
            None => None,
        }
    }
}

pub open spec fn entry(key: Seq<char>, value: Option<Seq<char>>) -> Seq<(Seq<char>, Seq<char>)> {
    match value {
        Some(v) => seq![(key, v)],
        None => Seq::empty(),
    }
}

/// The preview fields of an HTML document, keyed as a Matrix `preview_url`
/// response is, in this order: `og:title` (falling back to `<title>`),
/// `og:description`, `og:image`, `og:site_name`, `og:type`, `og:video`,
/// `og:image:width` and `og:image:height`.
pub open spec fn og_entries(html: Seq<char>) -> Seq<(Seq<char>, Seq<char>)> {
    let lower = ascii_lower_seq(html);
    let props = meta_pairs(html, lower, 0);
    entry("og:title"@, pick(props, seq!["og:title"@, "twitter:title"@], title_of(html, lower)))
        + entry("og:description"@, pick(props, seq!["og:description"@, "twitter:description"@, "description"@], None))
        + entry("og:image"@, pick(props, seq!["og:image"@, "og:image:url"@, "og:image:secure_url"@, "twitter:image"@, "twitter:image:src"@], None))
        + entry("og:site_name"@, pick(props, seq!["og:site_name"@], None))
        + entry("og:type"@, pick(props, seq!["og:type"@], None))
        + entry("og:video"@, pick(props, seq!["og:video"@, "og:video:url"@, "og:video:secure_url"@], None))
        + entry("og:image:width"@, pick(props, seq!["og:image:width"@], None))
        + entry("og:image:height"@, pick(props, seq!["og:image:height"@], None))
}

/// The content of the first `<meta>` tag keyed `key`, trimmed and decoded,
/// when that is not empty.
pub open spec fn filled(props: Seq<(Seq<char>, Seq<char>)>, key: Seq<char>) -> Option<Seq<char>> {
    match prop_lookup(props, key) {
        Some(c) => if decode_entities_spec(trim(c)).len() > 0 { Some(decode_entities_spec(trim(c))) } else { None },
        None => None,
    }
}

/// `a` if it is present, else `b`.
pub open spec fn first_some(a: Option<Seq<char>>, b: Option<Seq<char>>) -> Option<Seq<char>> {
    if a is Some { a } else { b }
}

/// The `<title>` text, trimmed and decoded, when its trimmed text is not
/// empty.
pub open spec fn title_text(t: Option<Seq<char>>) -> Option<Seq<char>> {
    match t {
        Some(f) => if trim(f).len() > 0 { Some(decode_entities_spec(trim(f))) } else { None },
        None => None,
    }
}

proof fn lemma_lookup_concat(a: Seq<(Seq<char>, Seq<char>)>, b: Seq<(Seq<char>, Seq<char>)>, k: Seq<char>)
    ensures
        prop_lookup(a + b, k) == first_some(prop_lookup(a, k), prop_lookup(b, k)),
    decreases a.len(),
{
    if a.len() == 0 {
        assert(a + b =~= b);
    } else {
        assert((a + b).drop_first() =~= a.drop_first() + b);
        lemma_lookup_concat(a.drop_first(), b, k);
    }
}

proof fn lemma_lookup_entry(key: Seq<char>, v: Option<Seq<char>>, k: Seq<char>)
    ensures
        prop_lookup(entry(key, v), k) == if key == k { v } else { None },
{
    match v {
        Some(x) => {
            assert(entry(key, v).drop_first() =~= Seq::<(Seq<char>, Seq<char>)>::empty());
            reveal_with_fuel(prop_lookup, 2);
        },
        None => {},
    }
}

proof fn lemma_pick_step(props: Seq<(Seq<char>, Seq<char>)>, cands: Seq<Seq<char>>, fallback: Option<Seq<char>>)
    ensures
        pick(props, cands, fallback) == if cands.len() > 0 {
            first_some(filled(props, cands[0]), pick(props, cands.drop_first(), fallback))
        } else {
            title_text(fallback)
        },
{
}

/// The pairs for eight keys and their optional values, in order.
pub open spec fn entries8(keys: Seq<Seq<char>>, vs: Seq<Option<Seq<char>>>) -> Seq<(Seq<char>, Seq<char>)> {
    entry(keys[0], vs[0]) + entry(keys[1], vs[1]) + entry(keys[2], vs[2]) + entry(keys[3], vs[3])
        + entry(keys[4], vs[4]) + entry(keys[5], vs[5]) + entry(keys[6], vs[6]) + entry(keys[7], vs[7])
}

proof fn lemma_lookup8(keys: Seq<Seq<char>>, vs: Seq<Option<Seq<char>>>, t: int)
    requires
        keys.len() == 8,
        vs.len() == 8,
        0 <= t < 8,
        forall|i: int, j: int| 0 <= i < 8 && 0 <= j < 8 && i != j ==> #[trigger] keys[i] != #[trigger] keys[j],
    ensures
        prop_lookup(entries8(keys, vs), keys[t]) == vs[t],
{
    let k = keys[t];
    let e1 = entry(keys[0], vs[0]);
    let e2 = e1 + entry(keys[1], vs[1]);
    let e3 = e2 + entry(keys[2], vs[2]);
    let e4 = e3 + entry(keys[3], vs[3]);
    let e5 = e4 + entry(keys[4], vs[4]);
    let e6 = e5 + entry(keys[5], vs[5]);
    let e7 = e6 + entry(keys[6], vs[6]);
    lemma_lookup_entry(keys[0], vs[0], k);
    lemma_lookup_entry(keys[1], vs[1], k);
    lemma_lookup_entry(keys[2], vs[2], k);
    lemma_lookup_entry(keys[3], vs[3], k);
    lemma_lookup_entry(keys[4], vs[4], k);
    lemma_lookup_entry(keys[5], vs[5], k);
    lemma_lookup_entry(keys[6], vs[6], k);
    lemma_lookup_entry(keys[7], vs[7], k);
    lemma_lookup_concat(e1, entry(keys[1], vs[1]), k);
    lemma_lookup_concat(e2, entry(keys[2], vs[2]), k);
    lemma_lookup_concat(e3, entry(keys[3], vs[3]), k);
    lemma_lookup_concat(e4, entry(keys[4], vs[4]), k);
    lemma_lookup_concat(e5, entry(keys[5], vs[5]), k);
    lemma_lookup_concat(e6, entry(keys[6], vs[6]), k);
    lemma_lookup_concat(e7, entry(keys[7], vs[7]), k);
}

proof fn lemma_pick1(p: Seq<(Seq<char>, Seq<char>)>, a: Seq<char>)
    ensures
        pick(p, seq![a], None) == filled(p, a),
{
    lemma_pick_step(p, seq![a], None);
    assert(seq![a].drop_first() =~= Seq::<Seq<char>>::empty());
    lemma_pick_step(p, Seq::<Seq<char>>::empty(), None);
}

proof fn lemma_pick2(p: Seq<(Seq<char>, Seq<char>)>, a: Seq<char>, b: Seq<char>, fb: Option<Seq<char>>)
    ensures
        pick(p, seq![a, b], fb) == first_some(filled(p, a), first_some(filled(p, b), title_text(fb))),
{
    lemma_pick_step(p, seq![a, b], fb);
    assert(seq![a, b].drop_first() =~= seq![b]);
    lemma_pick_step(p, seq![b], fb);
    assert(seq![b].drop_first() =~= Seq::<Seq<char>>::empty());
    lemma_pick_step(p, Seq::<Seq<char>>::empty(), fb);
}

proof fn lemma_pick3(p: Seq<(Seq<char>, Seq<char>)>, a: Seq<char>, b: Seq<char>, c: Seq<char>)
    ensures
        pick(p, seq![a, b, c], None) == first_some(filled(p, a), first_some(filled(p, b), filled(p, c))),
{
    lemma_pick_step(p, seq![a, b, c], None);
    assert(seq![a, b, c].drop_first() =~= seq![b, c]);
    lemma_pick2(p, b, c, None);
    assert(first_some(filled(p, c), title_text(None)) == filled(p, c));
}

proof fn lemma_pick5(p: Seq<(Seq<char>, Seq<char>)>, a: Seq<char>, b: Seq<char>, c: Seq<char>, d: Seq<char>, f: Seq<char>)
    ensures
        pick(p, seq![a, b, c, d, f], None) == first_some(filled(p, a), first_some(filled(p, b), first_some(
            filled(p, c), first_some(filled(p, d), filled(p, f))))),
{
    lemma_pick_step(p, seq![a, b, c, d, f], None);
    assert(seq![a, b, c, d, f].drop_first() =~= seq![b, c, d, f]);
    lemma_pick_step(p, seq![b, c, d, f], None);
    assert(seq![b, c, d, f].drop_first() =~= seq![c, d, f]);
    lemma_pick3(p, c, d, f);
}

/// Each preview field is what the page's own tags give it, for every page:
/// the content of the first `<meta>` tag carrying the field's first key,
/// trimmed and decoded, when that is not empty, else the next key's, in
/// the field's order of keys; `og:title` falls back to the `<title>` text.
/// A field none of whose keys has such content is absent. For instance a
/// page whose only tag is `<meta property="og:image:height" content="480">`
/// has `og:image:height` 480 and no other field.
pub proof fn law_preview_fields(html: Seq<char>)
    ensures
        ({
            let p = meta_pairs(html, ascii_lower_seq(html), 0);
            let e = og_entries(html);
            &&& prop_lookup(e, "og:title"@) == first_some(filled(p, "og:title"@), first_some(
                filled(p, "twitter:title"@), title_text(title_of(html, ascii_lower_seq(html)))))
            &&& prop_lookup(e, "og:description"@) == first_some(filled(p, "og:description"@), first_some(
                filled(p, "twitter:description"@), filled(p, "description"@)))
            &&& prop_lookup(e, "og:image"@) == first_some(filled(p, "og:image"@), first_some(
                filled(p, "og:image:url"@), first_some(filled(p, "og:image:secure_url"@), first_some(
                filled(p, "twitter:image"@), filled(p, "twitter:image:src"@)))))
            &&& prop_lookup(e, "og:site_name"@) == filled(p, "og:site_name"@)
            &&& prop_lookup(e, "og:type"@) == filled(p, "og:type"@)
            &&& prop_lookup(e, "og:video"@) == first_some(filled(p, "og:video"@), first_some(
                filled(p, "og:video:url"@), filled(p, "og:video:secure_url"@)))
            &&& prop_lookup(e, "og:image:width"@) == filled(p, "og:image:width"@)
            &&& prop_lookup(e, "og:image:height"@) == filled(p, "og:image:height"@)
        }),
{
    reveal_strlit("og:title");
    reveal_strlit("og:description");
    reveal_strlit("og:image");
    reveal_strlit("og:site_name");
    reveal_strlit("og:type");
    reveal_strlit("og:video");
    reveal_strlit("og:image:width");
    reveal_strlit("og:image:height");
    let keys = seq!["og:title"@, "og:description"@, "og:image"@, "og:site_name"@, "og:type"@, "og:video"@,
        "og:image:width"@, "og:image:height"@];
    assert("og:title"@[3] == 't' && "og:image"@[3] == 'i' && "og:video"@[3] == 'v');
    assert("og:description"@[3] == 'd' && "og:image:width"@[3] == 'i');
    assert forall|i: int, j: int| 0 <= i < 8 && 0 <= j < 8 && i != j implies #[trigger] keys[i] != #[trigger] keys[j] by {
        if keys[i] == keys[j] {
            assert(keys[i].len() == keys[j].len());
            assert(keys[i][3] == keys[j][3]);
        }
    }
    let lower = ascii_lower_seq(html);
    let p = meta_pairs(html, lower, 0);
    let t = title_of(html, lower);
    let vs = seq![
        pick(p, seq!["og:title"@, "twitter:title"@], t),
        pick(p, seq!["og:description"@, "twitter:description"@, "description"@], None),
        pick(p, seq!["og:image"@, "og:image:url"@, "og:image:secure_url"@, "twitter:image"@, "twitter:image:src"@], None),
        pick(p, seq!["og:site_name"@], None),
        pick(p, seq!["og:type"@], None),
        pick(p, seq!["og:video"@, "og:video:url"@, "og:video:secure_url"@], None),
        pick(p, seq!["og:image:width"@], None),
        pick(p, seq!["og:image:height"@], None)
    ];
    assert(og_entries(html) == entries8(keys, vs));
    lemma_lookup8(keys, vs, 0);
    lemma_lookup8(keys, vs, 1);
    lemma_lookup8(keys, vs, 2);
    lemma_lookup8(keys, vs, 3);
    lemma_lookup8(keys, vs, 4);
    lemma_lookup8(keys, vs, 5);
    lemma_lookup8(keys, vs, 6);
    lemma_lookup8(keys, vs, 7);
    lemma_pick2(p, "og:title"@, "twitter:title"@, t);
    lemma_pick3(p, "og:description"@, "twitter:description"@, "description"@);
    lemma_pick5(p, "og:image"@, "og:image:url"@, "og:image:secure_url"@, "twitter:image"@, "twitter:image:src"@);
    lemma_pick1(p, "og:site_name"@);
    lemma_pick1(p, "og:type"@);
    lemma_pick3(p, "og:video"@, "og:video:url"@, "og:video:secure_url"@);
    lemma_pick1(p, "og:image:width"@);
    lemma_pick1(p, "og:image:height"@);
}

/// The views of a list of string pairs.
pub open spec fn pair_views(p: Seq<(String, String)>) -> Seq<(Seq<char>, Seq<char>)> {
    p.map_values(|e: (String, String)| (e.0@, e.1@))
}

/// The views of a list of string slices.
pub open spec fn str_views(c: Seq<&str>) -> Seq<Seq<char>> {
    c.map_values(|x: &str| x@)
}

/// Link-preview fields, as (key, value) pairs.
#[derive(Debug)]
pub struct OgPreview {
    entries: Vec<(String, String)>,
}

impl View for OgPreview {
    type V = Seq<(Seq<char>, Seq<char>)>;

    closed spec fn view(&self) -> Seq<(Seq<char>, Seq<char>)> {
        pair_views(self.entries@)
    }
}

impl OgPreview {
    /// The fields, in order.
    pub fn entries(&self) -> (r: &Vec<(String, String)>)
        ensures
            pair_views(r@) == self@,
    {
        &self.entries
    }

    pub fn is_empty(&self) -> (r: bool)
        ensures
            r == (self@.len() == 0),
    {
        self.entries.len() == 0
    }
}

type Props = Vec<(Vec<char>, String)>;

pub open spec fn props_view(p: Seq<(Vec<char>, String)>) -> Seq<(Seq<char>, Seq<char>)> {
    p.map_values(|e: (Vec<char>, String)| (e.0@, e.1@))
}

fn lookup_prop<'a>(props: &'a Props, key: &str) -> (r: Option<&'a String>)
    ensures
        match r {
            Some(v) => prop_lookup(props_view(props@), key@) == Some(v@),
            None => prop_lookup(props_view(props@), key@) is None,
        },
{
    let k = chars_of(key);
    let mut i: usize = 0;
    assert(props_view(props@).skip(0) =~= props_view(props@));
    while i < props.len()
        invariant
            i <= props@.len(),
            k@ == key@,
            prop_lookup(props_view(props@), key@) == prop_lookup(props_view(props@).skip(i as int), key@),
        decreases props@.len() - i,
    {
        let ghost rest = props_view(props@).skip(i as int);
        assert(rest[0] == (props@[i as int].0@, props@[i as int].1@));
        assert(rest.drop_first() == props_view(props@).skip(i + 1));
        let entry_key = props[i].0.as_slice();
        if entry_key.len() == k.len() && matches_at(entry_key, 0, k.as_slice()) {
            assert(entry_key@.subrange(0, k@.len() as int) =~= entry_key@);
            return Some(&props[i].1);
        }
        proof {
            if entry_key@ == k@ {
                assert(entry_key@.subrange(0, k@.len() as int) =~= k@);
            }
        }
        i = i + 1;
    }
    assert(props_view(props@).skip(i as int).len() == 0);
    None
}

fn decoded_trim(v: &String) -> (r: String)
    ensures
        r@ == decode_entities_spec(trim(v@)),
{
    let t = crate::text::trimmed(v.as_str());
    decode_entities(t.as_str())
}

fn pick_value(props: &Props, candidates: &[&str], fallback: Option<&String>) -> (r: Option<String>)
    ensures
        match r {
            Some(v) => pick(props_view(props@), str_views(candidates@), match fallback {
                Some(f) => Some(f@),
                None => None,
            }) == Some(v@),
            None => pick(props_view(props@), str_views(candidates@), match fallback {
                Some(f) => Some(f@),
                None => None,
            }) is None,
        },
{
    let ghost fb = match fallback {
        Some(f) => Some(f@),
        None => None::<Seq<char>>,
    };
    let ghost all = str_views(candidates@);
    assert(all.skip(0) =~= all);
    let mut i: usize = 0;
    while i < candidates.len()
        invariant
            i <= candidates@.len(),
            all == str_views(candidates@),
            fb == match fallback {
                Some(f) => Some(f@),
                None => None::<Seq<char>>,
            },
            pick(props_view(props@), all, fb) == pick(props_view(props@), all.skip(i as int), fb),
        decreases candidates@.len() - i,
    {
        let ghost rest = all.skip(i as int);
        assert(rest[0] == candidates@[i as int]@);
        assert(rest.drop_first() == all.skip(i + 1));
        match lookup_prop(props, candidates[i]) {
            Some(v) => {
                let dv = decoded_trim(v);
                if dv.as_str().unicode_len() > 0 {
                    return Some(dv);
                }
            },
            None => {},
        }
        i = i + 1;
    }
    assert(all.skip(i as int).len() == 0);
    match fallback {
        Some(f) => {
            let t = crate::text::trimmed(f.as_str());
            if t.as_str().unicode_len() > 0 {
                Some(decode_entities(t.as_str()))
            } else {
                None
            }
        },
        None => None,
    }
}

fn collect_meta(html: &[char], lower: &[char]) -> (r: Props)
    requires
        lower@ == ascii_lower_seq(html@),
    ensures
        props_view(r@) == meta_pairs(html@, lower@, 0),
{
    let meta = chars_of("<meta");
    proof {
        reveal_strlit("<meta");
    }
    let mut props: Props = Vec::new();
    let mut from: usize = 0;
    loop
        invariant
            meta@ == "<meta"@,
            meta@.len() == 5,
            meta@[0] == '<',
            html@.len() == html.len(),
            lower@ == ascii_lower_seq(html@),
            from <= html@.len() + 1,
            meta_pairs(html@, lower@, 0) == props_view(props@) + meta_pairs(html@, lower@, from as int),
        ensures
            meta_pairs(html@, lower@, 0) == props_view(props@),
        decreases html@.len() + 1 - from,
    {
        let ghost before = props_view(props@);
        let start = match find_chars(lower, from, meta.as_slice()) {
            Some(p) => p,
            None => {
                assert(before + Seq::<(Seq<char>, Seq<char>)>::empty() == before);
                break;
            },
        };
        proof {
            crate::text::lemma_find_char_found(html@, start as int, '>');
        }
        let end = match find_char(html, start, '>') {
            Some(e) => e,
            None => {
                assert(before + Seq::<(Seq<char>, Seq<char>)>::empty() == before);
                break;
            },
        };
        assert(lower@[start as int] == '<') by {
            assert(lower@.subrange(start as int, start + 5) == meta@);
            assert(lower@.subrange(start as int, start + 5)[0] == lower@[start as int]);
        }
        assert(html@[start as int] == '<');
        assert(start < end);
        let body = vstd::slice::slice_subrange(html, start + 1, end);
        let attrs = attrs_of_chars(body);
        let key = match attrs.get("property") {
            Some(k) => Some(k),
            None => attrs.get("name"),
        };
        match (key, attrs.get("content")) {
            (Some(k), Some(c)) => {
                let kc = chars_of(k.as_str());
                let kl = lower_chars(kc.as_slice());
                props.push((kl, c.clone()));
                assert(props_view(props@) == before.push((ascii_lower_seq(k@), c@)));
                assert(before + meta_pairs(html@, lower@, from as int)
                    == before.push((ascii_lower_seq(k@), c@)) + meta_pairs(html@, lower@, end + 1));
            },
            _ => {
                assert(props_view(props@) == before);
            },
        }
        from = end + 1;
    }
    props
}

fn find_title(html: &[char], lower: &[char]) -> (r: Option<String>)
    requires
        lower@ == ascii_lower_seq(html@),
    ensures
        match r {
            Some(t) => title_of(html@, lower@) == Some(t@),
            None => title_of(html@, lower@) is None,
        },
{
    let open = chars_of("<title");
    let close = chars_of("</title>");
    let ts = match find_chars(lower, 0, open.as_slice()) {
        Some(p) => p,
        None => return None,
    };
    proof {
        crate::text::lemma_find_char_found(html@, ts as int, '>');
    }
    let gt = match find_char(html, ts, '>') {
        Some(g) => g,
        None => return None,
    };
    assert(html@.len() == html.len());
    let te = match find_chars(lower, gt + 1, close.as_slice()) {
        Some(t) => t,
        None => return None,
    };
    assert(lower@.len() == html@.len());
    let (a, b) = trim_bounds(html, gt + 1, te);
    Some(string_of(html, a, b))
}

/// Scans an HTML document for `og:`, `twitter:` and `<title>` metadata and
/// returns the preview fields, keyed as a Matrix `preview_url` response is,
/// so the page renders a fallback card with no special-casing. For each key
/// the first `<meta>` tag carrying it wins; values are trimmed and their
/// entities decoded, and empty values are skipped.
pub fn extract_og(html: &str) -> (r: OgPreview)
    ensures
        r@ == og_entries(html@),
{
    let chars = chars_of(html);
    let lower = lower_chars(chars.as_slice());
    let props = collect_meta(chars.as_slice(), lower.as_slice());
    let title = find_title(chars.as_slice(), lower.as_slice());
    let mut entries: Vec<(String, String)> = Vec::new();
    let ghost p = props_view(props@);
    let ghost l = ascii_lower_seq(html@);

    let cands0: [&str; 2] = ["og:title", "twitter:title"];
    assert(str_views(cands0@) =~= seq!["og:title"@, "twitter:title"@]);
    let v0 = pick_value(&props, &cands0, title.as_ref());
    push_entry(&mut entries, "og:title", v0);
    let cands1: [&str; 3] = ["og:description", "twitter:description", "description"];
    assert(str_views(cands1@) =~= seq!["og:description"@, "twitter:description"@, "description"@]);
    let v1 = pick_value(&props, &cands1, None);
    push_entry(&mut entries, "og:description", v1);
    let cands2: [&str; 5] = ["og:image", "og:image:url", "og:image:secure_url", "twitter:image", "twitter:image:src"];
    assert(str_views(cands2@) =~= seq!["og:image"@, "og:image:url"@, "og:image:secure_url"@, "twitter:image"@, "twitter:image:src"@]);
    let v2 = pick_value(&props, &cands2, None);
    push_entry(&mut entries, "og:image", v2);
    let cands3: [&str; 1] = ["og:site_name"];
    assert(str_views(cands3@) =~= seq!["og:site_name"@]);
    let v3 = pick_value(&props, &cands3, None);
    push_entry(&mut entries, "og:site_name", v3);
    let cands4: [&str; 1] = ["og:type"];
    assert(str_views(cands4@) =~= seq!["og:type"@]);
    let v4 = pick_value(&props, &cands4, None);
    push_entry(&mut entries, "og:type", v4);
    let cands5: [&str; 3] = ["og:video", "og:video:url", "og:video:secure_url"];
    assert(str_views(cands5@) =~= seq!["og:video"@, "og:video:url"@, "og:video:secure_url"@]);
    let v5 = pick_value(&props, &cands5, None);
    push_entry(&mut entries, "og:video", v5);
    let cands6: [&str; 1] = ["og:image:width"];
    assert(str_views(cands6@) =~= seq!["og:image:width"@]);
    let v6 = pick_value(&props, &cands6, None);
    push_entry(&mut entries, "og:image:width", v6);
    let cands7: [&str; 1] = ["og:image:height"];
    assert(str_views(cands7@) =~= seq!["og:image:height"@]);
    let v7 = pick_value(&props, &cands7, None);
    push_entry(&mut entries, "og:image:height", v7);
    OgPreview { entries }
}

fn push_entry(entries: &mut Vec<(String, String)>, key: &str, value: Option<String>)
    ensures
        pair_views(final(entries)@) == pair_views(old(entries)@) + entry(key@, match value {
                Some(v) => Some(v@),
                None => None,
            }),
{
    match value {
        Some(v) => {
            entries.push((String::from_str(key), v));
            assert(pair_views(entries@) =~= pair_views(old(entries)@) + entry(key@, Some(v@)));
        },
        None => {
            assert(pair_views(old(entries)@) + Seq::<(Seq<char>, Seq<char>)>::empty() =~= pair_views(old(entries)@));
        },
    }
}

/// The text `String::from_utf8_lossy` makes of some bytes.
pub uninterp spec fn utf8_lossy(bytes: Seq<u8>) -> Seq<char>;

/// `String::from_utf8_lossy`: the bytes as text, with each invalid sequence
/// replaced by U+FFFD. Valid UTF-8 comes back unchanged.
#[verifier::external_body]
fn from_utf8_lossy(bytes: &[u8]) -> (r: String)
    ensures
        r@ == utf8_lossy(bytes@),
        vstd::utf8::valid_utf8(bytes@) ==> r@ == vstd::utf8::decode_utf8(bytes@),
{
    String::from_utf8_lossy(bytes).into_owned()
}

/// Why a page yielded no preview.
#[derive(Debug, PartialEq, Eq)]
pub enum PreviewError {
    /// The page carries none of the preview fields.
    NoMetadata,
}

/// The preview card for a fetched page body (already cut to at most
/// `OG_PREVIEW_MAX_BYTES`): its fields, or an error when it has none.
pub fn preview_from_body(body: &[u8]) -> (r: Result<OgPreview, PreviewError>)
    ensures
        match r {
            Ok(p) => p@ == og_entries(utf8_lossy(body@)) && p@.len() > 0,
            Err(e) => e == PreviewError::NoMetadata && og_entries(utf8_lossy(body@)).len() == 0,
        },
{
    let html = from_utf8_lossy(body);
    let preview = extract_og(html.as_str());
    if preview.is_empty() {
        Err(PreviewError::NoMetadata)
    } else {
        Ok(preview)
    }
}

} // verus!
