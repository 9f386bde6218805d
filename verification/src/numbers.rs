//! Decimal and radix number parsing as the standard library does it.

use vstd::prelude::*;

verus! {

/// The value of a digit character in `radix` (up to 36), if it is one.
pub open spec fn digit_value(c: char, radix: u32) -> Option<u32> {
    let v: u32 = if '0' <= c && c <= '9' {
        ((c as u32) - 48) as u32
    } else if 'a' <= c && c <= 'z' {
        ((c as u32) - 87) as u32
    } else if 'A' <= c && c <= 'Z' {
        ((c as u32) - 55) as u32
    } else {
        99
    };
    if v < radix { Some(v) } else { None }
}

/// Every character of `s` is a digit in `radix`.
pub open spec fn all_digits(s: Seq<char>, radix: u32) -> bool {
    forall|i: int| 0 <= i < s.len() ==> #[trigger] digit_value(s[i], radix) is Some
}

/// The number the digits of `s` spell in `radix`.
pub open spec fn digits_value(s: Seq<char>, radix: u32) -> int
    decreases s.len(),
{
    if s.len() == 0 {
        0
    } else {
        digits_value(s.drop_last(), radix) * radix + digit_value(s.last(), radix).unwrap()
    }
}

/// `u32::from_str_radix`: an optional `+` followed by at least one digit,
/// with a value that fits in 32 bits.
pub open spec fn parse_u32_radix(src: Seq<char>, radix: u32) -> Option<u32> {
    let digits = if src.len() > 0 && src[0] == '+' { src.drop_first() } else { src };
    if digits.len() == 0 || !all_digits(digits, radix) || digits_value(digits, radix) > u32::MAX {
        None
    } else {
        Some(digits_value(digits, radix) as u32)
    }
}

pub proof fn lemma_digits_value_nonneg(s: Seq<char>, radix: u32)
    requires
        all_digits(s, radix),
    ensures
        digits_value(s, radix) >= 0,
    decreases s.len(),
{
    if s.len() > 0 {
        assert(all_digits(s.drop_last(), radix)) by {
            assert forall|i: int| 0 <= i < s.drop_last().len() implies #[trigger] digit_value(s.drop_last()[i], radix) is Some by {
                assert(s.drop_last()[i] == s[i]);
            }
        }
        lemma_digits_value_nonneg(s.drop_last(), radix);
        assert(digit_value(s[s.len() - 1], radix) is Some);
        assert(digits_value(s.drop_last(), radix) * radix >= 0) by (nonlinear_arith)
            requires digits_value(s.drop_last(), radix) >= 0;
    }
}

/// A longer run of digits is worth at least as much as its prefix.
pub proof fn lemma_digits_value_grows(s: Seq<char>, i: int, radix: u32)
    requires
        0 <= i <= s.len(),
        all_digits(s, radix),
        radix >= 1,
    ensures
        digits_value(s.take(i), radix) <= digits_value(s, radix),
    decreases s.len() - i,
{
    if i < s.len() {
        lemma_digits_value_grows(s, i + 1, radix);
        let t = s.take(i + 1);
        assert(t.drop_last() =~= s.take(i));
        assert(t.last() == s[i]);
        assert(digit_value(s[i], radix) is Some);
        assert(all_digits(s.take(i), radix)) by {
            assert forall|k: int| 0 <= k < s.take(i).len() implies #[trigger] digit_value(s.take(i)[k], radix) is Some by {
                assert(s.take(i)[k] == s[k]);
            }
        }
        lemma_digits_value_nonneg(s.take(i), radix);
        let a = digits_value(s.take(i), radix);
        assert(a * radix >= a) by (nonlinear_arith)
            requires a >= 0, radix >= 1;
    } else {
        assert(s.take(i) =~= s);
    }
}

/// The lower-case hexadecimal digit for a value below 16.
pub open spec fn lower_hex_digit(d: nat) -> char {
    if d < 10 { (48 + d) as char } else { (87 + d) as char }
}

/// `n` in lower-case hexadecimal, without leading zeros (`0` for zero).
pub open spec fn lower_hex_spelling(n: nat) -> Seq<char>
    decreases n,
{
    if n < 16 {
        seq![lower_hex_digit(n)]
    } else {
        lower_hex_spelling(n / 16).push(lower_hex_digit(n % 16))
    }
}

pub open spec fn pow16(k: nat) -> nat
    decreases k,
{
    if k == 0 { 1 } else { 16 * pow16((k - 1) as nat) }
}

/// The spelling is made of hexadecimal digits, worth `n`, and has at most
/// `k` of them when `n` is below 16 to the `k`.
pub proof fn lemma_lower_hex_spelling(n: nat, k: nat)
    requires
        1 <= k,
        n < pow16(k),
    ensures
        all_digits(lower_hex_spelling(n), 16),
        digits_value(lower_hex_spelling(n), 16) == n,
        1 <= lower_hex_spelling(n).len() <= k,
        forall|i: int| 0 <= i < lower_hex_spelling(n).len() ==> {
            let c = #[trigger] lower_hex_spelling(n)[i];
            ('0' <= c && c <= '9') || ('a' <= c && c <= 'f')
        },
    decreases n,
{
    let h = lower_hex_spelling(n);
    if n < 16 {
        assert(h.drop_last() =~= Seq::<char>::empty());
        assert(digit_value(h[0], 16) == Some(n as u32));
        assert(h.last() == h[0]);
        assert(digits_value(h.drop_last(), 16) == 0);
        assert(digits_value(h, 16) == n);
    } else {
        let q = n / 16;
        assert(k >= 2) by {
            if k == 1 {
                assert(pow16(1) == 16 * pow16(0));
            }
        }
        assert(pow16(k) == 16 * pow16((k - 1) as nat));
        assert(q < pow16((k - 1) as nat)) by (nonlinear_arith)
            requires q == n / 16, n < 16 * pow16((k - 1) as nat);
        lemma_lower_hex_spelling(q, (k - 1) as nat);
        let t = lower_hex_spelling(q);
        assert(h.drop_last() =~= t);
        assert(h.last() == lower_hex_digit(n % 16));
        assert(digit_value(h.last(), 16) == Some((n % 16) as u32));
        assert forall|i: int| 0 <= i < h.len() implies #[trigger] digit_value(h[i], 16) is Some by {
            if i < t.len() {
                assert(h[i] == t[i]);
            }
        }
        assert forall|i: int| 0 <= i < h.len() implies {
            let c = #[trigger] h[i];
            ('0' <= c && c <= '9') || ('a' <= c && c <= 'f')
        } by {
            if i < t.len() {
                assert(h[i] == t[i]);
            }
        }
        assert(n == q * 16 + n % 16);
        assert(digits_value(h, 16) == digits_value(t, 16) * 16 + (n % 16));
    }
}

/// Hexadecimal digits are read the same in either case: a digit string and
/// its ASCII-lower-cased spelling parse to the same number.
pub proof fn law_hex_digits_case_insensitive(s: Seq<char>)
    ensures
        parse_u32_radix(crate::text::ascii_lower_seq(s), 16) == parse_u32_radix(s, 16),
{
    let l = crate::text::ascii_lower_seq(s);
    assert forall|i: int| 0 <= i < s.len() implies #[trigger] digit_value(l[i], 16) == digit_value(s[i], 16) by {
        lemma_digit_value_lower(s[i]);
    }
    let ds = if s.len() > 0 && s[0] == '+' { s.drop_first() } else { s };
    let dl = if l.len() > 0 && l[0] == '+' { l.drop_first() } else { l };
    if s.len() > 0 {
        assert(l[0] == '+' <==> s[0] == '+');
    }
    assert(dl.len() == ds.len());
    assert forall|i: int| 0 <= i < ds.len() implies #[trigger] digit_value(dl[i], 16) == digit_value(ds[i], 16) by {
        if s.len() > 0 && s[0] == '+' {
            assert(dl[i] == l[i + 1] && ds[i] == s[i + 1]);
        } else {
            assert(dl[i] == l[i] && ds[i] == s[i]);
        }
    }
    lemma_same_digits(dl, ds);
}

proof fn lemma_digit_value_lower(c: char)
    ensures
        digit_value(crate::text::ascii_lower(c), 16) == digit_value(c, 16),
{
}

proof fn lemma_same_digits(a: Seq<char>, b: Seq<char>)
    requires
        a.len() == b.len(),
        forall|i: int| 0 <= i < a.len() ==> #[trigger] digit_value(a[i], 16) == digit_value(b[i], 16),
    ensures
        all_digits(a, 16) == all_digits(b, 16),
        digits_value(a, 16) == digits_value(b, 16),
    decreases a.len(),
{
    if a.len() > 0 {
        assert forall|i: int| 0 <= i < a.drop_last().len() implies #[trigger] digit_value(a.drop_last()[i], 16) == digit_value(b.drop_last()[i], 16) by {
            assert(a.drop_last()[i] == a[i] && b.drop_last()[i] == b[i]);
        }
        lemma_same_digits(a.drop_last(), b.drop_last());
        assert(digit_value(a.last(), 16) == digit_value(b.last(), 16));
        if all_digits(b, 16) {
            assert forall|i: int| 0 <= i < a.len() implies #[trigger] digit_value(a[i], 16) is Some by {
                assert(digit_value(b[i], 16) is Some);
            }
        }
        if all_digits(a, 16) {
            assert forall|i: int| 0 <= i < b.len() implies #[trigger] digit_value(b[i], 16) is Some by {
                assert(digit_value(a[i], 16) is Some);
            }
        }
    }
}

fn digit_of(c: char, radix: u32) -> (r: Option<u32>)
    requires
        radix <= 36,
    ensures
        r == digit_value(c, radix),
{
    let v: u32 = if '0' <= c && c <= '9' {
        (c as u32) - 48
    } else if 'a' <= c && c <= 'z' {
        (c as u32) - 87
    } else if 'A' <= c && c <= 'Z' {
        (c as u32) - 55
    } else {
        99
    };
    if v < radix { Some(v) } else { None }
}

/// Parses `chars[from..to]` as `u32::from_str_radix` would.
pub fn parse_radix(chars: &[char], from: usize, to: usize, radix: u32) -> (r: Option<u32>)
    requires
        from <= to <= chars@.len(),
        2 <= radix <= 36,
    ensures
        r == parse_u32_radix(chars@.subrange(from as int, to as int), radix),
{
    let ghost src = chars@.subrange(from as int, to as int);
    let mut start = from;
    if start < to && chars[start] == '+' {
        start = start + 1;
    }
    let ghost digits = chars@.subrange(start as int, to as int);
    assert(digits == if src.len() > 0 && src[0] == '+' { src.drop_first() } else { src });
    if start == to {
        return None;
    }
    let mut acc: u64 = 0;
    let mut i = start;
    while i < to
        invariant
            from <= start <= i <= to <= chars@.len(),
            2 <= radix <= 36,
            digits == chars@.subrange(start as int, to as int),
            src == chars@.subrange(from as int, to as int),
            digits == (if src.len() > 0 && src[0] == '+' { src.drop_first() } else { src }),
            digits.len() > 0,
            all_digits(digits.take(i - start), radix),
            acc == digits_value(digits.take(i - start), radix),
            acc <= u32::MAX,
        decreases to - i,
    {
        let ghost k = i - start;
        assert(chars@[i as int] == digits[k]);
        let d = match digit_of(chars[i], radix) {
            Some(d) => d,
            None => {
                assert(digit_value(digits[k], radix) is None);
                assert(!all_digits(digits, radix));
                return None;
            },
        };
        assert(digit_value(digits[k], radix) == Some(d));
        assert(digits.take(k + 1).drop_last() =~= digits.take(k));
        assert(digits.take(k + 1).last() == digits[k]);
        assert(all_digits(digits.take(k + 1), radix)) by {
            assert forall|j: int| 0 <= j < digits.take(k + 1).len() implies #[trigger] digit_value(digits.take(k + 1)[j], radix) is Some by {
                if j < k {
                    assert(digits.take(k + 1)[j] == digits.take(k)[j]);
                }
            }
        }
        assert(acc * (radix as u64) <= 0xffff_ffff * 36) by (nonlinear_arith)
            requires acc <= 0xffff_ffff, radix <= 36;
        let next = acc * (radix as u64) + (d as u64);
        assert(digits_value(digits.take(k + 1), radix) == next);
        if next > 0xffff_ffff {
            proof {
                if all_digits(digits, radix) {
                    lemma_digits_value_grows(digits, k + 1, radix);
                }
            }
            return None;
        }
        acc = next;
        i = i + 1;
    }
    assert(digits.take(i - start) =~= digits);
    Some(acc as u32)
}

/// `i64::from_str`: an optional `+` or `-` followed by at least one decimal
/// digit, with a value in range.
pub open spec fn parse_i64_spec(s: Seq<char>) -> Option<i64> {
    let neg = s.len() > 0 && s[0] == '-';
    let digits = if s.len() > 0 && (s[0] == '+' || s[0] == '-') { s.drop_first() } else { s };
    if digits.len() == 0 || !all_digits(digits, 10) {
        None
    } else {
        let v = digits_value(digits, 10);
        let n = if neg { -v } else { v };
        if i64::MIN <= n && n <= i64::MAX { Some(n as i64) } else { None }
    }
}

/// Parses a whole string as a decimal `i64`.
pub fn parse_i64(text: &str) -> (r: Option<i64>)
    ensures
        r == parse_i64_spec(text@),
{
    let chars = crate::text::chars_of(text);
    let ghost s = text@;
    let n = chars.len();
    let neg = n > 0 && chars[0] == '-';
    let start: usize = if n > 0 && (chars[0] == '+' || chars[0] == '-') { 1 } else { 0 };
    let ghost digits = chars@.subrange(start as int, n as int);
    assert(digits == if s.len() > 0 && (s[0] == '+' || s[0] == '-') { s.drop_first() } else { s });
    if start == n {
        return None;
    }
    let limit: u64 = if neg { 0x8000_0000_0000_0000 } else { 0x7fff_ffff_ffff_ffff };
    let mut acc: u64 = 0;
    let mut i = start;
    while i < n
        invariant
            start <= i <= n == chars@.len(),
            chars@ == s,
            s == text@,
            digits == chars@.subrange(start as int, n as int),
            digits.len() > 0,
            all_digits(digits.take(i - start), 10),
            acc == digits_value(digits.take(i - start), 10),
            acc <= limit,
            limit == (if neg { 0x8000_0000_0000_0000u64 } else { 0x7fff_ffff_ffff_ffffu64 }),
            neg == (s.len() > 0 && s[0] == '-'),
            digits == (if s.len() > 0 && (s[0] == '+' || s[0] == '-') { s.drop_first() } else { s }),
        decreases n - i,
    {
        let ghost k = i - start;
        assert(chars@[i as int] == digits[k]);
        let c = chars[i];
        if !('0' <= c && c <= '9') {
            assert(digit_value(digits[k], 10) is None);
            assert(!all_digits(digits, 10));
            return None;
        }
        let d = (c as u64) - 48;
        assert(digit_value(digits[k], 10) == Some(d as u32));
        assert(digits.take(k + 1).drop_last() =~= digits.take(k));
        assert(digits.take(k + 1).last() == digits[k]);
        assert(all_digits(digits.take(k + 1), 10)) by {
            assert forall|j: int| 0 <= j < digits.take(k + 1).len() implies #[trigger] digit_value(digits.take(k + 1)[j], 10) is Some by {
                if j < k {
                    assert(digits.take(k + 1)[j] == digits.take(k)[j]);
                }
            }
        }
        assert(digits_value(digits.take(k + 1), 10) == acc * 10 + d);
        if acc > (limit - d) / 10 {
            assert(acc * 10 + d > limit) by (nonlinear_arith)
                requires acc > (limit - d) / 10, d <= 9, limit >= d;
            proof {
                if all_digits(digits, 10) {
                    lemma_digits_value_grows(digits, k + 1, 10);
                }
            }
            return None;
        }
        assert(acc * 10 + d <= limit) by (nonlinear_arith)
            requires acc <= (limit - d) / 10, d <= 9, limit >= d;
        acc = acc * 10 + d;
        i = i + 1;
    }
    assert(digits.take(i - start) =~= digits);
    if neg {
        if acc == 0x8000_0000_0000_0000 {
            Some(i64::MIN)
        } else {
            let m = acc as i64;
            Some(-m)
        }
    } else {
        Some(acc as i64)
    }
}

} // verus!
