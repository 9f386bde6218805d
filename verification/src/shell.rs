//! Small decisions the desktop shell makes about its environment, window
//! and webview.

use vstd::prelude::*;

use vstd::string::{StrSliceExecFns, StringExecFns};

use crate::text::{chars_of, find_char, find_char_from, find_chars, find_from, string_of};

verus! {

/// The taskbar overlay shown for an unread count: none for 0, the numbered
/// icon for 1 to 9, and the "9+" icon (index 10) from 10 on.
pub open spec fn overlay_index(count: u32) -> Option<usize> {
    if count == 0 {
        None
    } else if count >= 10 {
        Some(10)
    } else {
        Some(count as usize)
    }
}

pub fn badge_overlay_index(count: u32) -> (r: Option<usize>)
    ensures
        r == overlay_index(count),
{
    if count == 0 {
        None
    } else if count >= 10 {
        Some(10)
    } else {
        Some(count as usize)
    }
}

/// The dock or taskbar badge number: the count, or no badge for 0.
pub fn badge_value(count: u32) -> (r: Option<i64>)
    ensures
        r == (if count > 0 { Some(count as i64) } else { None::<i64> }),
{
    if count > 0 { Some(count as i64) } else { None }
}

/// The value a `NO_PROXY` variable gets so that the bundled frontend on
/// localhost is never sent through a proxy; `None` when it already names
/// `localhost` and is left alone.
pub open spec fn no_proxy_update(current: Seq<char>) -> Option<Seq<char>> {
    if find_from(current, 0, "localhost"@) is Some {
        None
    } else if current.len() == 0 {
        Some("localhost,127.0.0.1"@)
    } else {
        Some(current + ",localhost,127.0.0.1"@)
    }
}

pub fn no_proxy_value(current: &str) -> (r: Option<String>)
    ensures
        match r {
            Some(v) => no_proxy_update(current@) == Some(v@),
            None => no_proxy_update(current@) is None,
        },
{
    let chars = chars_of(current);
    let needle = chars_of("localhost");
    if find_chars(chars.as_slice(), 0, needle.as_slice()).is_some() {
        return None;
    }
    if chars.len() == 0 {
        return Some(String::from_str("localhost,127.0.0.1"));
    }
    let mut v = String::from_str(current);
    v.append(",localhost,127.0.0.1");
    Some(v)
}

/// Updating an already updated value changes nothing: the result always
/// names `localhost`.
pub proof fn law_no_proxy_idempotent(current: Seq<char>)
    ensures
        no_proxy_update(current) matches Some(v) ==> no_proxy_update(v) is None,
{
    reveal_strlit("localhost");
    reveal_strlit("localhost,127.0.0.1");
    reveal_strlit(",localhost,127.0.0.1");
    let needle = "localhost"@;
    match no_proxy_update(current) {
        Some(v) => {
            let at: int = if current.len() == 0 { 0 } else { current.len() + 1 as int };
            assert(v.subrange(at, at + 9) =~= needle);
            lemma_found_after(v, 0, needle, at);
        },
        None => {},
    }
}

/// If `needle` occurs at `at`, a search from before `at` finds something.
proof fn lemma_found_after(hay: Seq<char>, from: int, needle: Seq<char>, at: int)
    requires
        0 <= from <= at,
        crate::text::occurs_at(hay, at, needle),
    ensures
        find_from(hay, from, needle) is Some,
    decreases at - from,
{
    if !crate::text::occurs_at(hay, from, needle) {
        lemma_found_after(hay, from + 1, needle, at);
    }
}

/// The locale of one environment part: what comes before its first `.`
/// (`de_DE.UTF-8` gives `de_DE`).
pub open spec fn locale_of(part: Seq<char>) -> Seq<char> {
    match find_char_from(part, 0, '.') {
        Some(i) => part.take(i),
        None => part,
    }
}

/// The `:`-separated parts of `s` from index `i` on.
pub open spec fn parts_from(s: Seq<char>, i: int) -> Seq<Seq<char>>
    decreases s.len() - i,
{
    if i < 0 || i > s.len() {
        Seq::empty()
    } else {
        match find_char_from(s, i, ':') {
            Some(c) => if c >= i && c < s.len() { seq![s.subrange(i, c)] + parts_from(s, c + 1) } else { Seq::empty() },
            None => seq![s.subrange(i, s.len() as int)],
        }
    }
}

/// The spell-checking locales one variable contributes: each `:`-separated
/// part that is neither empty nor `C`, cut at its first `.`.
pub open spec fn locales_of_parts(parts: Seq<Seq<char>>) -> Seq<Seq<char>>
    decreases parts.len(),
{
    if parts.len() == 0 {
        Seq::empty()
    } else if parts[0].len() == 0 || parts[0] == "C"@ {
        locales_of_parts(parts.drop_first())
    } else {
        seq![locale_of(parts[0])] + locales_of_parts(parts.drop_first())
    }
}

/// The locales of several variables, in order.
pub open spec fn locales_of_values(values: Seq<Seq<char>>) -> Seq<Seq<char>>
    decreases values.len(),
{
    if values.len() == 0 {
        Seq::empty()
    } else {
        locales_of_parts(parts_from(values[0], 0)) + locales_of_values(values.drop_first())
    }
}

pub open spec fn string_views(v: Seq<String>) -> Seq<Seq<char>> {
    v.map_values(|s: String| s@)
}

fn locale_part(chars: &[char], from: usize, to: usize) -> (r: String)
    requires
        from <= to <= chars@.len(),
    ensures
        r@ == locale_of(chars@.subrange(from as int, to as int)),
{
    let ghost part = chars@.subrange(from as int, to as int);
    let mut i = from;
    while i < to && chars[i] != '.'
        invariant
            from <= i <= to <= chars@.len(),
            part == chars@.subrange(from as int, to as int),
            find_char_from(part, 0, '.') == find_char_from(part, i - from, '.'),
        decreases to - i,
    {
        assert(part[i - from] == chars@[i as int]);
        i = i + 1;
    }
    proof {
        if i < to {
            assert(part[i - from] == '.');
            assert(part.take(i - from) =~= chars@.subrange(from as int, i as int));
        } else {
            assert(part =~= chars@.subrange(from as int, i as int));
        }
    }
    string_of(chars, from, i)
}

fn is_c_locale(chars: &[char], from: usize, to: usize) -> (r: bool)
    requires
        from <= to <= chars@.len(),
    ensures
        r == (chars@.subrange(from as int, to as int) == "C"@),
{
    crate::text::range_is(chars, from, to, "C")
}

fn push_locales(out: &mut Vec<String>, value: &str)
    ensures
        string_views(final(out)@) == string_views(old(out)@) + locales_of_parts(parts_from(value@, 0)),
{
    let chars = chars_of(value);
    let s = chars.as_slice();
    let mut i: usize = 0;
    loop
        invariant
            s@ == value@,
            i <= s@.len(),
            string_views(old(out)@) + locales_of_parts(parts_from(value@, 0)) == string_views(out@) + locales_of_parts(parts_from(value@, i as int)),
        decreases s@.len() - i,
    {
        let end = match find_char(s, i, ':') {
            Some(c) => c,
            None => s.len(),
        };
        let ghost part = s@.subrange(i as int, end as int);
        let ghost before = string_views(out@);
        let is_last = end == s.len();
        proof {
            if is_last {
                assert(parts_from(value@, i as int) == seq![part]);
            } else {
                assert(parts_from(value@, i as int) == seq![part] + parts_from(value@, end + 1));
            }
            assert((seq![part] + parts_from(value@, end + 1)).drop_first() =~= parts_from(value@, end + 1));
            assert(seq![part].drop_first() =~= Seq::<Seq<char>>::empty());
        }
        if end > i && !is_c_locale(s, i, end) {
            let l = locale_part(s, i, end);
            out.push(l);
            assert(string_views(out@) =~= before.push(locale_of(part)));
        } else {
            assert(string_views(out@) == before);
        }
        if is_last {
            assert(locales_of_parts(Seq::<Seq<char>>::empty()) == Seq::<Seq<char>>::empty());
            assert(string_views(out@) + Seq::<Seq<char>>::empty() =~= string_views(out@));
            return;
        }
        i = end + 1;
    }
}

/// The spell-checking languages named by the locale variables (`LC_ALL`,
/// `LC_MESSAGES`, `LANG`, in that order, those that are set): every
/// `:`-separated part other than empty ones and `C`, without its encoding.
pub fn spell_check_locales(values: &Vec<String>) -> (r: Vec<String>)
    ensures
        string_views(r@) == locales_of_values(string_views(values@)),
{
    let mut out: Vec<String> = Vec::new();
    let mut i: usize = 0;
    assert(string_views(values@).skip(0) =~= string_views(values@));
    assert(string_views(out@) + locales_of_values(string_views(values@)) =~= locales_of_values(string_views(values@)));
    while i < values.len()
        invariant
            i <= values@.len(),
            locales_of_values(string_views(values@)) == string_views(out@) + locales_of_values(string_views(values@).skip(i as int)),
        decreases values@.len() - i,
    {
        let ghost rest = string_views(values@).skip(i as int);
        assert(rest[0] == values@[i as int]@);
        assert(rest.drop_first() =~= string_views(values@).skip(i + 1));
        let ghost before = string_views(out@);
        push_locales(&mut out, values[i].as_str());
        assert(before + locales_of_values(rest) =~= string_views(out@) + locales_of_values(rest.drop_first()));
        i = i + 1;
    }
    assert(string_views(values@).skip(i as int) =~= Seq::<Seq<char>>::empty());
    assert(string_views(out@) + Seq::<Seq<char>>::empty() =~= string_views(out@));
    out
}

/// The window starts hidden in the tray when launched with `--minimized`,
/// as the login item launches it.
pub fn starts_minimized(args: &Vec<String>) -> (r: bool)
    ensures
        r == exists|i: int| 0 <= i < args@.len() && #[trigger] args@[i]@ == "--minimized"@,
{
    let flag = String::from_str("--minimized");
    let mut i: usize = 0;
    while i < args.len()
        invariant
            i <= args@.len(),
            flag@ == "--minimized"@,
            forall|k: int| 0 <= k < i ==> args@[k]@ != "--minimized"@,
        decreases args@.len() - i,
    {
        if args[i] == flag {
            return true;
        }
        i = i + 1;
    }
    false
}

/// What happens to a link the page asks to open in a new window.
#[derive(Clone, Copy, Debug, PartialEq, Eq)]
pub enum NewWindowAction {
    /// http(s): handed to the operating system's browser.
    OpenExternally,
    /// `blob:` URLs are internal to the webview; the page downloads them.
    Ignore,
    /// Any other scheme is refused: it would reach whatever local
    /// application handles it (`file:`, UNC paths, protocol handlers).
    Refuse,
}

pub open spec fn new_window_action_for(scheme: Seq<char>) -> NewWindowAction {
    if scheme == "http"@ || scheme == "https"@ {
        NewWindowAction::OpenExternally
    } else if scheme == "blob"@ {
        NewWindowAction::Ignore
    } else {
        NewWindowAction::Refuse
    }
}

/// Decides a new-window request by its URL scheme. The webview itself
/// never opens the window.
pub fn new_window_action(scheme: &str) -> (r: NewWindowAction)
    ensures
        r == new_window_action_for(scheme@),
{
    let s = String::from_str(scheme);
    if s == String::from_str("http") || s == String::from_str("https") {
        NewWindowAction::OpenExternally
    } else if s == String::from_str("blob") {
        NewWindowAction::Ignore
    } else {
        NewWindowAction::Refuse
    }
}

} // verus!
