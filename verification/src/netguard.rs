//! Address and host checks that keep webview-chosen URLs away from private
//! and reserved networks.

use vstd::prelude::*;

use crate::text::{ascii_lower_seq, chars_of, lower_chars, matches_at};

verus! {

/// An IP address as its raw parts: four octets, or eight 16-bit segments.
#[derive(Clone, Copy, Debug, PartialEq, Eq)]
pub enum IpAddress {
    V4([u8; 4]),
    V6([u16; 8]),
}

/// 127.0.0.0/8
pub open spec fn v4_is_loopback(o: Seq<u8>) -> bool {
    o[0] == 127
}

/// 10.0.0.0/8, 172.16.0.0/12 and 192.168.0.0/16.
pub open spec fn v4_is_private(o: Seq<u8>) -> bool {
    ||| o[0] == 10
    ||| (o[0] == 172 && 16 <= o[1] < 32)
    ||| (o[0] == 192 && o[1] == 168)
}

/// 169.254.0.0/16
pub open spec fn v4_is_link_local(o: Seq<u8>) -> bool {
    o[0] == 169 && o[1] == 254
}

/// 255.255.255.255
pub open spec fn v4_is_broadcast(o: Seq<u8>) -> bool {
    o[0] == 255 && o[1] == 255 && o[2] == 255 && o[3] == 255
}

/// 224.0.0.0/4
pub open spec fn v4_is_multicast(o: Seq<u8>) -> bool {
    224 <= o[0] < 240
}

/// 0.0.0.0
pub open spec fn v4_is_unspecified(o: Seq<u8>) -> bool {
    o[0] == 0 && o[1] == 0 && o[2] == 0 && o[3] == 0
}

/// Every IPv4 range a fetch must never reach: the ranges above, plus
/// 0.0.0.0/8, 100.64.0.0/10 (CGNAT), 192.0.0.0/24, 198.18.0.0/15
/// (benchmarking) and the three documentation networks.
pub open spec fn v4_disallowed(o: Seq<u8>) -> bool {
    ||| v4_is_loopback(o)
    ||| v4_is_private(o)
    ||| v4_is_link_local(o)
    ||| v4_is_broadcast(o)
    ||| v4_is_multicast(o)
    ||| v4_is_unspecified(o)
    ||| o[0] == 0
    ||| (o[0] == 100 && 64 <= o[1] < 128)
    ||| (o[0] == 192 && o[1] == 0 && o[2] == 0)
    ||| (o[0] == 198 && (o[1] == 18 || o[1] == 19))
    ||| (o[0] == 192 && o[1] == 0 && o[2] == 2)
    ||| (o[0] == 198 && o[1] == 51 && o[2] == 100)
    ||| (o[0] == 203 && o[1] == 0 && o[2] == 113)
}

/// The four octets carried by two consecutive IPv6 segments.
pub open spec fn octets_of(hi: u16, lo: u16) -> Seq<u8> {
    seq![(hi / 256) as u8, (hi % 256) as u8, (lo / 256) as u8, (lo % 256) as u8]
}

/// ::ffff:a.b.c.d
pub open spec fn v6_is_v4_mapped(s: Seq<u16>) -> bool {
    s[0] == 0 && s[1] == 0 && s[2] == 0 && s[3] == 0 && s[4] == 0 && s[5] == 0xffff
}

/// ::a.b.c.d, the deprecated IPv4-compatible form, other than :: and ::1.
pub open spec fn v6_is_v4_compatible(s: Seq<u16>) -> bool {
    s[0] == 0 && s[1] == 0 && s[2] == 0 && s[3] == 0 && s[4] == 0 && s[5] == 0
        && !(s[6] == 0 && s[7] <= 1)
}

/// 2002::/16 (6to4), which carries the IPv4 address in segments 1 and 2.
pub open spec fn v6_is_6to4(s: Seq<u16>) -> bool {
    s[0] == 0x2002
}

/// 64:ff9b::/96 and 64:ff9b:1::/48 (NAT64), IPv4 address in the last 32 bits.
pub open spec fn v6_is_nat64(s: Seq<u16>) -> bool {
    s[0] == 0x0064 && s[1] == 0xff9b
}

/// The IPv6 ranges themselves: ::1, ::, ff00::/8, fc00::/7 and fe80::/10.
pub open spec fn v6_native_disallowed(s: Seq<u16>) -> bool {
    ||| (s[0] == 0 && s[1] == 0 && s[2] == 0 && s[3] == 0 && s[4] == 0 && s[5] == 0
        && s[6] == 0 && s[7] == 1)
    ||| (s[0] == 0 && s[1] == 0 && s[2] == 0 && s[3] == 0 && s[4] == 0 && s[5] == 0
        && s[6] == 0 && s[7] == 0)
    ||| s[0] >= 0xff00
    ||| 0xfc00 <= s[0] < 0xfe00
    ||| 0xfe80 <= s[0] < 0xfec0
}

/// Every IPv6 encoding that embeds an IPv4 address is judged by that address;
/// anything else by the IPv6 ranges.
pub open spec fn v6_disallowed(s: Seq<u16>) -> bool {
    if v6_is_v4_mapped(s) {
        v4_disallowed(octets_of(s[6], s[7]))
    } else if v6_is_v4_compatible(s) {
        v4_disallowed(octets_of(s[6], s[7]))
    } else if v6_is_6to4(s) {
        v4_disallowed(octets_of(s[1], s[2]))
    } else if v6_is_nat64(s) {
        v4_disallowed(octets_of(s[6], s[7]))
    } else {
        v6_native_disallowed(s)
    }
}

pub open spec fn ip_disallowed(ip: IpAddress) -> bool {
    match ip {
        IpAddress::V4(o) => v4_disallowed(o@),
        IpAddress::V6(s) => v6_disallowed(s@),
    }
}

fn v4_octets_disallowed(o: [u8; 4]) -> (r: bool)
    ensures
        r == v4_disallowed(o@),
{
    let a = o[0];
    let b = o[1];
    let c = o[2];
    let d = o[3];
    assert((b & 0xF0) == 16 <==> 16 <= b < 32) by (bit_vector);
    assert((b & 0xC0) == 0x40 <==> 64 <= b < 128) by (bit_vector);
    assert((b & 0xFE) == 18 <==> (b == 18 || b == 19)) by (bit_vector);
    assert((a & 0xF0) == 0xE0 <==> 224 <= a < 240) by (bit_vector);
    a == 127
        || a == 10
        || (a == 172 && (b & 0xF0) == 16)
        || (a == 192 && b == 168)
        || (a == 169 && b == 254)
        || (a == 255 && b == 255 && c == 255 && d == 255)
        || (a & 0xF0) == 0xE0
        || (a == 0 && b == 0 && c == 0 && d == 0)
        || a == 0
        || (a == 100 && (b & 0xC0) == 0x40)
        || (a == 192 && b == 0 && c == 0)
        || (a == 198 && (b & 0xFE) == 18)
        || (a == 192 && b == 0 && c == 2)
        || (a == 198 && b == 51 && c == 100)
        || (a == 203 && b == 0 && c == 113)
}

fn embedded_v4(hi: u16, lo: u16) -> (o: [u8; 4])
    ensures
        o@ == octets_of(hi, lo),
{
    assert((hi >> 8) as u8 == hi / 256 && (hi & 0xFF) as u8 == hi % 256) by (bit_vector);
    assert((lo >> 8) as u8 == lo / 256 && (lo & 0xFF) as u8 == lo % 256) by (bit_vector);
    let o = [(hi >> 8) as u8, (hi & 0xFF) as u8, (lo >> 8) as u8, (lo & 0xFF) as u8];
    assert(o@ =~= octets_of(hi, lo));
    o
}

/// True for any address a webview-supplied URL must never be allowed to reach:
/// loopback, private, link-local (cloud metadata included), CGNAT,
/// benchmarking and documentation ranges, IPv6 unique-local and link-local,
/// multicast and unspecified, including IPv4 addresses wrapped in IPv6.
pub fn is_disallowed_ip(ip: &IpAddress) -> (r: bool)
    ensures
        r == ip_disallowed(*ip),
{
    match ip {
        IpAddress::V4(o) => v4_octets_disallowed(*o),
        IpAddress::V6(s) => {
            let s = *s;
            if s[0] == 0 && s[1] == 0 && s[2] == 0 && s[3] == 0 && s[4] == 0 && s[5] == 0xffff {
                return v4_octets_disallowed(embedded_v4(s[6], s[7]));
            }
            if s[0] == 0 && s[1] == 0 && s[2] == 0 && s[3] == 0 && s[4] == 0 && s[5] == 0
                && !(s[6] == 0 && s[7] <= 1) {
                return v4_octets_disallowed(embedded_v4(s[6], s[7]));
            }
            if s[0] == 0x2002 {
                return v4_octets_disallowed(embedded_v4(s[1], s[2]));
            }
            if s[0] == 0x0064 && s[1] == 0xff9b {
                return v4_octets_disallowed(embedded_v4(s[6], s[7]));
            }
            let first = s[0];
            assert((first & 0xFF00) == 0xFF00 <==> first >= 0xff00) by (bit_vector);
            assert((first & 0xFE00) == 0xFC00 <==> 0xfc00 <= first < 0xfe00) by (bit_vector);
            assert((first & 0xFFC0) == 0xFE80 <==> 0xfe80 <= first < 0xfec0) by (bit_vector);
            let all_zero_prefix = s[0] == 0 && s[1] == 0 && s[2] == 0 && s[3] == 0 && s[4] == 0
                && s[5] == 0 && s[6] == 0;
            (all_zero_prefix && s[7] == 1)
                || (all_zero_prefix && s[7] == 0)
                || (first & 0xFF00) == 0xFF00
                || (first & 0xFE00) == 0xFC00
                || (first & 0xFFC0) == 0xFE80
        },
    }
}

/// The two IPv6 segments that carry the IPv4 address a.b.c.d.
pub open spec fn carried(a: u8, b: u8, c: u8, d: u8) -> (u16, u16) {
    ((a * 256 + b) as u16, (c * 256 + d) as u16)
}

proof fn lemma_carried_octets(a: u8, b: u8, c: u8, d: u8)
    ensures
        octets_of(carried(a, b, c, d).0, carried(a, b, c, d).1) == seq![a, b, c, d],
{
    let hi = a * 256 + b;
    let lo = c * 256 + d;
    assert(hi / 256 == a && hi % 256 == b) by (nonlinear_arith)
        requires hi == a * 256 + b, 0 <= a < 256, 0 <= b < 256;
    assert(lo / 256 == c && lo % 256 == d) by (nonlinear_arith)
        requires lo == c * 256 + d, 0 <= c < 256, 0 <= d < 256;
    assert(octets_of(hi as u16, lo as u16) =~= seq![a, b, c, d]);
}

/// An IPv4 address wrapped in IPv6 is judged exactly as the IPv4 address
/// itself, in each wrapping: IPv4-mapped (`::ffff:a.b.c.d`),
/// IPv4-compatible (`::a.b.c.d`), 6to4 (`2002:aabb:ccdd::/48`) and NAT64
/// (`64:ff9b::a.b.c.d`, also under `64:ff9b:1::/48`).
pub proof fn law_embedded_v4_judged_as_v4(a: u8, b: u8, c: u8, d: u8, s: [u16; 8])
    requires
        ({
            let (hi, lo) = carried(a, b, c, d);
            ||| s@ == seq![0u16, 0, 0, 0, 0, 0xffff, hi, lo]
            ||| s@ == seq![0u16, 0, 0, 0, 0, 0, hi, lo]
            ||| (s@[0] == 0x2002 && s@[1] == hi && s@[2] == lo)
            ||| (s@[0] == 0x0064 && s@[1] == 0xff9b && s@[6] == hi && s@[7] == lo)
        }),
    ensures
        ip_disallowed(IpAddress::V6(s)) == ip_disallowed(IpAddress::V4([a, b, c, d])),
{
    lemma_carried_octets(a, b, c, d);
    let (hi, lo) = carried(a, b, c, d);
    assert([a, b, c, d]@ =~= seq![a, b, c, d]);
    if s@ == seq![0u16, 0, 0, 0, 0, 0, hi, lo] && hi == 0 && lo <= 1 {
        assert(a == 0) by (nonlinear_arith)
            requires hi == a * 256 + b, hi == 0, 0 <= a < 256, 0 <= b < 256;
    }
}

/// A resolved socket address.
#[derive(Clone, Copy, Debug, PartialEq, Eq)]
pub struct SocketAddress {
    pub ip: IpAddress,
    pub port: u16,
}

/// Why a resolved host was refused.
#[derive(Clone, Copy, Debug, PartialEq, Eq)]
pub enum ResolveError {
    /// The lookup produced no address at all.
    NoAddresses,
    /// The first resolved address that lies in a private or reserved range.
    Blocked(IpAddress),
}

/// Index of the first disallowed address in `addrs`, if any.
pub open spec fn first_disallowed(addrs: Seq<SocketAddress>, from: int) -> Option<int>
    decreases addrs.len() - from,
{
    if from < 0 || from >= addrs.len() {
        None
    } else if ip_disallowed(addrs[from].ip) {
        Some(from)
    } else {
        first_disallowed(addrs, from + 1)
    }
}

/// What a lookup is allowed to yield: all of its addresses, provided there is
/// at least one and none is private or reserved. A host that resolves to a
/// mix of public and internal addresses is refused outright.
pub open spec fn vetted(addrs: Seq<SocketAddress>) -> Result<Seq<SocketAddress>, ResolveError> {
    if addrs.len() == 0 {
        Err(ResolveError::NoAddresses)
    } else {
        match first_disallowed(addrs, 0) {
            Some(i) => Err(ResolveError::Blocked(addrs[i].ip)),
            None => Ok(addrs),
        }
    }
}

proof fn lemma_none_disallowed_from(addrs: Seq<SocketAddress>, from: int)
    requires
        0 <= from,
        first_disallowed(addrs, from) is None,
    ensures
        forall|k: int| from <= k < addrs.len() ==> !ip_disallowed(#[trigger] addrs[k].ip),
    decreases addrs.len() - from,
{
    if from < addrs.len() {
        lemma_none_disallowed_from(addrs, from + 1);
    }
}

/// A lookup is accepted only whole and only clean: what vetting lets
/// through is every resolved address, none of them private or reserved, and
/// at least one.
pub proof fn law_vetted_addresses_all_public(addrs: Seq<SocketAddress>)
    ensures
        vetted(addrs) is Ok ==> vetted(addrs) == Ok::<Seq<SocketAddress>, ResolveError>(addrs)
            && addrs.len() > 0
            && forall|k: int| 0 <= k < addrs.len() ==> !ip_disallowed(#[trigger] addrs[k].ip),
{
    if vetted(addrs) is Ok {
        lemma_none_disallowed_from(addrs, 0);
    }
}

/// Vets the addresses a host name resolved to. The caller pins the returned
/// addresses on its HTTP client so that no later re-resolution can reach an
/// address that was not checked here.
pub fn vet_resolved(addrs: Vec<SocketAddress>) -> (r: Result<Vec<SocketAddress>, ResolveError>)
    ensures
        match (r, vetted(addrs@)) {
            (Ok(v), Ok(w)) => v@ == w,
            (Err(e), Err(f)) => e == f,
            _ => false,
        },
{
    if addrs.len() == 0 {
        return Err(ResolveError::NoAddresses);
    }
    let mut i: usize = 0;
    while i < addrs.len()
        invariant
            i <= addrs@.len(),
            first_disallowed(addrs@, 0) == first_disallowed(addrs@, i as int),
        decreases addrs@.len() - i,
    {
        if is_disallowed_ip(&addrs[i].ip) {
            return Err(ResolveError::Blocked(addrs[i].ip));
        }
        i = i + 1;
    }
    Ok(addrs)
}

/// Media hosts the frontend may proxy; every subdomain of each is covered.
pub open spec fn media_host_suffixes() -> Seq<Seq<char>> {
    seq!["twimg.com"@, "bsky.app"@]
}

/// `s` with every trailing `.` removed.
pub open spec fn trim_end_dots(s: Seq<char>) -> Seq<char>
    decreases s.len(),
{
    if s.len() > 0 && s.last() == '.' {
        trim_end_dots(s.drop_last())
    } else {
        s
    }
}

/// `host` is `suffix` itself or a subdomain of it.
pub open spec fn is_domain_or_subdomain(host: Seq<char>, suffix: Seq<char>) -> bool {
    ||| host == suffix
    ||| (host.len() > suffix.len() && host[host.len() - suffix.len() - 1] == '.'
        && host.subrange(host.len() - suffix.len(), host.len() as int) == suffix)
}

/// The host, with trailing dots dropped and ASCII letters lower-cased, is one
/// of the media hosts or a subdomain of one.
pub open spec fn media_host_allowed(host: Seq<char>) -> bool {
    let h = ascii_lower_seq(trim_end_dots(host));
    exists|i: int| 0 <= i < media_host_suffixes().len()
        && #[trigger] is_domain_or_subdomain(h, media_host_suffixes()[i])
}

fn domain_or_subdomain(host: &[char], suffix: &[char]) -> (r: bool)
    ensures
        r == is_domain_or_subdomain(host@, suffix@),
{
    if host.len() == suffix.len() {
        let same = matches_at(host, 0, suffix);
        assert(same ==> host@ =~= suffix@) by {
            if same {
                assert(host@.subrange(0, suffix@.len() as int) =~= host@);
            }
        }
        assert(host@ == suffix@ ==> host@.subrange(0, suffix@.len() as int) =~= suffix@);
        same
    } else if host.len() > suffix.len() {
        let start = host.len() - suffix.len();
        assert(host@ != suffix@);
        host[start - 1] == '.' && matches_at(host, start, suffix)
    } else {
        assert(host@ != suffix@);
        false
    }
}

/// Whether a host may be fetched through the media proxy.
pub fn host_allowed_media(host: &str) -> (r: bool)
    ensures
        r == media_host_allowed(host@),
{
    let chars = chars_of(host);
    let mut end = chars.len();
    assert(chars@.take(end as int) =~= host@);
    while end > 0 && chars[end - 1] == '.'
        invariant
            end <= chars@.len(),
            trim_end_dots(host@) == trim_end_dots(chars@.take(end as int)),
        decreases end,
    {
        assert(chars@.take(end as int).drop_last() == chars@.take(end - 1));
        end = end - 1;
    }
    assert(trim_end_dots(chars@.take(end as int)) == chars@.take(end as int));
    let trimmed = vstd::slice::slice_subrange(chars.as_slice(), 0, end);
    assert(trimmed@ == chars@.take(end as int));
    let lowered = lower_chars(trimmed);
    let twimg = chars_of("twimg.com");
    let bsky = chars_of("bsky.app");
    let r = domain_or_subdomain(lowered.as_slice(), twimg.as_slice())
        || domain_or_subdomain(lowered.as_slice(), bsky.as_slice());
    proof {
        let h = ascii_lower_seq(trim_end_dots(host@));
        assert(h == lowered@);
        if r {
            if is_domain_or_subdomain(h, media_host_suffixes()[0]) {
            } else {
                assert(is_domain_or_subdomain(h, media_host_suffixes()[1]));
            }
        } else {
            assert forall|i: int| 0 <= i < media_host_suffixes().len() implies !#[trigger] is_domain_or_subdomain(h, media_host_suffixes()[i]) by {
                if i == 0 {} else {}
            }
        }
    }
    r
}

/// Every subdomain of a media host is allowed, whatever the case of its
/// letters and however many trailing dots it carries, and so is the media
/// host itself.
pub proof fn law_media_subdomains_allowed(label: Seq<char>, i: int, dots: nat)
    requires
        0 <= i < media_host_suffixes().len(),
    ensures
        media_host_allowed(label + "."@ + media_host_suffixes()[i] + Seq::new(dots, |_k: int| '.')),
        media_host_allowed(media_host_suffixes()[i] + Seq::new(dots, |_k: int| '.')),
{
    reveal_strlit("twimg.com");
    reveal_strlit("bsky.app");
    reveal_strlit(".");
    let suffix = media_host_suffixes()[i];
    let full = label + "."@ + suffix;
    lemma_trim_dots(full, dots);
    lemma_trim_dots(suffix, dots);
    let h = ascii_lower_seq(full);
    assert(suffix.last() != '.');
    assert(ascii_lower_seq(suffix) =~= suffix);
    assert(h.subrange(h.len() - suffix.len(), h.len() as int) =~= ascii_lower_seq(suffix));
    assert(h[h.len() - suffix.len() - 1] == '.');
    assert(is_domain_or_subdomain(h, suffix));
    assert(is_domain_or_subdomain(ascii_lower_seq(suffix), suffix));
}

/// Trailing dots come off, and nothing else does when the rest does not end
/// in a dot.
proof fn lemma_trim_dots(s: Seq<char>, dots: nat)
    requires
        s.len() > 0,
        s.last() != '.',
    ensures
        trim_end_dots(s + Seq::new(dots, |_k: int| '.')) == s,
    decreases dots,
{
    if dots == 0 {
        assert(s + Seq::new(0, |_k: int| '.') =~= s);
    } else {
        let t = s + Seq::new(dots, |_k: int| '.');
        assert(t.last() == '.');
        assert(t.drop_last() =~= s + Seq::new((dots - 1) as nat, |_k: int| '.'));
        lemma_trim_dots(s, (dots - 1) as nat);
    }
}

} // verus!
