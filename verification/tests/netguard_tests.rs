use prinny_shell::netguard::{host_allowed_media, is_disallowed_ip, vet_resolved, IpAddress, ResolveError, SocketAddress};

fn v4(a: u8, b: u8, c: u8, d: u8) -> IpAddress {
    IpAddress::V4([a, b, c, d])
}

fn v6(s: [u16; 8]) -> IpAddress {
    IpAddress::V6(s)
}

#[test]
fn blocks_private_and_reserved_v4() {
    for ip in [
        v4(127, 0, 0, 1),
        v4(10, 1, 2, 3),
        v4(172, 16, 0, 1),
        v4(172, 31, 255, 255),
        v4(192, 168, 1, 1),
        v4(169, 254, 169, 254),
        v4(255, 255, 255, 255),
        v4(224, 0, 0, 1),
        v4(239, 255, 255, 250),
        v4(0, 0, 0, 0),
        v4(0, 0, 0, 1),
        v4(100, 64, 0, 1),
        v4(100, 127, 255, 255),
        v4(192, 0, 0, 8),
        v4(198, 18, 0, 1),
        v4(198, 19, 255, 1),
        v4(192, 0, 2, 1),
        v4(198, 51, 100, 7),
        v4(203, 0, 113, 9),
    ] {
        assert!(is_disallowed_ip(&ip), "{:?} should be blocked", ip);
    }
}

#[test]
fn allows_public_v4() {
    for ip in [
        v4(8, 8, 8, 8),
        v4(1, 1, 1, 1),
        v4(172, 32, 0, 1),
        v4(172, 15, 0, 1),
        v4(100, 63, 0, 1),
        v4(100, 128, 0, 1),
        v4(198, 20, 0, 1),
        v4(192, 0, 1, 1),
        v4(203, 0, 114, 1),
        v4(223, 255, 255, 255),
    ] {
        assert!(!is_disallowed_ip(&ip), "{:?} should be allowed", ip);
    }
}

#[test]
fn unwraps_ipv4_inside_ipv6() {
    // ::ffff:127.0.0.1
    assert!(is_disallowed_ip(&v6([0, 0, 0, 0, 0, 0xffff, 0x7f00, 1])));
    // ::ffff:8.8.8.8
    assert!(!is_disallowed_ip(&v6([0, 0, 0, 0, 0, 0xffff, 0x0808, 0x0808])));
    // ::127.0.0.1
    assert!(is_disallowed_ip(&v6([0, 0, 0, 0, 0, 0, 0x7f00, 1])));
    // ::8.8.8.8
    assert!(!is_disallowed_ip(&v6([0, 0, 0, 0, 0, 0, 0x0808, 0x0808])));
    // 2002:7f00:1:: (6to4 of 127.0.0.1)
    assert!(is_disallowed_ip(&v6([0x2002, 0x7f00, 1, 0, 0, 0, 0, 0])));
    // 2002:0808:0808:: (6to4 of 8.8.8.8)
    assert!(!is_disallowed_ip(&v6([0x2002, 0x0808, 0x0808, 0, 0, 0, 0, 0])));
    // 64:ff9b::7f00:1 and 64:ff9b:1::a9fe:a9fe
    assert!(is_disallowed_ip(&v6([0x64, 0xff9b, 0, 0, 0, 0, 0x7f00, 1])));
    assert!(is_disallowed_ip(&v6([0x64, 0xff9b, 1, 0, 0, 0, 0xa9fe, 0xa9fe])));
    assert!(!is_disallowed_ip(&v6([0x64, 0xff9b, 0, 0, 0, 0, 0x0808, 0x0808])));
}

#[test]
fn blocks_ipv6_ranges() {
    assert!(is_disallowed_ip(&v6([0, 0, 0, 0, 0, 0, 0, 1])));
    assert!(is_disallowed_ip(&v6([0, 0, 0, 0, 0, 0, 0, 0])));
    assert!(is_disallowed_ip(&v6([0xff02, 0, 0, 0, 0, 0, 0, 1])));
    assert!(is_disallowed_ip(&v6([0xfc00, 0, 0, 0, 0, 0, 0, 1])));
    assert!(is_disallowed_ip(&v6([0xfdff, 0, 0, 0, 0, 0, 0, 1])));
    assert!(is_disallowed_ip(&v6([0xfe80, 0, 0, 0, 0, 0, 0, 1])));
    assert!(is_disallowed_ip(&v6([0xfebf, 0, 0, 0, 0, 0, 0, 1])));
    assert!(!is_disallowed_ip(&v6([0xfec0, 0, 0, 0, 0, 0, 0, 1])));
    assert!(!is_disallowed_ip(&v6([0x2001, 0x4860, 0x4860, 0, 0, 0, 0, 0x8888])));
}

#[test]
fn vetting_refuses_empty_and_mixed_lookups() {
    assert_eq!(vet_resolved(vec![]).unwrap_err(), ResolveError::NoAddresses);
    let public = SocketAddress { ip: v4(93, 184, 216, 34), port: 443 };
    let private = SocketAddress { ip: v4(10, 0, 0, 5), port: 443 };
    let loopback = SocketAddress { ip: v4(127, 0, 0, 1), port: 443 };
    assert_eq!(vet_resolved(vec![public, private, loopback]).unwrap_err(), ResolveError::Blocked(v4(10, 0, 0, 5)));
    assert_eq!(vet_resolved(vec![public]).unwrap(), vec![public]);
}

#[test]
fn media_hosts_by_suffix() {
    assert!(host_allowed_media("twimg.com"));
    assert!(host_allowed_media("video.twimg.com"));
    assert!(host_allowed_media("PBS.TWIMG.COM."));
    assert!(host_allowed_media("cdn.bsky.app"));
    assert!(host_allowed_media("bsky.app.."));
    assert!(!host_allowed_media("eviltwimg.com"));
    assert!(!host_allowed_media("twimg.com.evil.org"));
    assert!(!host_allowed_media("example.com"));
    assert!(!host_allowed_media(""));
    assert!(!host_allowed_media(".twimg.com.x"));
}
