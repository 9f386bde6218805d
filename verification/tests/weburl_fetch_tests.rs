use prinny_shell::fetch::{
    append_capped, append_truncating, classify_status, FetchError, MediaFetch, PreviewFetch, StatusClass, Step,
    MEDIA_FETCH_MAX_BYTES, OG_PREVIEW_MAX_BYTES,
};
use prinny_shell::weburl::{normalize_origin, set_homeserver_origin, HomeserverOrigin, OriginError};

#[test]
fn origin_keeps_scheme_host_and_port_only() {
    assert_eq!(normalize_origin("https://Matrix.Example.org/_matrix/client?x=1#frag").unwrap(), "https://matrix.example.org");
    assert_eq!(normalize_origin("http://localhost:8008/").unwrap(), "http://localhost:8008");
    assert_eq!(normalize_origin("https://example.org:443/path").unwrap(), "https://example.org");
    assert_eq!(normalize_origin("http://192.168.1.20:80").unwrap(), "http://192.168.1.20");
    assert_eq!(normalize_origin("https://example.org:8448").unwrap(), "https://example.org:8448");
}

#[test]
fn origin_errors() {
    match normalize_origin("ftp://example.org") {
        Err(OriginError::SchemeNotAllowed(s)) => assert_eq!(s, "ftp"),
        other => panic!("unexpected {:?}", other),
    }
    match normalize_origin("not a url") {
        Err(OriginError::Invalid(m)) => assert_eq!(m, "relative URL without a base"),
        other => panic!("unexpected {:?}", other),
    }
    match normalize_origin("mailto:someone@example.org") {
        Err(OriginError::SchemeNotAllowed(s)) => assert_eq!(s, "mailto"),
        other => panic!("unexpected {:?}", other),
    }
}

#[test]
fn recorded_origin_survives_a_bad_update() {
    let mut state = HomeserverOrigin::new();
    assert!(state.get().is_none());
    set_homeserver_origin(&mut state, "https://hs.example.org/anything").unwrap();
    assert_eq!(state.get().unwrap(), "https://hs.example.org");
    assert!(set_homeserver_origin(&mut state, "javascript:alert(1)").is_err());
    assert_eq!(state.get().unwrap(), "https://hs.example.org");
}

#[test]
fn status_classes() {
    assert_eq!(classify_status(200), StatusClass::Success);
    assert_eq!(classify_status(204), StatusClass::Success);
    assert_eq!(classify_status(301), StatusClass::Redirection);
    assert_eq!(classify_status(399), StatusClass::Redirection);
    assert_eq!(classify_status(404), StatusClass::Failure);
    assert_eq!(classify_status(100), StatusClass::Failure);
}

#[test]
fn media_fetch_checks_first_url() {
    assert!(matches!(MediaFetch::start("nope"), Err(FetchError::InvalidUrl(_))));
    assert!(matches!(MediaFetch::start("file:///etc/passwd"), Err(FetchError::SchemeNotAllowed(s)) if s == "file"));
    assert!(matches!(MediaFetch::start("https://example.com/a.mp4"), Err(FetchError::HostNotAllowed(h)) if h == "example.com"));
    let f = MediaFetch::start("https://video.twimg.com/a.mp4").unwrap();
    assert_eq!(f.target().host, "video.twimg.com");
    assert_eq!(f.target().port, 443);
    let f = MediaFetch::start("http://pbs.twimg.com:8080/x.jpg").unwrap();
    assert_eq!(f.target().port, 8080);
    let f = MediaFetch::start("http://cdn.bsky.app/x.jpg").unwrap();
    assert_eq!(f.target().port, 80);
}

#[test]
fn media_fetch_revets_redirects() {
    let mut f = MediaFetch::start("https://video.twimg.com/a.mp4").unwrap();
    f.begin_request().unwrap();
    assert_eq!(f.on_response(302, Some("/b.mp4")).unwrap(), Step::Follow);
    assert_eq!(f.target().url.serialization, "https://video.twimg.com/b.mp4");
    f.begin_request().unwrap();
    assert_eq!(f.on_response(301, Some("https://cdn.bsky.app/c")).unwrap(), Step::Follow);
    assert_eq!(f.target().host, "cdn.bsky.app");
    f.begin_request().unwrap();
    assert!(matches!(f.on_response(302, Some("http://169.254.169.254/latest")), Err(FetchError::RedirectHostNotAllowed(h)) if h == "169.254.169.254"));
    let mut f = MediaFetch::start("https://video.twimg.com/a.mp4").unwrap();
    f.begin_request().unwrap();
    assert!(matches!(f.on_response(302, None), Err(FetchError::RedirectWithoutLocation)));
    assert!(matches!(f.on_response(302, Some("gopher://video.twimg.com/")), Err(FetchError::SchemeNotAllowed(s)) if s == "gopher"));
    assert!(matches!(f.on_response(302, Some("http://[::1")), Err(FetchError::BadRedirectTarget(_))));
    assert!(matches!(f.on_response(404, None), Err(FetchError::Http(404))));
    assert_eq!(f.on_response(200, None).unwrap(), Step::ReadBody);
}

#[test]
fn media_fetch_allows_ten_requests() {
    let mut f = MediaFetch::start("https://video.twimg.com/a").unwrap();
    for _ in 0..10 {
        f.begin_request().unwrap();
        assert_eq!(f.on_response(302, Some("/a")).unwrap(), Step::Follow);
    }
    assert!(matches!(f.begin_request(), Err(FetchError::TooManyRedirects)));
}

#[test]
fn preview_fetch_checks_each_request() {
    assert!(matches!(PreviewFetch::start("::"), Err(FetchError::InvalidUrl(_))));
    let mut f = PreviewFetch::start("ftp://example.org/").unwrap();
    assert!(matches!(f.begin_request(), Err(FetchError::SchemeNotAllowed(s)) if s == "ftp"));
    let mut f = PreviewFetch::start("https://example.org/page").unwrap();
    let t = f.begin_request().unwrap();
    assert_eq!(t.host, "example.org");
    assert_eq!(t.port, 443);
    assert_eq!(f.on_response(302, Some("https://other.example/next")).unwrap(), Step::Follow);
    let t = f.begin_request().unwrap();
    assert_eq!(t.host, "other.example");
    assert_eq!(f.on_response(302, Some("file:///etc/passwd")).unwrap(), Step::Follow);
    assert!(matches!(f.begin_request(), Err(FetchError::SchemeNotAllowed(s)) if s == "file"));
}

#[test]
fn preview_fetch_allows_six_requests() {
    let mut f = PreviewFetch::start("https://example.org/").unwrap();
    for _ in 0..6 {
        f.begin_request().unwrap();
        assert_eq!(f.on_response(307, Some("/again")).unwrap(), Step::Follow);
    }
    assert!(matches!(f.begin_request(), Err(FetchError::TooManyRedirects)));
}

#[test]
fn body_caps() {
    let mut buf = vec![1u8; 10];
    assert!(append_capped(&mut buf, &[2, 3], 12));
    assert_eq!(buf, vec![1, 1, 1, 1, 1, 1, 1, 1, 1, 1, 2, 3]);
    assert!(!append_capped(&mut buf, &[4], 12));
    assert_eq!(buf.len(), 12);
    let mut buf = vec![0u8; 3];
    assert!(!append_truncating(&mut buf, &[1], 5));
    assert!(append_truncating(&mut buf, &[2, 3, 4], 5));
    assert_eq!(buf, vec![0, 0, 0, 1, 2]);
    assert_eq!(MEDIA_FETCH_MAX_BYTES, 64 * 1024 * 1024);
    assert_eq!(OG_PREVIEW_MAX_BYTES, 512 * 1024);
}
