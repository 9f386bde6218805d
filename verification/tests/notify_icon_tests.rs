use prinny_shell::notify_icon::{
    cached_icon_names, icon_cache_key, icon_file_name, icon_format, media_type_of, plan_icon_fetch,
    IconError, IconFormat,
};

#[test]
fn cache_key_is_truncated_sha256_hex() {
    // SHA-256("abc") = ba7816bf8f01cfea414140de5dae2223b00361a396177a9cb410ff61f20015ad
    assert_eq!(icon_cache_key("abc"), "ba7816bf8f01cfea414140de5dae2223");
    let k = icon_cache_key("https://example.org/icon.png");
    assert_eq!(k.len(), 32);
    assert!(k.chars().all(|c| c.is_ascii_hexdigit() && !c.is_ascii_uppercase()));
    assert_eq!(k, icon_cache_key("https://example.org/icon.png"));
    assert_ne!(k, icon_cache_key("https://example.org/icon2.png"));
}

#[test]
fn cache_file_names() {
    let key = "k1".to_string();
    assert_eq!(
        cached_icon_names(&key),
        vec!["k1.png", "k1.jpg", "k1.jpeg", "k1.gif", "k1.webp", "k1.bmp"]
    );
    assert_eq!(icon_file_name(&key, IconFormat::Webp), "k1.webp");
    assert_eq!(IconFormat::Jpg.extension(), "jpg");
}

#[test]
fn media_types() {
    assert_eq!(media_type_of(" Image/PNG ; charset=x").iter().collect::<String>(), "image/png");
    assert_eq!(media_type_of("").iter().collect::<String>(), "");
}

#[test]
fn formats_from_type_and_magic() {
    assert_eq!(icon_format(Some("image/jpeg"), b""), IconFormat::Jpg);
    assert_eq!(icon_format(Some("IMAGE/PJPEG; q=1"), b""), IconFormat::Jpg);
    assert_eq!(icon_format(Some("image/gif"), b"\x89PNG"), IconFormat::Gif);
    assert_eq!(icon_format(Some("image/webp"), b""), IconFormat::Webp);
    assert_eq!(icon_format(Some("image/bmp"), b""), IconFormat::Bmp);
    assert_eq!(icon_format(Some("image/png"), b"GIF8"), IconFormat::Png);
    assert_eq!(icon_format(Some("application/octet-stream"), b"\xff\xd8\xff\xe0"), IconFormat::Jpg);
    assert_eq!(icon_format(None, b"GIF89a"), IconFormat::Gif);
    assert_eq!(icon_format(None, b"RIFF....WEBP"), IconFormat::Webp);
    assert_eq!(icon_format(None, b"BM\x00\x00"), IconFormat::Bmp);
    assert_eq!(icon_format(None, b"\x89PNG\r\n"), IconFormat::Png);
    assert_eq!(icon_format(None, b"BM"), IconFormat::Png);
    assert_eq!(icon_format(None, b"zzzz"), IconFormat::Png);
}

#[test]
fn plan_rejects_bad_urls() {
    assert!(matches!(plan_icon_fetch("not a url", None, None, None), Err(IconError::InvalidUrl(_))));
    match plan_icon_fetch("ftp://example.org/a.png", None, None, None) {
        Err(IconError::SchemeNotAllowed(s)) => assert_eq!(s, "ftp"),
        _ => panic!("expected scheme refusal"),
    }
}

#[test]
fn token_only_to_homeserver_media() {
    let auth = Some("Bearer t".to_string());
    let p = plan_icon_fetch(
        "https://hs.example/_matrix/media/v3/download/a/b",
        auth.clone(),
        Some("https://hs.example"),
        None,
    )
    .unwrap();
    assert_eq!(p.authorization.as_deref(), Some("Bearer t"));
    assert_eq!(p.vet, Some(("hs.example".to_string(), 443)));

    // other host: no token, still vetted
    let p = plan_icon_fetch("https://evil.example/_matrix/x", auth.clone(), Some("https://hs.example"), None)
        .unwrap();
    assert_eq!(p.authorization, None);
    assert_eq!(p.vet, Some(("evil.example".to_string(), 443)));

    // same host, not the media API
    let p = plan_icon_fetch("https://hs.example/avatar.png", auth.clone(), Some("https://hs.example"), None)
        .unwrap();
    assert_eq!(p.authorization, None);

    // port differs
    let p = plan_icon_fetch("https://hs.example:8448/_matrix/x", auth.clone(), Some("https://hs.example"), None)
        .unwrap();
    assert_eq!(p.authorization, None);
    assert_eq!(p.vet, Some(("hs.example".to_string(), 8448)));

    // empty token is not sent
    let p = plan_icon_fetch("https://hs.example/_matrix/x", Some(String::new()), Some("https://hs.example"), None)
        .unwrap();
    assert_eq!(p.authorization, None);
}

#[test]
fn guard_skipped_only_for_recorded_origin() {
    let p = plan_icon_fetch("http://192.168.1.5:8008/_matrix/x", None, None, Some("http://192.168.1.5:8008")).unwrap();
    assert_eq!(p.vet, None);
    // the caller's own homeserver argument does not skip the guard
    let p = plan_icon_fetch("http://127.0.0.1:8008/_matrix/x", None, Some("http://127.0.0.1:8008"), None).unwrap();
    assert_eq!(p.vet, Some(("127.0.0.1".to_string(), 8008)));
    // a different recorded origin does not help
    let p = plan_icon_fetch("http://127.0.0.1:9000/", None, None, Some("http://127.0.0.1:8008")).unwrap();
    assert_eq!(p.vet, Some(("127.0.0.1".to_string(), 9000)));
    let p = plan_icon_fetch("http://example.org/", None, None, None).unwrap();
    assert_eq!(p.vet, Some(("example.org".to_string(), 80)));
}
