use prinny_shell::og::{decode_entities, extract_og, parse_tag_attrs, preview_from_body, PreviewError};

fn entries(html: &str) -> Vec<(String, String)> {
    extract_og(html).entries().clone()
}

#[test]
fn entities() {
    assert_eq!(decode_entities("plain text"), "plain text");
    assert_eq!(decode_entities("a &amp; b &lt;c&gt; &quot;d&quot; &apos;e&#39;"), "a & b <c> \"d\" 'e'");
    assert_eq!(decode_entities("x&nbsp;y"), "x\u{a0}y");
    assert_eq!(decode_entities("&#65;&#x42;&#X43;&#+68;"), "ABCD");
    assert_eq!(decode_entities("&#x1F600;"), "\u{1F600}");
    assert_eq!(decode_entities("&#xD800;"), "&#xD800;");
    assert_eq!(decode_entities("&#4294967296;"), "&#4294967296;");
    assert_eq!(decode_entities("&unknown;"), "&unknown;");
    assert_eq!(decode_entities("&amp"), "&amp");
    assert_eq!(decode_entities("&verylongname;&amp;"), "&verylongname;&");
    assert_eq!(decode_entities("&&amp;"), "&&");
    assert_eq!(decode_entities("&#;"), "&#;");
    assert_eq!(decode_entities("&#x;"), "&#x;");
    assert_eq!(decode_entities("Ünïcödé &amp; more"), "Ünïcödé & more");
}

#[test]
fn tag_attributes() {
    let a = parse_tag_attrs(r#"meta property="og:title" content='Hello World'"#);
    assert_eq!(a.get("property").unwrap(), "og:title");
    assert_eq!(a.get("content").unwrap(), "Hello World");
    let a = parse_tag_attrs("meta NAME = description CONTENT=plain");
    assert_eq!(a.get("name").unwrap(), "description");
    assert_eq!(a.get("content").unwrap(), "plain");
    let a = parse_tag_attrs("meta async content=\"a\" content=\"b\"");
    assert_eq!(a.get("async").unwrap(), "");
    assert_eq!(a.get("content").unwrap(), "b");
    assert!(a.get("missing").is_none());
    let a = parse_tag_attrs("meta charset=utf-8/");
    assert_eq!(a.get("charset").unwrap(), "utf-8");
    let a = parse_tag_attrs(r#"meta property="og:image" content="x.png" /"#);
    assert_eq!(a.get("content").unwrap(), "x.png");
    let a = parse_tag_attrs(r#"meta content="unterminated"#);
    assert_eq!(a.get("content").unwrap(), "unterminated");
}

#[test]
fn preview_fields() {
    let html = r#"<html><head>
        <TITLE> Fallback &amp; title </TITLE>
        <meta property="og:description" content="  First  ">
        <meta property="og:description" content="Second">
        <meta name="twitter:image" content="https://img.example/a.png" />
        <META PROPERTY="OG:SITE_NAME" CONTENT="Example">
        <meta property="og:type" content="   ">
        <meta property="og:video:url" content="https://v.example/v.mp4">
        <meta property="og:image:width" content="640">
        </head></html>"#;
    let e = entries(html);
    assert_eq!(
        e,
        vec![
            ("og:title".to_string(), "Fallback & title".to_string()),
            ("og:description".to_string(), "First".to_string()),
            ("og:image".to_string(), "https://img.example/a.png".to_string()),
            ("og:site_name".to_string(), "Example".to_string()),
            ("og:video".to_string(), "https://v.example/v.mp4".to_string()),
            ("og:image:width".to_string(), "640".to_string()),
        ]
    );
}

#[test]
fn og_title_beats_title_element() {
    let e = entries(r#"<title>T</title><meta property="twitter:title" content="Tw"><meta property="og:title" content="Og">"#);
    assert_eq!(e, vec![("og:title".to_string(), "Og".to_string())]);
    let e = entries(r#"<meta property="og:title" content="  "><meta property="twitter:title" content="Tw">"#);
    assert_eq!(e, vec![("og:title".to_string(), "Tw".to_string())]);
    // trimming comes before decoding, so an encoded space survives
    let e = entries(r#"<meta property="og:title" content="&#32;"><meta property="twitter:title" content="Tw">"#);
    assert_eq!(e, vec![("og:title".to_string(), " ".to_string())]);
}

#[test]
fn unclosed_and_empty() {
    assert!(entries("<meta property=\"og:title\" content=\"x\"").is_empty());
    assert!(entries("<title>never closed").is_empty());
    assert!(entries("").is_empty());
}

#[test]
fn preview_from_bytes() {
    let p = preview_from_body(b"<meta property='og:title' content='Caf\xc3\xa9'>").unwrap();
    assert_eq!(p.entries().clone(), vec![("og:title".to_string(), "Café".to_string())]);
    let p = preview_from_body(b"<meta property='og:title' content='a\xff'>").unwrap();
    assert_eq!(p.entries()[0].1, "a\u{fffd}");
    assert_eq!(preview_from_body(b"<p>nothing</p>").unwrap_err(), PreviewError::NoMetadata);
}

#[test]
fn white_space_is_unicode_white_space() {
    for v in 0u32..=0x3100 {
        if let Some(c) = char::from_u32(v) {
            let s = c.to_string();
            assert_eq!(prinny_shell::text::trimmed(&s).is_empty(), c.is_whitespace(), "U+{v:04X}");
        }
    }
}
