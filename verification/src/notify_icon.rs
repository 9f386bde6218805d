//! Decisions behind caching a notification icon: the cache key, whether the
//! homeserver's access token may accompany the request, whether the private
//! address guard applies, and which image extension the file gets.

use vstd::prelude::*;

use sha2::Digest;
use vstd::utf8::encode_utf8;
use vstd::string::{StrSliceExecFns, StringExecFns};

use crate::fetch::port_for;
use crate::text::{
    ascii_lower_seq, chars_of, find_char, find_chars, find_char_from, find_from, lower_chars,
    string_from, trim, trim_bounds,
};
use crate::weburl::{is_web_scheme, parse_url, url_parse, web_scheme, UrlParts, UrlView};

verus! {

/// The SHA-256 digest of a byte sequence.
pub uninterp spec fn sha256(data: Seq<u8>) -> Seq<u8>;

/// `sha2::Sha256::digest`: the 32-byte SHA-256 digest of `data`.
#[verifier::external_body]
fn sha256_digest(data: &[u8]) -> (r: Vec<u8>)
    ensures
        r@ == sha256(data@),
        r@.len() == 32,
{
    sha2::Sha256::digest(data).to_vec()
}

/// The lower-case hexadecimal digit for a value below 16.
pub open spec fn hex_digit(n: u8) -> char {
    if n < 10 {
        ((n + 48) as u8) as char
    } else {
        ((n + 87) as u8) as char
    }
}

/// Two lower-case hex digits per byte, high nibble first.
pub open spec fn lower_hex(data: Seq<u8>) -> Seq<char>
    decreases data.len(),
{
    if data.len() == 0 {
        Seq::empty()
    } else {
        seq![hex_digit(data[0] / 16), hex_digit(data[0] % 16)] + lower_hex(data.drop_first())
    }
}

/// `hex::encode`: each byte as two lower-case hexadecimal digits.
#[verifier::external_body]
fn hex_encode(data: &[u8]) -> (r: String)
    ensures
        r@ == lower_hex(data@),
{
    hex::encode(data)
}

/// The cache key of an icon URL: the first 16 bytes of the SHA-256 of the
/// URL's UTF-8 bytes, in lower-case hex. Repeat lookups of a URL hit the
/// same file.
pub open spec fn icon_key(url: Seq<char>) -> Seq<char> {
    lower_hex(sha256(encode_utf8(url)).take(16))
}

pub fn icon_cache_key(url: &str) -> (r: String)
    ensures
        r@ == icon_key(url@),
{
    let digest = sha256_digest(url.as_bytes());
    let prefix = vstd::slice::slice_subrange(digest.as_slice(), 0, 16);
    hex_encode(prefix)
}

/// The image formats a cached icon is stored as.
#[derive(Clone, Copy, Debug, PartialEq, Eq)]
pub enum IconFormat {
    Png,
    Jpg,
    Gif,
    Webp,
    Bmp,
}

impl IconFormat {
    pub open spec fn spec_ext(self) -> Seq<char> {
        match self {
            IconFormat::Png => "png"@,
            IconFormat::Jpg => "jpg"@,
            IconFormat::Gif => "gif"@,
            IconFormat::Webp => "webp"@,
            IconFormat::Bmp => "bmp"@,
        }
    }

    /// The file extension.
    pub fn extension(self) -> (r: &'static str)
        ensures
            r@ == self.spec_ext(),
    {
        match self {
            IconFormat::Png => "png",
            IconFormat::Jpg => "jpg",
            IconFormat::Gif => "gif",
            IconFormat::Webp => "webp",
            IconFormat::Bmp => "bmp",
        }
    }
}

/// The extensions a cached icon may already have, in the order they are
/// looked for. Files without one of them are not reused.
pub open spec fn cached_extensions() -> Seq<Seq<char>> {
    seq!["png"@, "jpg"@, "jpeg"@, "gif"@, "webp"@, "bmp"@]
}

/// `key.ext`
pub open spec fn file_name(key: Seq<char>, ext: Seq<char>) -> Seq<char> {
    key + "."@ + ext
}

fn join_name(key: &String, ext: &str) -> (r: String)
    ensures
        r@ == file_name(key@, ext@),
{
    let mut name = key.clone();
    name.append(".");
    name.append(ext);
    name
}

/// The file names an icon with this key may already be cached under, in the
/// order they are tried.
pub fn cached_icon_names(key: &String) -> (r: Vec<String>)
    ensures
        r@.len() == cached_extensions().len(),
        forall|i: int| 0 <= i < r@.len() ==> #[trigger] r@[i]@ == file_name(key@, cached_extensions()[i]),
{
    let mut names: Vec<String> = Vec::new();
    names.push(join_name(key, "png"));
    names.push(join_name(key, "jpg"));
    names.push(join_name(key, "jpeg"));
    names.push(join_name(key, "gif"));
    names.push(join_name(key, "webp"));
    names.push(join_name(key, "bmp"));
    names
}

/// The file name a freshly fetched icon is written to.
pub fn icon_file_name(key: &String, format: IconFormat) -> (r: String)
    ensures
        r@ == file_name(key@, format.spec_ext()),
{
    join_name(key, format.extension())
}

/// A media type: the part before any `;`, trimmed and ASCII-lower-cased.
pub open spec fn media_type(raw: Seq<char>) -> Seq<char> {
    let end = match find_char_from(raw, 0, ';') {
        Some(i) => i,
        None => raw.len() as int,
    };
    ascii_lower_seq(trim(raw.take(end)))
}

pub fn media_type_of(raw: &str) -> (r: Vec<char>)
    ensures
        r@ == media_type(raw@),
{
    let chars = chars_of(raw);
    let end = match find_char(chars.as_slice(), 0, ';') {
        Some(i) => i,
        None => chars.len(),
    };
    let (a, b) = trim_bounds(chars.as_slice(), 0, end);
    assert(chars@.subrange(0, end as int) == chars@.take(end as int));
    let part = vstd::slice::slice_subrange(chars.as_slice(), a, b);
    lower_chars(part)
}

/// The format a content type names, if it is one of the image types known
/// here.
pub open spec fn format_of_type(t: Seq<char>) -> Option<IconFormat> {
    if t == "image/jpeg"@ || t == "image/jpg"@ || t == "image/pjpeg"@ {
        Some(IconFormat::Jpg)
    } else if t == "image/gif"@ {
        Some(IconFormat::Gif)
    } else if t == "image/webp"@ {
        Some(IconFormat::Webp)
    } else if t == "image/bmp"@ {
        Some(IconFormat::Bmp)
    } else if t == "image/png"@ {
        Some(IconFormat::Png)
    } else {
        None
    }
}

/// The format the first bytes of an image give away; PNG when nothing
/// matches or there are fewer than four bytes.
pub open spec fn format_of_magic(b: Seq<u8>) -> IconFormat {
    if b.len() < 4 {
        IconFormat::Png
    } else if b[0] == 0xFF && b[1] == 0xD8 && b[2] == 0xFF {
        IconFormat::Jpg
    } else if b[0] == 0x89 && b[1] == 0x50 && b[2] == 0x4E && b[3] == 0x47 {
        IconFormat::Png
    } else if b[0] == 0x47 && b[1] == 0x49 && b[2] == 0x46 {
        IconFormat::Gif
    } else if b[0] == 0x52 && b[1] == 0x49 && b[2] == 0x46 && b[3] == 0x46 {
        IconFormat::Webp
    } else if b[0] == 0x42 && b[1] == 0x4D {
        IconFormat::Bmp
    } else {
        IconFormat::Png
    }
}

/// The format an icon is stored as: from its content type when that names
/// a known image type, otherwise sniffed from its first bytes.
pub open spec fn icon_format_spec(content_type: Option<Seq<char>>, bytes: Seq<u8>) -> IconFormat {
    match content_type {
        Some(raw) => match format_of_type(media_type(raw)) {
            Some(f) => f,
            None => format_of_magic(bytes),
        },
        None => format_of_magic(bytes),
    }
}

fn same_chars(a: &[char], b: &str) -> (r: bool)
    ensures
        r == (a@ == b@),
{
    let bc = chars_of(b);
    if a.len() != bc.len() {
        return false;
    }
    let r = crate::text::matches_at(a, 0, bc.as_slice());
    assert(a@.subrange(0, bc@.len() as int) =~= a@);
    r
}

fn format_from_magic(b: &[u8]) -> (r: IconFormat)
    ensures
        r == format_of_magic(b@),
{
    if b.len() < 4 {
        IconFormat::Png
    } else if b[0] == 0xFF && b[1] == 0xD8 && b[2] == 0xFF {
        IconFormat::Jpg
    } else if b[0] == 0x89 && b[1] == 0x50 && b[2] == 0x4E && b[3] == 0x47 {
        IconFormat::Png
    } else if b[0] == 0x47 && b[1] == 0x49 && b[2] == 0x46 {
        IconFormat::Gif
    } else if b[0] == 0x52 && b[1] == 0x49 && b[2] == 0x46 && b[3] == 0x46 {
        IconFormat::Webp
    } else if b[0] == 0x42 && b[1] == 0x4D {
        IconFormat::Bmp
    } else {
        IconFormat::Png
    }
}

/// Chooses the stored format of a fetched icon.
pub fn icon_format(content_type: Option<&str>, bytes: &[u8]) -> (r: IconFormat)
    ensures
        r == icon_format_spec(
            match content_type {
                Some(c) => Some(c@),
                None => None,
            },
            bytes@,
        ),
{
    let named = match content_type {
        Some(raw) => {
            let t = media_type_of(raw);
            let t = t.as_slice();
            if same_chars(t, "image/jpeg") || same_chars(t, "image/jpg") || same_chars(t, "image/pjpeg") {
                Some(IconFormat::Jpg)
            } else if same_chars(t, "image/gif") {
                Some(IconFormat::Gif)
            } else if same_chars(t, "image/webp") {
                Some(IconFormat::Webp)
            } else if same_chars(t, "image/bmp") {
                Some(IconFormat::Bmp)
            } else if same_chars(t, "image/png") {
                Some(IconFormat::Png)
            } else {
                None
            }
        },
        None => None,
    };
    match named {
        Some(f) => f,
        None => format_from_magic(bytes),
    }
}

/// Same scheme, host and effective port.
pub open spec fn same_site(a: UrlView, b: UrlView) -> bool {
    a.scheme == b.scheme && a.host == b.host && a.known_port == b.known_port
}

/// The icon URL is the user's homeserver's media API, judged against the
/// homeserver named alongside it: only then may the access token ride along.
pub open spec fn homeserver_media(url: UrlView, homeserver: Option<Seq<char>>) -> bool {
    match homeserver {
        None => false,
        Some(h) => match url_parse(h) {
            Err(_) => false,
            Ok(hs) => same_site(hs, url) && hs.host is Some && find_from(url.path, 0, "/_matrix/"@) is Some,
        },
    }
}

/// The private-address guard is skipped only for the origin the application
/// recorded itself, never for one named by the caller.
pub open spec fn guard_skipped(url: UrlView, recorded: Option<Seq<char>>) -> bool {
    match recorded {
        None => false,
        Some(o) => url.host is Some && match url_parse(o) {
            Err(_) => false,
            Ok(hs) => same_site(hs, url),
        },
    }
}

fn opt_string_eq(a: &Option<String>, b: &Option<String>) -> (r: bool)
    ensures
        r == (match (a, b) {
            (Some(x), Some(y)) => x@ == y@,
            (None, None) => true,
            _ => false,
        }),
{
    match (a, b) {
        (Some(x), Some(y)) => *x == *y,
        (None, None) => true,
        _ => false,
    }
}

fn sites_match(a: &UrlParts, b: &UrlParts) -> (r: bool)
    ensures
        r == same_site(a@, b@),
{
    a.scheme == b.scheme && opt_string_eq(&a.host, &b.host) && a.known_port == b.known_port
}

fn is_homeserver_media(url: &UrlParts, homeserver: Option<&str>) -> (r: bool)
    ensures
        r == homeserver_media(url@, match homeserver {
            Some(h) => Some(h@),
            None => None,
        }),
{
    let h = match homeserver {
        Some(h) => h,
        None => return false,
    };
    let hs = match parse_url(h) {
        Ok(hs) => hs,
        Err(_) => return false,
    };
    let path = chars_of(url.path.as_str());
    let marker = chars_of("/_matrix/");
    sites_match(&hs, url) && hs.host.is_some() && find_chars(path.as_slice(), 0, marker.as_slice()).is_some()
}

fn skips_guard(url: &UrlParts, recorded: Option<&str>) -> (r: bool)
    ensures
        r == guard_skipped(url@, match recorded {
            Some(o) => Some(o@),
            None => None,
        }),
{
    match recorded {
        None => false,
        Some(o) => {
            if url.host.is_none() {
                return false;
            }
            match parse_url(o) {
                Ok(hs) => sites_match(&hs, url),
                Err(_) => false,
            }
        },
    }
}

/// How an icon is to be fetched.
pub struct IconFetch {
    /// Host and port to resolve and vet against private addresses, unless
    /// the URL is on the recorded homeserver.
    pub vet: Option<(String, u16)>,
    /// The `Authorization` header to send, if any.
    pub authorization: Option<String>,
}

/// Why an icon is not fetched.
#[derive(Debug)]
pub enum IconError {
    InvalidUrl(String),
    SchemeNotAllowed(String),
    NoHost,
}

/// What `plan_icon_fetch` returns for these inputs.
pub open spec fn icon_plan(
    url: Seq<char>,
    auth: Option<Seq<char>>,
    homeserver: Option<Seq<char>>,
    recorded: Option<Seq<char>>,
    r: Result<IconFetch, IconError>,
) -> bool {
    match url_parse(url) {
        Err(e) => r matches Err(IconError::InvalidUrl(m)) && m@ == e,
        Ok(v) => if !web_scheme(v.scheme) {
            r matches Err(IconError::SchemeNotAllowed(s)) && s@ == v.scheme
        } else if !guard_skipped(v, recorded) && v.host is None {
            r matches Err(IconError::NoHost)
        } else {
            &&& r matches Ok(p)
            &&& (if guard_skipped(v, recorded) {
                r->Ok_0.vet is None
            } else {
                r->Ok_0.vet matches Some(hp) && hp.0@ == v.host.unwrap() && hp.1 == port_for(v)
            })
            &&& (match (homeserver_media(v, homeserver), auth) {
                (true, Some(a)) if a.len() > 0 => r->Ok_0.authorization matches Some(x) && x@ == a,
                _ => r->Ok_0.authorization is None,
            })
        },
    }
}

/// Fail closed: until the application has recorded a homeserver origin, no
/// icon fetch skips the private-address guard, whatever homeserver the
/// caller names; and a token is only ever sent to the named homeserver's
/// media API.
pub proof fn law_guard_needs_recorded_origin(
    url: Seq<char>,
    auth: Option<Seq<char>>,
    homeserver: Option<Seq<char>>,
    r: Result<IconFetch, IconError>,
)
    requires
        icon_plan(url, auth, homeserver, None, r),
    ensures
        r matches Ok(p) ==> p.vet is Some,
        r matches Ok(p) ==> (p.authorization is Some ==> (url_parse(url) matches Ok(v) && homeserver_media(v, homeserver))),
{
}

/// The access token reaches the user's homeserver: when the icon URL has
/// the named homeserver's scheme, host and effective port and its path
/// contains `/_matrix/` anywhere (media, client or any other API under
/// it), a non-empty token is sent, unchanged.
pub proof fn law_token_reaches_homeserver_media(
    url: Seq<char>,
    auth: Seq<char>,
    homeserver: Seq<char>,
    recorded: Option<Seq<char>>,
    r: Result<IconFetch, IconError>,
    v: UrlView,
    hs: UrlView,
    before: Seq<char>,
    after: Seq<char>,
)
    requires
        icon_plan(url, Some(auth), Some(homeserver), recorded, r),
        url_parse(url) == Ok::<UrlView, Seq<char>>(v),
        url_parse(homeserver) == Ok::<UrlView, Seq<char>>(hs),
        web_scheme(v.scheme),
        v.host is Some,
        hs.scheme == v.scheme,
        hs.host == v.host,
        hs.known_port == v.known_port,
        v.path == before + "/_matrix/"@ + after,
        auth.len() > 0,
    ensures
        r matches Ok(p) && p.authorization matches Some(x) && x@ == auth,
{
    let marker = "/_matrix/"@;
    assert(v.path.subrange(before.len() as int, before.len() + marker.len() as int) =~= marker);
    crate::text::lemma_find_from_finds(v.path, 0, marker, before.len() as int);
    assert(homeserver_media(v, Some(homeserver)));
}

/// Decides how an icon URL chosen by message content is fetched. The access
/// token only goes to the homeserver's own media endpoint, and only the
/// homeserver origin the application recorded may skip the private-address
/// guard.
pub fn plan_icon_fetch(
    url: &str,
    auth_header: Option<String>,
    homeserver: Option<&str>,
    recorded: Option<&str>,
) -> (r: Result<IconFetch, IconError>)
    ensures
        icon_plan(
            url@,
            match auth_header {
                Some(a) => Some(a@),
                None => None,
            },
            match homeserver {
                Some(h) => Some(h@),
                None => None,
            },
            match recorded {
                Some(o) => Some(o@),
                None => None,
            },
            r,
        ),
{
    let parsed = match parse_url(url) {
        Ok(p) => p,
        Err(e) => return Err(IconError::InvalidUrl(e)),
    };
    if !is_web_scheme(&parsed.scheme) {
        return Err(IconError::SchemeNotAllowed(parsed.scheme));
    }
    let media = is_homeserver_media(&parsed, homeserver);
    let skip = skips_guard(&parsed, recorded);
    let vet = if skip {
        None
    } else {
        let host = match &parsed.host {
            Some(h) => h.clone(),
            None => return Err(IconError::NoHost),
        };
        let port = match parsed.known_port {
            Some(p) => p,
            None => 443,
        };
        Some((host, port))
    };
    let authorization = if media {
        match auth_header {
            Some(a) => if a.as_str().unicode_len() > 0 { Some(a) } else { None },
            None => None,
        }
    } else {
        None
    };
    Ok(IconFetch { vet, authorization })
}

} // verus!
