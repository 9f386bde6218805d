//! Absolute URLs as plain parts, parsed and joined by the `url` parser that
//! `reqwest` re-exports, and the origin bookkeeping built on them.

use vstd::prelude::*;

use vstd::string::StringExecFns;

use crate::text::{decimal, push_char, push_decimal};

verus! {

/// The parts of a parsed absolute URL that the shell's checks read.
pub struct UrlParts {
    /// The whole URL in its normalised serialisation.
    pub serialization: String,
    /// Lower-case scheme, without the `:`.
    pub scheme: String,
    /// The host, if the URL has one, in serialised form.
    pub host: Option<String>,
    /// An explicit port that is not the scheme's default.
    pub port: Option<u16>,
    /// `port`, or the scheme's default port when the scheme has a known one.
    pub known_port: Option<u16>,
    /// The path component.
    pub path: String,
}

/// The value a `UrlParts` stands for.
pub struct UrlView {
    pub serialization: Seq<char>,
    pub scheme: Seq<char>,
    pub host: Option<Seq<char>>,
    pub port: Option<u16>,
    pub known_port: Option<u16>,
    pub path: Seq<char>,
}

impl View for UrlParts {
    type V = UrlView;

    open spec fn view(&self) -> UrlView {
        UrlView {
            serialization: self.serialization@,
            scheme: self.scheme@,
            host: match self.host {
                Some(h) => Some(h@),
                None => None,
            },
            port: self.port,
            known_port: self.known_port,
            path: self.path@,
        }
    }
}

/// The default port the `url` parser knows for a scheme.
pub open spec fn default_port(scheme: Seq<char>) -> Option<u16> {
    if scheme == "http"@ || scheme == "ws"@ {
        Some(80)
    } else if scheme == "https"@ || scheme == "wss"@ {
        Some(443)
    } else if scheme == "ftp"@ {
        Some(21)
    } else {
        None
    }
}

/// What `Url::parse` yields for an input: the parsed URL, or the text of the
/// parse error.
pub uninterp spec fn url_parse(input: Seq<char>) -> Result<UrlView, Seq<char>>;

/// What `Url::join` yields for a reference resolved against the URL whose
/// serialisation is `base`.
pub uninterp spec fn url_join(base: Seq<char>, reference: Seq<char>) -> Result<UrlView, Seq<char>>;

/// The URL's port: an explicit one, else the scheme's default.
pub open spec fn known_port_rule(v: UrlView) -> bool {
    v.known_port == match v.port {
        Some(p) => Some(p),
        None => default_port(v.scheme),
    }
}

/// `reqwest::Url::parse`. The result is named by `url_parse`; as the `url`
/// source shows, the known port is the explicit port or the scheme default.
#[verifier::external_body]
pub(crate) fn parse_url(input: &str) -> (r: Result<UrlParts, String>)
    ensures
        match r {
            Ok(p) => url_parse(input@) == Ok::<UrlView, Seq<char>>(p@) && known_port_rule(p@),
            Err(e) => url_parse(input@) == Err::<UrlView, Seq<char>>(e@),
        },
{
    match reqwest::Url::parse(input) {
        Ok(u) => Ok(UrlParts {
                serialization: u.as_str().to_string(),
                scheme: u.scheme().to_string(),
                host: u.host_str().map(str::to_string),
                port: u.port(),
                known_port: u.port_or_known_default(),
                path: u.path().to_string(),
            }),
        Err(e) => Err(e.to_string()),
    }
}

/// `reqwest::Url::join`, resolving `reference` against `base`, whose
/// `Url` is re-read from its serialisation (which the parser reproduces
/// unchanged). The result is named by `url_join`.
#[verifier::external_body]
pub(crate) fn join_url(base: &UrlParts, reference: &str) -> (r: Result<UrlParts, String>)
    ensures
        match r {
            Ok(p) => url_join(base.serialization@, reference@) == Ok::<UrlView, Seq<char>>(p@)
                && known_port_rule(p@),
            Err(e) => url_join(base.serialization@, reference@) == Err::<UrlView, Seq<char>>(e@),
        },
{
    let joined = match reqwest::Url::parse(&base.serialization) {
        Ok(b) => b.join(reference),
        Err(e) => Err(e),
    };
    match joined {
        Ok(u) => Ok(UrlParts {
                serialization: u.as_str().to_string(),
                scheme: u.scheme().to_string(),
                host: u.host_str().map(str::to_string),
                port: u.port(),
                known_port: u.port_or_known_default(),
                path: u.path().to_string(),
            }),
        Err(e) => Err(e.to_string()),
    }
}

/// The scheme is one the shell fetches or records: `http` or `https`.
pub open spec fn web_scheme(scheme: Seq<char>) -> bool {
    scheme == "http"@ || scheme == "https"@
}

pub fn is_web_scheme(scheme: &String) -> (r: bool)
    ensures
        r == web_scheme(scheme@),
{
    let http = String::from_str("http");
    let https = String::from_str("https");
    *scheme == http || *scheme == https
}

/// Why an origin was not recorded.
#[derive(Debug)]
pub enum OriginError {
    /// The text is not an absolute URL; the parser's message.
    Invalid(String),
    /// The scheme is neither `http` nor `https`.
    SchemeNotAllowed(String),
    /// The URL has no host.
    NoHost,
}

/// `scheme://host`, followed by `:port` when the URL names a non-default port.
pub open spec fn origin_text(v: UrlView) -> Seq<char> {
    let base = v.scheme + "://"@ + v.host.unwrap();
    match v.port {
        Some(p) => base.push(':') + decimal(p as nat),
        None => base,
    }
}

/// The outcome of normalising `input` to an origin: `Ok(origin)` exactly when
/// the input parses, its scheme is `http` or `https` and it has a host.
pub open spec fn origin_outcome(input: Seq<char>, r: Result<String, OriginError>) -> bool {
    match url_parse(input) {
        Err(e) => r matches Err(OriginError::Invalid(m)) && m@ == e,
        Ok(v) => if !web_scheme(v.scheme) {
            r matches Err(OriginError::SchemeNotAllowed(s)) && s@ == v.scheme
        } else if v.host is None {
            r matches Err(OriginError::NoHost)
        } else {
            r matches Ok(o) && o@ == origin_text(v)
        },
    }
}

/// Reduces a URL to its origin; any path, query or fragment is dropped.
pub fn normalize_origin(origin: &str) -> (r: Result<String, OriginError>)
    ensures
        origin_outcome(origin@, r),
{
    let parsed = match parse_url(origin) {
        Ok(p) => p,
        Err(e) => return Err(OriginError::Invalid(e)),
    };
    if !is_web_scheme(&parsed.scheme) {
        return Err(OriginError::SchemeNotAllowed(parsed.scheme));
    }
    let host = match &parsed.host {
        Some(h) => h,
        None => return Err(OriginError::NoHost),
    };
    let mut out = parsed.scheme.clone();
    out.append("://");
    out.append(host.as_str());
    match parsed.port {
        Some(p) => {
            push_char(&mut out, ':');
            push_decimal(&mut out, p as u64);
        },
        None => {},
    }
    Ok(out)
}

/// The homeserver origin the application is connected to, recorded once by
/// the frontend. Later checks compare against this rather than against any
/// origin a caller names per request.
pub struct HomeserverOrigin {
    origin: Option<String>,
}

impl HomeserverOrigin {
    pub closed spec fn recorded(&self) -> Option<Seq<char>> {
        match self.origin {
            Some(o) => Some(o@),
            None => None,
        }
    }

    /// Nothing recorded yet.
    pub fn new() -> (s: Self)
        ensures
            s.recorded() is None,
    {
        HomeserverOrigin { origin: None }
    }

    /// The recorded origin, if any.
    pub fn get(&self) -> (r: Option<&String>)
        ensures
            match r {
                Some(o) => self.recorded() == Some(o@),
                None => self.recorded() is None,
            },
    {
        self.origin.as_ref()
    }
}

/// Records the homeserver origin: only scheme, host and a non-default port
/// are kept. On error the previously recorded origin stays.
pub fn set_homeserver_origin(state: &mut HomeserverOrigin, origin: &str) -> (r: Result<(), OriginError>)
    ensures
        exists|n: Result<String, OriginError>| #[trigger] origin_outcome(origin@, n) && match n {
            Ok(o) => r is Ok && final(state).recorded() == Some(o@),
            Err(e) => r == Err::<(), OriginError>(e) && final(state).recorded() == old(state).recorded(),
        },
{
    let n = normalize_origin(origin);
    match n {
        Ok(o) => {
            state.origin = Some(o);
            Ok(())
        },
        Err(e) => Err(e),
    }
}

} // verus!
