//! Redirect-following policy for the two remote fetches the shell proxies
//! for the page, and the caps on how much of a response body is kept.
//!
//! The native side performs each request, resolves each host (vetting the
//! addresses with `netguard::vet_resolved` and pinning them), and reports
//! every response back; the types here decide what is requested next.

use vstd::prelude::*;

use crate::netguard::{host_allowed_media, media_host_allowed};
use crate::weburl::{is_web_scheme, join_url, parse_url, url_join, url_parse, web_scheme, UrlParts, UrlView};

verus! {

/// Largest body kept from a media or notification-icon fetch: 64 MiB.
pub const MEDIA_FETCH_MAX_BYTES: usize = 67108864;

/// Largest prefix of a page read for a link preview: 512 KiB.
pub const OG_PREVIEW_MAX_BYTES: usize = 524288;

/// Requests a media fetch may make, redirects included.
pub const MEDIA_MAX_REQUESTS: u8 = 10;

/// Requests a preview fetch may make, redirects included.
pub const PREVIEW_MAX_REQUESTS: u8 = 6;

/// Why a fetch stopped.
#[derive(Debug)]
pub enum FetchError {
    /// The URL does not parse; the parser's message.
    InvalidUrl(String),
    /// A URL (the first or a redirect target) has a scheme other than http(s).
    SchemeNotAllowed(String),
    /// The requested URL has no host.
    NoHost,
    /// The requested host is not one of the media hosts.
    HostNotAllowed(String),
    /// A redirect response carried no usable `Location`.
    RedirectWithoutLocation,
    /// A `Location` that does not resolve against the current URL.
    BadRedirectTarget(String),
    /// A redirect target without a host.
    RedirectNoHost,
    /// A redirect to a host that is not one of the media hosts.
    RedirectHostNotAllowed(String),
    /// A final status outside 2xx.
    Http(u16),
    /// The request budget ran out while still being redirected.
    TooManyRedirects,
}

/// How a response status is handled.
#[derive(Clone, Copy, Debug, PartialEq, Eq)]
pub enum StatusClass {
    Success,
    Redirection,
    Failure,
}

pub open spec fn status_class(status: u16) -> StatusClass {
    if 300 <= status < 400 {
        StatusClass::Redirection
    } else if 200 <= status < 300 {
        StatusClass::Success
    } else {
        StatusClass::Failure
    }
}

pub fn classify_status(status: u16) -> (r: StatusClass)
    ensures
        r == status_class(status),
{
    if 300 <= status && status < 400 {
        StatusClass::Redirection
    } else if 200 <= status && status < 300 {
        StatusClass::Success
    } else {
        StatusClass::Failure
    }
}

/// A URL about to be requested, with the host and port to resolve and pin.
pub struct FetchTarget {
    pub url: UrlParts,
    pub host: String,
    pub port: u16,
}

/// The port used for a URL: its known port, or 443.
pub open spec fn port_for(v: UrlView) -> u16 {
    match v.known_port {
        Some(p) => p,
        None => 443,
    }
}

pub open spec fn target_is(t: FetchTarget, v: UrlView) -> bool {
    &&& t.url@ == v
    &&& v.host == Some(t.host@)
    &&& t.port == port_for(v)
}

/// The media policy accepts a URL: http(s), with a host that is a media host.
pub open spec fn media_url_ok(v: UrlView) -> bool {
    web_scheme(v.scheme) && v.host is Some && media_host_allowed(v.host.unwrap())
}

/// What the media policy makes of a URL it is about to follow; `redirect`
/// selects the messages used for redirect targets.
pub open spec fn media_target_outcome(v: UrlView, redirect: bool, r: Result<FetchTarget, FetchError>) -> bool {
    if !web_scheme(v.scheme) {
        r matches Err(FetchError::SchemeNotAllowed(s)) && s@ == v.scheme
    } else if v.host is None {
        if redirect { r matches Err(FetchError::RedirectNoHost) } else { r matches Err(FetchError::NoHost) }
    } else if !media_host_allowed(v.host.unwrap()) {
        if redirect {
            r matches Err(FetchError::RedirectHostNotAllowed(h)) && h@ == v.host.unwrap()
        } else {
            r matches Err(FetchError::HostNotAllowed(h)) && h@ == v.host.unwrap()
        }
    } else {
        r matches Ok(t) && target_is(t, v)
    }
}

fn media_target(url: UrlParts, redirect: bool) -> (r: Result<FetchTarget, FetchError>)
    ensures
        media_target_outcome(url@, redirect, r),
{
    if !is_web_scheme(&url.scheme) {
        return Err(FetchError::SchemeNotAllowed(url.scheme));
    }
    let host = match &url.host {
        Some(h) => h.clone(),
        None => {
            return if redirect { Err(FetchError::RedirectNoHost) } else { Err(FetchError::NoHost) };
        },
    };
    if !host_allowed_media(host.as_str()) {
        return if redirect {
            Err(FetchError::RedirectHostNotAllowed(host))
        } else {
            Err(FetchError::HostNotAllowed(host))
        };
    }
    let port = match url.known_port {
        Some(p) => p,
        None => 443,
    };
    Ok(FetchTarget { url, host, port })
}

/// Where a fetch goes after a response.
#[derive(Debug, PartialEq, Eq)]
pub enum Step {
    /// The response is the final one: read its body.
    ReadBody,
    /// Follow the redirect: resolve the new target, then request it.
    Follow,
}

/// The proxy for remote media the page may load (Twitter/X and Bluesky
/// CDNs). Every URL it requests, the first and each redirect target, must be
/// http(s) and on a media host; at most ten requests are made.
pub struct MediaFetch {
    current: FetchTarget,
    requests: u8,
}

impl MediaFetch {
    pub closed spec fn current(&self) -> UrlView {
        self.current.url@
    }

    pub closed spec fn requests(&self) -> nat {
        self.requests as nat
    }

    pub closed spec fn wf(&self) -> bool {
        &&& self.current.url@.host == Some(self.current.host@)
        &&& self.current.port == port_for(self.current.url@)
        &&& self.requests <= MEDIA_MAX_REQUESTS
        &&& media_url_ok(self.current.url@)
    }

    /// The target to resolve and request next: always an http(s) URL on a
    /// media host.
    pub fn target(&self) -> (t: &FetchTarget)
        requires
            self.wf(),
        ensures
            target_is(*t, self.current()),
            media_url_ok(t.url@),
    {
        &self.current
    }

    /// Checks the URL the page asked for.
    pub fn start(url: &str) -> (r: Result<MediaFetch, FetchError>)
        ensures
            match url_parse(url@) {
                Err(e) => r matches Err(FetchError::InvalidUrl(m)) && m@ == e,
                Ok(v) => match r {
                    Ok(f) => f.wf() && f.current() == v && f.requests() == 0 && media_url_ok(v),
                    Err(e) => !media_url_ok(v) && media_target_outcome(v, false, Err(e)),
                },
            },
    {
        let parsed = match parse_url(url) {
            Ok(p) => p,
            Err(e) => return Err(FetchError::InvalidUrl(e)),
        };
        match media_target(parsed, false) {
            Ok(t) => Ok(MediaFetch { current: t, requests: 0 }),
            Err(e) => Err(e),
        }
    }

    /// Takes one request from the budget before each request is sent.
    pub fn begin_request(&mut self) -> (r: Result<(), FetchError>)
        requires
            old(self).wf(),
        ensures
            final(self).wf(),
            final(self).current() == old(self).current(),
            old(self).requests() < MEDIA_MAX_REQUESTS ==> r is Ok && final(self).requests()
                == old(self).requests() + 1,
            old(self).requests() >= MEDIA_MAX_REQUESTS ==> (r matches Err(FetchError::TooManyRedirects)
                && final(self).requests() == old(self).requests()),
    {
        if self.requests >= MEDIA_MAX_REQUESTS {
            return Err(FetchError::TooManyRedirects);
        }
        self.requests = self.requests + 1;
        Ok(())
    }

    /// Handles the response to the current request. A redirect is resolved
    /// against the current URL and held to the same checks as the first URL.
    pub fn on_response(&mut self, status: u16, location: Option<&str>) -> (r: Result<Step, FetchError>)
        requires
            old(self).wf(),
        ensures
            final(self).wf(),
            final(self).requests() == old(self).requests(),
            match status_class(status) {
                StatusClass::Success => r == Ok::<Step, FetchError>(Step::ReadBody)
                    && final(self).current() == old(self).current(),
                StatusClass::Failure => r matches Err(FetchError::Http(s)) && s == status
                    && final(self).current() == old(self).current(),
                StatusClass::Redirection => match location {
                    None => r matches Err(FetchError::RedirectWithoutLocation),
                    Some(loc) => match url_join(old(self).current().serialization, loc@) {
                        Err(e) => r matches Err(FetchError::BadRedirectTarget(m)) && m@ == e,
                        Ok(v) => match r {
                            Ok(s) => s == Step::Follow && final(self).current() == v && media_url_ok(v),
                            Err(e) => !media_url_ok(v) && media_target_outcome(v, true, Err(e)),
                        },
                    },
                },
            },
    {
        match classify_status(status) {
            StatusClass::Success => Ok(Step::ReadBody),
            StatusClass::Failure => Err(FetchError::Http(status)),
            StatusClass::Redirection => {
                let loc = match location {
                    Some(l) => l,
                    None => return Err(FetchError::RedirectWithoutLocation),
                };
                let next = match join_url(&self.current.url, loc) {
                    Ok(n) => n,
                    Err(e) => return Err(FetchError::BadRedirectTarget(e)),
                };
                match media_target(next, true) {
                    Ok(t) => {
                        self.current = t;
                        Ok(Step::Follow)
                    },
                    Err(e) => Err(e),
                }
            },
        }
    }
}

/// The fetch behind a link preview for an arbitrary public page. Any host
/// is accepted, but each URL requested must be http(s) with a host, and at
/// most six requests are made.
pub struct PreviewFetch {
    current: UrlParts,
    requests: u8,
}

/// What the preview policy makes of the URL it is about to request.
pub open spec fn preview_target_outcome(v: UrlView, r: Result<FetchTarget, FetchError>) -> bool {
    if !web_scheme(v.scheme) {
        r matches Err(FetchError::SchemeNotAllowed(s)) && s@ == v.scheme
    } else if v.host is None {
        r matches Err(FetchError::NoHost)
    } else {
        r matches Ok(t) && target_is(t, v)
    }
}

impl PreviewFetch {
    pub closed spec fn current(&self) -> UrlView {
        self.current@
    }

    pub closed spec fn requests(&self) -> nat {
        self.requests as nat
    }

    pub closed spec fn wf(&self) -> bool {
        self.requests <= PREVIEW_MAX_REQUESTS
    }

    /// Parses the URL the page asked for; checks happen per request.
    pub fn start(url: &str) -> (r: Result<PreviewFetch, FetchError>)
        ensures
            match url_parse(url@) {
                Err(e) => r matches Err(FetchError::InvalidUrl(m)) && m@ == e,
                Ok(v) => r matches Ok(f) && f.wf() && f.current() == v && f.requests() == 0,
            },
    {
        match parse_url(url) {
            Ok(p) => Ok(PreviewFetch { current: p, requests: 0 }),
            Err(e) => Err(FetchError::InvalidUrl(e)),
        }
    }

    /// Takes one request from the budget and checks the URL about to be
    /// requested, returning the host and port to resolve and pin.
    pub fn begin_request(&mut self) -> (r: Result<FetchTarget, FetchError>)
        requires
            old(self).wf(),
        ensures
            final(self).wf(),
            final(self).current() == old(self).current(),
            old(self).requests() >= PREVIEW_MAX_REQUESTS ==> (r matches Err(FetchError::TooManyRedirects)
                && final(self).requests() == old(self).requests()),
            old(self).requests() < PREVIEW_MAX_REQUESTS ==> final(self).requests() == old(self).requests()
                + 1 && preview_target_outcome(old(self).current(), r),
    {
        if self.requests >= PREVIEW_MAX_REQUESTS {
            return Err(FetchError::TooManyRedirects);
        }
        self.requests = self.requests + 1;
        if !is_web_scheme(&self.current.scheme) {
            return Err(FetchError::SchemeNotAllowed(self.current.scheme.clone()));
        }
        let host = match &self.current.host {
            Some(h) => h.clone(),
            None => return Err(FetchError::NoHost),
        };
        let port = match self.current.known_port {
            Some(p) => p,
            None => 443,
        };
        let url = UrlParts {
            serialization: self.current.serialization.clone(),
            scheme: self.current.scheme.clone(),
            host: Some(host.clone()),
            port: self.current.port,
            known_port: self.current.known_port,
            path: self.current.path.clone(),
        };
        Ok(FetchTarget { url, host, port })
    }

    /// Handles the response to the current request. A redirect only moves to
    /// the joined URL; it is checked when it is requested.
    pub fn on_response(&mut self, status: u16, location: Option<&str>) -> (r: Result<Step, FetchError>)
        requires
            old(self).wf(),
        ensures
            final(self).wf(),
            final(self).requests() == old(self).requests(),
            match status_class(status) {
                StatusClass::Success => r == Ok::<Step, FetchError>(Step::ReadBody)
                    && final(self).current() == old(self).current(),
                StatusClass::Failure => r matches Err(FetchError::Http(s)) && s == status
                    && final(self).current() == old(self).current(),
                StatusClass::Redirection => match location {
                    None => r matches Err(FetchError::RedirectWithoutLocation),
                    Some(loc) => match url_join(old(self).current().serialization, loc@) {
                        Err(e) => r matches Err(FetchError::BadRedirectTarget(m)) && m@ == e,
                        Ok(v) => r == Ok::<Step, FetchError>(Step::Follow) && final(self).current() == v,
                    },
                },
            },
    {
        match classify_status(status) {
            StatusClass::Success => Ok(Step::ReadBody),
            StatusClass::Failure => Err(FetchError::Http(status)),
            StatusClass::Redirection => {
                let loc = match location {
                    Some(l) => l,
                    None => return Err(FetchError::RedirectWithoutLocation),
                };
                match join_url(&self.current, loc) {
                    Ok(n) => {
                        self.current = n;
                        Ok(Step::Follow)
                    },
                    Err(e) => Err(FetchError::BadRedirectTarget(e)),
                }
            },
        }
    }
}

/// Appends a body chunk unless the body would then exceed `max` bytes, in
/// which case nothing is appended and `false` is returned.
pub fn append_capped(buf: &mut Vec<u8>, chunk: &[u8], max: usize) -> (kept: bool)
    ensures
        kept == (old(buf)@.len() + chunk@.len() <= max),
        kept ==> final(buf)@ == old(buf)@ + chunk@,
        !kept ==> final(buf)@ == old(buf)@,
{
    if buf.len() > max || chunk.len() > max - buf.len() {
        return false;
    }
    buf.extend_from_slice(chunk);
    assert(buf@ =~= old(buf)@ + chunk@);
    true
}

/// Appends a body chunk, then cuts the body to `max` bytes; returns whether
/// the cap has been reached, after which no more is read.
pub fn append_truncating(buf: &mut Vec<u8>, chunk: &[u8], max: usize) -> (full: bool)
    requires
        old(buf)@.len() < max,
    ensures
        full == (old(buf)@.len() + chunk@.len() >= max),
        full ==> final(buf)@ == (old(buf)@ + chunk@).take(max as int),
        !full ==> final(buf)@ == old(buf)@ + chunk@,
{
    buf.extend_from_slice(chunk);
    assert(buf@ =~= old(buf)@ + chunk@);
    if buf.len() >= max {
        buf.truncate(max);
        true
    } else {
        false
    }
}

} // verus!
