//! Parsed target URLs: the parts that the proxy reads from a URL.

use vstd::prelude::*;

verus! {

/// What `url::Url::parse` gives for a string: `None` where it fails, else
/// the scheme, the host and the port (the port only where it differs from
/// the scheme's default).
pub uninterp spec fn url_parse_of(s: Seq<char>) -> Option<(Seq<char>, Option<Seq<char>>, Option<u16>)>;

/// The view of an optional string.
pub open spec fn opt_view(o: Option<String>) -> Option<Seq<char>> {
    match o {
        Some(s) => Some(s@),
        None => None,
    }
}

/// The parts of a parsed URL that the proxy reads.
#[derive(Debug, Clone)]
pub struct TargetUrl {
    /// The scheme, such as `http` or `https`.
    pub scheme: String,
    /// The host, where the URL has one.
    pub host: Option<String>,
    /// The port, where the URL carries one that is not the scheme's default.
    pub port: Option<u16>,
}

impl TargetUrl {
    /// The scheme, the host and the port.
    pub open spec fn parts(&self) -> (Seq<char>, Option<Seq<char>>, Option<u16>) {
        (self.scheme@, opt_view(self.host), self.port)
    }

    /// Parses an absolute URL.
    pub fn parse(s: &str) -> (r: Option<TargetUrl>)
        ensures
            r is None ==> url_parse_of(s@) is None,
            r matches Some(u) ==> url_parse_of(s@) == Some(u.parts()),
    {
        parse_url(s)
    }
}

/// Relies on `url::Url::parse`, and on `scheme`, `host_str` and `port` of
/// the parsed URL to read its parts.
#[verifier::external_body]
fn parse_url(s: &str) -> (r: Option<TargetUrl>)
    ensures
        r is None ==> url_parse_of(s@) is None,
        r matches Some(u) ==> url_parse_of(s@) == Some(u.parts()),
{
    match url::Url::parse(s) {
        Ok(u) => Some(
            TargetUrl {
                scheme: u.scheme().to_string(),
                host: u.host_str().map(|h| h.to_string()),
                port: u.port(),
            },
        ),
        Err(_) => None,
    }
}

} // verus!
