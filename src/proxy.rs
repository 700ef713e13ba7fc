//! Decisions of the request path: whether a request enters the proxy, which
//! correlation ID it carries, and what the caller receives once the primary
//! dispatch has ended.

use vstd::prelude::*;

use crate::fanout::PrimaryResponse;
use crate::header_list::{
    first_value, valid_value, visible_ascii, without, HeaderList, is_valid_value, is_visible_ascii,
};
use crate::headers::{hop_by_hop, strip_response_hop_by_hop, without_all};
use crate::text::{chars_of, str_eq};

verus! {

/// A character of a lower-case hyphenated UUID.
pub open spec fn uuid_char(c: char) -> bool {
    ('0' <= c <= '9') || ('a' <= c <= 'f') || c == '-'
}

/// Relies on `uuid::Uuid::new_v4` and its `Display`, which writes the
/// hyphenated lower-case form: 36 characters, hexadecimal digits and
/// hyphens.
#[verifier::external_body]
fn fresh_uuid() -> (r: String)
    ensures
        r@.len() == 36,
        forall|i: int| 0 <= i < r@.len() ==> uuid_char(r@[i]),
{
    uuid::Uuid::new_v4().to_string()
}

/// The counters of the proxy.
#[derive(Debug)]
pub struct Stats {
    pub forwarded: u64,
    pub failed: u64,
    pub active_requests: u64,
    pub config_reloads: u64,
}

/// A counter after one increment, wrapping as an atomic counter does.
pub open spec fn bumped(n: u64) -> u64 {
    if n < u64::MAX {
        (n + 1) as u64
    } else {
        0
    }
}

fn bump(n: u64) -> (r: u64)
    ensures
        r == bumped(n),
{
    if n < u64::MAX {
        n + 1
    } else {
        0
    }
}

impl Stats {
    /// All counters at zero.
    pub fn new() -> (r: Stats)
        ensures
            r.forwarded == 0 && r.failed == 0 && r.active_requests == 0 && r.config_reloads == 0,
    {
        Stats { forwarded: 0, failed: 0, active_requests: 0, config_reloads: 0 }
    }

    /// Counts a request whose primary response was returned.
    pub fn record_forwarded(&mut self)
        ensures
            final(self).forwarded == bumped(old(self).forwarded),
            final(self).failed == old(self).failed,
            final(self).active_requests == old(self).active_requests,
            final(self).config_reloads == old(self).config_reloads,
    {
        self.forwarded = bump(self.forwarded);
    }

    /// Counts a request answered with `502 Bad Gateway`.
    pub fn record_failed(&mut self)
        ensures
            final(self).failed == bumped(old(self).failed),
            final(self).forwarded == old(self).forwarded,
            final(self).active_requests == old(self).active_requests,
            final(self).config_reloads == old(self).config_reloads,
    {
        self.failed = bump(self.failed);
    }

    /// Counts a configuration reload.
    pub fn record_reload(&mut self)
        ensures
            final(self).config_reloads == bumped(old(self).config_reloads),
            final(self).forwarded == old(self).forwarded,
            final(self).failed == old(self).failed,
            final(self).active_requests == old(self).active_requests,
    {
        self.config_reloads = bump(self.config_reloads);
    }
}

impl Default for Stats {
    fn default() -> (r: Stats)
        ensures
            r.forwarded == 0 && r.failed == 0 && r.active_requests == 0 && r.config_reloads == 0,
    {
        Stats::new()
    }
}

/// Where an incoming request goes before any route is matched.
#[derive(Debug, PartialEq, Eq)]
pub enum Admission {
    /// The body is over the limit: `413 Payload Too Large`.
    TooLarge,
    /// The health endpoint.
    Health,
    /// The health path with a method it does not serve:
    /// `405 Method Not Allowed`.
    HealthMethodNotAllowed,
    /// The proxy path.
    Proxy,
}

/// The path reserved for the health endpoint.
pub open spec fn health_path() -> Seq<char> {
    "/health"@
}

/// Decides where a request goes: a body over `max_body` bytes is refused;
/// `/health` is served by the health endpoint and never forwarded; any other
/// request enters the proxy path.
pub fn admit_request(method: &str, path: &str, body_len: usize, max_body: usize) -> (r: Admission)
    ensures
        body_len > max_body ==> r == Admission::TooLarge,
        body_len <= max_body && path@ == health_path() ==> (r == Admission::Health || r
            == Admission::HealthMethodNotAllowed),
        body_len <= max_body && path@ == health_path() ==> (r == Admission::Health <==> (method@
            == "GET"@ || method@ == "HEAD"@)),
        body_len <= max_body && path@ != health_path() ==> r == Admission::Proxy,
{
    if body_len > max_body {
        Admission::TooLarge
    } else if str_eq(path, "/health") {
        if str_eq(method, "GET") || str_eq(method, "HEAD") {
            Admission::Health
        } else {
            Admission::HealthMethodNotAllowed
        }
    } else {
        Admission::Proxy
    }
}

/// The client's correlation ID, where it is usable.
pub open spec fn echoed_id(hs: Seq<(Seq<char>, Seq<char>)>) -> Option<Seq<char>> {
    match first_value(hs, "x-correlation-id"@) {
        Some(v) => if visible_ascii(v) {
            Some(v)
        } else {
            None
        },
        None => None,
    }
}

/// The headers returned to the caller with a primary response.
pub open spec fn reply_headers(hs: Seq<(Seq<char>, Seq<char>)>, cid: Seq<char>) -> Seq<
    (Seq<char>, Seq<char>),
> {
    without(without_all(hs, hop_by_hop(), 8), "content-length"@).push(("x-correlation-id"@, cid))
}

/// The correlation ID of a request: the client's `X-Correlation-Id` where it
/// is present and made of visible ASCII characters, else a fresh UUID.
pub fn correlation_id_for(headers: &HeaderList) -> (r: String)
    ensures
        echoed_id(headers@) matches Some(v) ==> r@ == v,
        echoed_id(headers@) is None ==> r@.len() == 36,
        valid_value(r@),
{
    match headers.first(&chars_of("x-correlation-id")) {
        Some(v) => {
            if is_visible_ascii(v.as_str()) {
                return v.clone();
            }
        },
        None => {},
    }
    let id = fresh_uuid();
    assert forall|i: int| 0 <= i < id@.len() implies crate::header_list::value_char(id@[i]) by {
        assert(uuid_char(id@[i]));
    }
    id
}

/// What the caller receives.
#[derive(Debug)]
pub enum Reply {
    /// The primary target's response.
    Respond { status: u16, headers: HeaderList, body: Vec<u8> },
    /// A bare status: `502 Bad Gateway` where the primary failed.
    Status(u16),
}

/// The reply to a request once its primary dispatch has ended, counting it:
/// a primary response is returned without its hop-by-hop headers and
/// `Content-Length`, with the correlation ID added, and counts as forwarded;
/// a failed primary gives `502 Bad Gateway` and counts as failed.
pub fn finish_request(stats: &mut Stats, primary: Option<PrimaryResponse>, correlation_id: &str) -> (r:
    Reply)
    ensures
        primary is Some ==> final(stats).forwarded == bumped(old(stats).forwarded)
            && final(stats).failed == old(stats).failed,
        primary is None ==> final(stats).failed == bumped(old(stats).failed)
            && final(stats).forwarded == old(stats).forwarded,
        final(stats).config_reloads == old(stats).config_reloads,
        final(stats).active_requests == old(stats).active_requests,
        old(stats).forwarded < u64::MAX && old(stats).failed < u64::MAX ==> final(stats).forwarded
            + final(stats).failed == old(stats).forwarded + old(stats).failed + 1,
        primary is None ==> r == Reply::Status(502),
        primary is Some && valid_value(correlation_id@) ==> (r matches Reply::Respond {
            status,
            headers,
            body,
        } && status == primary->Some_0.status && body@ == primary->Some_0.body@ && headers@
            == reply_headers(primary->Some_0.headers@, correlation_id@)),
        primary is Some && !valid_value(correlation_id@) ==> r == Reply::Status(502),
{
    match primary {
        Some(p) => {
            stats.record_forwarded();
            let mut headers = p.headers;
            strip_response_hop_by_hop(&mut headers);
            if is_valid_value(correlation_id) {
                headers.append(&chars_of("x-correlation-id"), String::from_str(correlation_id));
                Reply::Respond { status: p.status, headers, body: p.body }
            } else {
                Reply::Status(502)
            }
        },
        None => {
            stats.record_failed();
            Reply::Status(502)
        },
    }
}

} // verus!
