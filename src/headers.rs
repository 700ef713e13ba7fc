//! The header transformer: the headers sent to one target, and the headers
//! returned to the caller.

use vstd::prelude::*;

use crate::header_list::{
    first_value, header_name_of, valid_value, visible_ascii, with_header, without, HeaderList,
    is_valid_value, is_visible_ascii, parse_header_name,
};
use crate::model::{Defaults, Route};
use crate::target_url::{opt_view, TargetUrl};
use crate::text::{chars_of, decimal, decimal_string, str_eq, string_of, sub_chars, views};

verus! {

/// What `str::trim` gives for a string.
pub uninterp spec fn trimmed(s: Seq<char>) -> Seq<char>;

/// Relies on `str::trim`.
#[verifier::external_body]
fn trim(s: &str) -> (r: String)
    ensures
        r@ == trimmed(s@),
{
    s.trim().to_string()
}

/// The hop-by-hop header names.
pub open spec fn hop_by_hop() -> Seq<Seq<char>> {
    seq![
        "connection"@,
        "keep-alive"@,
        "transfer-encoding"@,
        "te"@,
        "trailer"@,
        "upgrade"@,
        "proxy-authorization"@,
        "proxy-authenticate"@,
    ]
}

/// The headers left once the first `k` of `names` are removed.
pub open spec fn without_all(
    hs: Seq<(Seq<char>, Seq<char>)>,
    names: Seq<Seq<char>>,
    k: int,
) -> Seq<(Seq<char>, Seq<char>)>
    decreases k,
{
    if k <= 0 {
        hs
    } else {
        without(without_all(hs, names, k - 1), names[k - 1])
    }
}

/// The `Host` value for a target URL: its host, with `:port` where the URL
/// carries a port that is not the scheme's default.
pub open spec fn host_value(u: (Seq<char>, Option<Seq<char>>, Option<u16>)) -> Option<Seq<char>> {
    match u.1 {
        Some(h) => Some(
            match u.2 {
                Some(p) => h + ":"@ + decimal(p as nat),
                None => h,
            },
        ),
        None => None,
    }
}

/// Sets a header where the value is valid.
pub open spec fn set_if_valid(hs: Seq<(Seq<char>, Seq<char>)>, n: Seq<char>, v: Seq<char>) -> Seq<
    (Seq<char>, Seq<char>),
> {
    if valid_value(v) {
        with_header(hs, n, v)
    } else {
        hs
    }
}

/// The `X-Forwarded-For` chain: the existing value followed by the client
/// address, or the client address alone.
pub open spec fn forwarded_for(hs: Seq<(Seq<char>, Seq<char>)>, ip: Seq<char>) -> Seq<char> {
    match first_value(hs, "x-forwarded-for"@) {
        Some(e) => if visible_ascii(e) {
            e + ", "@ + ip
        } else {
            ip
        },
        None => ip,
    }
}

/// The characters before the first comma.
pub open spec fn before_comma(s: Seq<char>) -> Seq<char>
    decreases s.len(),
{
    if s.len() == 0 || s[0] == ',' {
        Seq::empty()
    } else {
        seq![s[0]] + before_comma(s.drop_first())
    }
}

/// The proxy headers added to `hs`.
pub open spec fn with_proxy_headers(
    hs: Seq<(Seq<char>, Seq<char>)>,
    incoming: Seq<(Seq<char>, Seq<char>)>,
    ip: Seq<char>,
    scheme: Seq<char>,
    cid: Seq<char>,
) -> Seq<(Seq<char>, Seq<char>)> {
    let xff = forwarded_for(hs, ip);
    let h1 = set_if_valid(hs, "x-forwarded-for"@, xff);
    let h2 = set_if_valid(h1, "x-real-ip"@, trimmed(before_comma(xff)));
    let h3 = with_header(
        h2,
        "x-forwarded-proto"@,
        if scheme == "https"@ {
            "https"@
        } else {
            "http"@
        },
    );
    let h4 = match first_value(incoming, "host"@) {
        Some(v) => with_header(h3, "x-forwarded-host"@, v),
        None => h3,
    };
    let h5 = with_header(h4, "via"@, "1.1 switchboard"@);
    set_if_valid(h5, "x-correlation-id"@, cid)
}

/// The headers once the first `k` rules of `add` are applied; a rule with an
/// invalid name or value is skipped.
pub open spec fn with_added(
    hs: Seq<(Seq<char>, Seq<char>)>,
    add: Seq<(String, String)>,
    k: int,
) -> Seq<(Seq<char>, Seq<char>)>
    decreases k,
{
    if k <= 0 {
        hs
    } else {
        let h = with_added(hs, add, k - 1);
        match header_name_of(add[k - 1].0@) {
            Some(n) => if valid_value(add[k - 1].1@) {
                with_header(h, n, add[k - 1].1@)
            } else {
                h
            },
            None => h,
        }
    }
}

/// The headers once the first `k` names of `strip` are removed; an invalid
/// name removes nothing.
pub open spec fn with_stripped(
    hs: Seq<(Seq<char>, Seq<char>)>,
    strip: Seq<String>,
    k: int,
) -> Seq<(Seq<char>, Seq<char>)>
    decreases k,
{
    if k <= 0 {
        hs
    } else {
        let h = with_stripped(hs, strip, k - 1);
        match header_name_of(strip[k - 1]@) {
            Some(n) => without(h, n),
            None => h,
        }
    }
}

/// The headers sent to a target.
pub open spec fn forwarded_headers(
    incoming: Seq<(Seq<char>, Seq<char>)>,
    ip: Seq<char>,
    url: (Seq<char>, Option<Seq<char>>, Option<u16>),
    route: Route,
    defaults: Defaults,
    cid: Seq<char>,
) -> Seq<(Seq<char>, Seq<char>)> {
    let h0 = if defaults.forward_headers {
        incoming
    } else {
        Seq::empty()
    };
    let h1 = if defaults.strip_hop_by_hop {
        without_all(h0, hop_by_hop(), 8)
    } else {
        h0
    };
    let h2 = match host_value(url) {
        Some(hv) => set_if_valid(h1, "host"@, hv),
        None => h1,
    };
    let h3 = if defaults.proxy_headers {
        with_proxy_headers(h2, incoming, ip, url.0, cid)
    } else {
        h2
    };
    let h4 = with_added(h3, defaults.headers.add@, defaults.headers.add@.len() as int);
    let h5 = with_added(h4, route.headers.add@, route.headers.add@.len() as int);
    let h6 = with_stripped(h5, defaults.headers.strip@, defaults.headers.strip@.len() as int);
    with_stripped(h6, route.headers.strip@, route.headers.strip@.len() as int)
}

fn hop_by_hop_names() -> (r: Vec<Vec<char>>)
    ensures
        views(r@) == hop_by_hop(),
{
    let mut v: Vec<Vec<char>> = Vec::new();
    v.push(chars_of("connection"));
    v.push(chars_of("keep-alive"));
    v.push(chars_of("transfer-encoding"));
    v.push(chars_of("te"));
    v.push(chars_of("trailer"));
    v.push(chars_of("upgrade"));
    v.push(chars_of("proxy-authorization"));
    v.push(chars_of("proxy-authenticate"));
    assert(views(v@) =~= hop_by_hop());
    v
}

fn remove_all(headers: &mut HeaderList, names: &Vec<Vec<char>>)
    ensures
        final(headers)@ == without_all(old(headers)@, views(names@), names@.len() as int),
{
    let ghost start = headers@;
    let mut k: usize = 0;
    while k < names.len()
        invariant
            k <= names@.len(),
            headers@ == without_all(start, views(names@), k as int),
        decreases names@.len() - k,
    {
        headers.remove_name(&names[k]);
        k = k + 1;
    }
}

/// Removes the hop-by-hop headers and `Content-Length` from the headers of
/// an upstream response: the body is returned whole, and its length is set
/// anew.
pub fn strip_response_hop_by_hop(headers: &mut HeaderList)
    ensures
        final(headers)@ == without(
            without_all(old(headers)@, hop_by_hop(), 8),
            "content-length"@,
        ),
{
    let names = hop_by_hop_names();
    assert(names@.len() == views(names@).len());
    remove_all(headers, &names);
    headers.remove_name(&chars_of("content-length"));
}

fn set_valid(headers: &mut HeaderList, name: &str, value: &str)
    ensures
        final(headers)@ == set_if_valid(old(headers)@, name@, value@),
{
    if is_valid_value(value) {
        headers.set(&chars_of(name), String::from_str(value));
    }
}

fn first_before_comma(s: &str) -> (r: String)
    ensures
        r@ == before_comma(s@),
{
    let cs = chars_of(s);
    let mut i: usize = 0;
    while i < cs.len() && cs[i] != ','
        invariant
            cs@ == s@,
            i <= cs@.len(),
            forall|j: int| 0 <= j < i ==> cs@[j] != ',',
        decreases cs@.len() - i,
    {
        i = i + 1;
    }
    proof {
        lemma_before_comma(s@, i as int);
    }
    string_of(&sub_chars(&cs, 0, i))
}

proof fn lemma_before_comma(s: Seq<char>, i: int)
    requires
        0 <= i <= s.len(),
        forall|j: int| 0 <= j < i ==> s[j] != ',',
        i == s.len() || s[i] == ',',
    ensures
        before_comma(s) == s.subrange(0, i),
    decreases i,
{
    if i > 0 {
        lemma_before_comma(s.drop_first(), i - 1);
        assert(seq![s[0]] + s.drop_first().subrange(0, i - 1) =~= s.subrange(0, i));
    } else {
        assert(s.subrange(0, 0) =~= Seq::<char>::empty());
    }
}

fn add_proxy_headers(
    headers: &mut HeaderList,
    incoming: &HeaderList,
    client_ip: &str,
    scheme: &str,
    correlation_id: &str,
)
    ensures
        final(headers)@ == with_proxy_headers(
            old(headers)@,
            incoming@,
            client_ip@,
            scheme@,
            correlation_id@,
        ),
{
    proof {
        reveal_strlit("x-forwarded-for");
        reveal_strlit("x-real-ip");
        reveal_strlit("x-correlation-id");
    }
    let xff_name = chars_of("x-forwarded-for");
    let xff = match headers.first(&xff_name) {
        Some(existing) => {
            if is_visible_ascii(existing.as_str()) {
                let mut s = existing.clone();
                s.append(", ");
                s.append(client_ip);
                s
            } else {
                String::from_str(client_ip)
            }
        },
        None => String::from_str(client_ip),
    };
    assert(xff@ == forwarded_for(old(headers)@, client_ip@));
    assert("x-forwarded-for"@.map_values(|c: char| crate::header_list::ascii_lower(c)) =~= "x-forwarded-for"@);
    set_valid(headers, "x-forwarded-for", xff.as_str());
    let real_ip = trim(first_before_comma(xff.as_str()).as_str());
    assert("x-real-ip"@.map_values(|c: char| crate::header_list::ascii_lower(c)) =~= "x-real-ip"@);
    set_valid(headers, "x-real-ip", real_ip.as_str());
    let proto = if str_eq(scheme, "https") {
        String::from_str("https")
    } else {
        String::from_str("http")
    };
    headers.set(&chars_of("x-forwarded-proto"), proto);
    match incoming.first(&chars_of("host")) {
        Some(v) => {
            headers.set(&chars_of("x-forwarded-host"), v.clone());
        },
        None => {},
    }
    headers.set(&chars_of("via"), String::from_str("1.1 switchboard"));
    assert("x-correlation-id"@.map_values(|c: char| crate::header_list::ascii_lower(c))
        =~= "x-correlation-id"@);
    set_valid(headers, "x-correlation-id", correlation_id);
}

fn apply_adds(headers: &mut HeaderList, add: &Vec<(String, String)>)
    ensures
        final(headers)@ == with_added(old(headers)@, add@, add@.len() as int),
{
    let ghost start = headers@;
    let mut k: usize = 0;
    while k < add.len()
        invariant
            k <= add@.len(),
            headers@ == with_added(start, add@, k as int),
        decreases add@.len() - k,
    {
        headers.insert(add[k].0.as_str(), add[k].1.as_str());
        k = k + 1;
    }
}

fn apply_strips(headers: &mut HeaderList, strip: &Vec<String>)
    ensures
        final(headers)@ == with_stripped(old(headers)@, strip@, strip@.len() as int),
{
    let ghost start = headers@;
    let mut k: usize = 0;
    while k < strip.len()
        invariant
            k <= strip@.len(),
            headers@ == with_stripped(start, strip@, k as int),
        decreases strip@.len() - k,
    {
        headers.remove(strip[k].as_str());
        k = k + 1;
    }
}

/// Builds the headers sent to one target: the client's headers where they
/// are forwarded, without the hop-by-hop headers where those are stripped,
/// `Host` rewritten to the target, the proxy headers where they are on, then
/// the header rules of the defaults and of the route.
pub fn build_forwarded_headers(
    incoming: &HeaderList,
    client_ip: &str,
    target_url: &TargetUrl,
    route: &Route,
    defaults: &Defaults,
    correlation_id: &str,
) -> (r: HeaderList)
    ensures
        r@ == forwarded_headers(
            incoming@,
            client_ip@,
            target_url.parts(),
            *route,
            *defaults,
            correlation_id@,
        ),
{
    let mut headers = if defaults.forward_headers {
        incoming.clone_list()
    } else {
        HeaderList::new()
    };
    let ghost h0 = headers@;
    if defaults.strip_hop_by_hop {
        let names = hop_by_hop_names();
        assert(names@.len() == views(names@).len());
        remove_all(&mut headers, &names);
    }
    let ghost h1 = headers@;
    assert(h1 == (if defaults.strip_hop_by_hop {
        without_all(h0, hop_by_hop(), 8)
    } else {
        h0
    }));
    match &target_url.host {
        Some(host) => {
            let mut hv = host.clone();
            match target_url.port {
                Some(port) => {
                    hv.append(":");
                    let p = decimal_string(port as u64);
                    hv.append(p.as_str());
                },
                None => {},
            }
            proof {
                reveal_strlit("host");
            }
            assert("host"@.map_values(|c: char| crate::header_list::ascii_lower(c)) =~= "host"@);
            set_valid(&mut headers, "host", hv.as_str());
        },
        None => {},
    }
    let ghost h2 = headers@;
    assert(h2 == match host_value(target_url.parts()) {
        Some(hv) => set_if_valid(h1, "host"@, hv),
        None => h1,
    });
    if defaults.proxy_headers {
        add_proxy_headers(
            &mut headers,
            incoming,
            client_ip,
            target_url.scheme.as_str(),
            correlation_id,
        );
    }
    apply_adds(&mut headers, &defaults.headers.add);
    apply_adds(&mut headers, &route.headers.add);
    apply_strips(&mut headers, &defaults.headers.strip);
    apply_strips(&mut headers, &route.headers.strip);
    headers
}

} // verus!
