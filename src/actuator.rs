//! Helpers of the operational endpoints: masking secrets in the environment
//! listing, and the counters the metrics endpoint reports.

use vstd::prelude::*;

use vstd::utf8::{decode_utf8, valid_utf8};

use crate::model::ActuatorAuth;
use crate::proxy::Stats;
use crate::text::{chars_eq, chars_of, str_eq, sub_chars};
use crate::validation::{to_upper, upper_of};

verus! {

/// Whether `p` occurs in `s`.
pub open spec fn occurs_in(p: Seq<char>, s: Seq<char>) -> bool {
    exists|i: int| 0 <= i && i + p.len() <= s.len() && #[trigger] s.subrange(i, i + p.len()) == p
}

/// The words that mark an environment variable as secret.
pub open spec fn sensitive_words() -> Seq<Seq<char>> {
    seq!["PASSWORD"@, "SECRET"@, "TOKEN"@, "KEY"@, "DSN"@, "CREDENTIALS"@]
}

/// Whether a variable name, upper-cased, holds a secret-marking word.
pub open spec fn sensitive(key: Seq<char>) -> bool {
    exists|w: int| 0 <= w < sensitive_words().len() && occurs_in(sensitive_words()[w], upper_of(key))
}

/// Whether `p` occurs in `s`.
pub fn contains_chars(s: &Vec<char>, p: &Vec<char>) -> (r: bool)
    ensures
        r == occurs_in(p@, s@),
{
    if p.len() > s.len() {
        return false;
    }
    let n = s.len();
    let last = n - p.len();
    let mut i: usize = 0;
    while i <= last
        invariant
            n == s@.len(),
            last == s@.len() - p@.len(),
            p@.len() <= s@.len(),
            i <= last,
            forall|j: int| 0 <= j < i ==> #[trigger] s@.subrange(j, j + p@.len()) != p@,
        decreases last - i,
    {
        let end = i + p.len();
        if chars_eq(&sub_chars(s, i, end), p) {
            return true;
        }
        if i == last {
            assert forall|j: int| 0 <= j && j + p@.len() <= s@.len() implies #[trigger] s@.subrange(
                j,
                j + p@.len(),
            ) != p@ by {
                assert(j <= i);
            }
            return false;
        }
        i = i + 1;
    }
    false
}

/// Whether an environment variable holds a secret, by its name.
pub fn is_sensitive(key: &str) -> (r: bool)
    ensures
        r == sensitive(key@),
{
    let upper = chars_of(to_upper(key).as_str());
    let words: [&str; 6] = ["PASSWORD", "SECRET", "TOKEN", "KEY", "DSN", "CREDENTIALS"];
    let ghost ws = sensitive_words();
    proof {
        assert(words@.map_values(|w: &str| w@) =~= ws);
    }
    let mut w: usize = 0;
    while w < 6
        invariant
            w <= 6,
            ws == sensitive_words(),
            words@.map_values(|w: &str| w@) == ws,
            upper@ == upper_of(key@),
            forall|j: int| 0 <= j < w ==> !occurs_in(ws[j], upper@),
        decreases 6 - w,
    {
        assert(words@[w as int]@ == ws[w as int]);
        if contains_chars(&upper, &chars_of(words[w])) {
            return true;
        }
        w = w + 1;
    }
    false
}

/// The value shown for an environment variable: masked where it is secret.
pub fn shown_value(key: &str, value: String) -> (r: String)
    ensures
        sensitive(key@) ==> r@ == "******"@,
        !sensitive(key@) ==> r@ == value@,
{
    if is_sensitive(key) {
        String::from_str("******")
    } else {
        value
    }
}

/// A counter reading: its statistic kind and its value.
#[derive(Debug, Clone, Copy, PartialEq, Eq)]
pub enum Statistic {
    Count,
    Value,
}

/// The reading of a counter metric by name.
pub open spec fn metric_of(name: Seq<char>, stats: Stats) -> Option<(Statistic, u64)> {
    if name == "requests.forwarded"@ {
        Some((Statistic::Count, stats.forwarded))
    } else if name == "requests.failed"@ {
        Some((Statistic::Count, stats.failed))
    } else if name == "requests.active"@ {
        Some((Statistic::Value, stats.active_requests))
    } else if name == "config.reloads"@ {
        Some((Statistic::Count, stats.config_reloads))
    } else {
        None
    }
}

/// The reading of a counter metric by name; the uptime is read by the host.
pub fn counter_metric(name: &str, stats: &Stats) -> (r: Option<(Statistic, u64)>)
    ensures
        r == metric_of(name@, *stats),
{
    if str_eq(name, "requests.forwarded") {
        Some((Statistic::Count, stats.forwarded))
    } else if str_eq(name, "requests.failed") {
        Some((Statistic::Count, stats.failed))
    } else if str_eq(name, "requests.active") {
        Some((Statistic::Value, stats.active_requests))
    } else if str_eq(name, "config.reloads") {
        Some((Statistic::Count, stats.config_reloads))
    } else {
        None
    }
}

/// The value of a base64 digit, if `c` is one.
pub open spec fn b64_value(c: char) -> Option<u8> {
    if 'A' <= c <= 'Z' {
        Some((c as u32 - 'A' as u32) as u8)
    } else if 'a' <= c <= 'z' {
        Some((c as u32 - 'a' as u32 + 26) as u8)
    } else if '0' <= c <= '9' {
        Some((c as u32 - '0' as u32 + 52) as u8)
    } else if c == '+' {
        Some(62u8)
    } else if c == '/' {
        Some(63u8)
    } else {
        None
    }
}

/// The characters of `s` without its trailing `=` padding.
pub open spec fn unpadded(s: Seq<char>) -> Seq<char>
    decreases s.len(),
{
    if s.len() > 0 && s.last() == '=' {
        unpadded(s.drop_last())
    } else {
        s
    }
}

/// The bytes that base64 digit values encode: three bytes for each four
/// digits, and one or two for a trailing group of two or three digits.
pub open spec fn b64_bytes(v: Seq<u8>) -> Seq<u8>
    decreases v.len(),
{
    if v.len() >= 2 {
        let b0 = (v[0] * 4 + v[1] / 16) as u8;
        if v.len() == 2 {
            seq![b0]
        } else {
            let b1 = ((v[1] % 16) * 16 + v[2] / 4) as u8;
            if v.len() == 3 {
                seq![b0, b1]
            } else {
                let b2 = ((v[2] % 4) * 64 + v[3]) as u8;
                seq![b0, b1, b2] + b64_bytes(v.subrange(4, v.len() as int))
            }
        }
    } else {
        Seq::empty()
    }
}

/// The bytes a base64 text decodes to, where every character but the
/// trailing padding is a base64 digit.
pub open spec fn b64_decoded(s: Seq<char>) -> Option<Seq<u8>> {
    let u = unpadded(s);
    if forall|i: int| 0 <= i < u.len() ==> (#[trigger] b64_value(u[i])) is Some {
        Some(b64_bytes(u.map_values(|c: char| b64_value(c)->Some_0)))
    } else {
        None
    }
}

/// The text a base64 input decodes to, where it decodes to UTF-8.
pub open spec fn b64_text(s: Seq<char>) -> Option<Seq<char>> {
    match b64_decoded(s) {
        Some(b) => if valid_utf8(b) {
            Some(decode_utf8(b))
        } else {
            None
        },
        None => None,
    }
}

/// Relies on `String::from_utf8`: the bytes as text where they are UTF-8.
#[verifier::external_body]
fn utf8_string(b: Vec<u8>) -> (r: Option<String>)
    ensures
        r is Some <==> valid_utf8(b@),
        r matches Some(s) ==> s@ == decode_utf8(b@),
{
    String::from_utf8(b).ok()
}

fn digit_value(c: char) -> (r: Option<u8>)
    ensures
        r == b64_value(c),
{
    if 'A' <= c && c <= 'Z' {
        Some(((c as u32) - ('A' as u32)) as u8)
    } else if 'a' <= c && c <= 'z' {
        Some(((c as u32) - ('a' as u32) + 26) as u8)
    } else if '0' <= c && c <= '9' {
        Some(((c as u32) - ('0' as u32) + 52) as u8)
    } else if c == '+' {
        Some(62)
    } else if c == '/' {
        Some(63)
    } else {
        None
    }
}

/// Decodes a base64 text: trailing `=` padding is dropped, every other
/// character must be a base64 digit, and the bytes must be UTF-8.
pub fn base64_decode(input: &str) -> (r: Option<String>)
    ensures
        r is None ==> b64_text(input@) is None,
        r matches Some(t) ==> b64_text(input@) == Some(t@),
{
    let cs = chars_of(input);
    let mut n = cs.len();
    assert(cs@.subrange(0, cs@.len() as int) =~= cs@);
    while n > 0 && cs[n - 1] == '='
        invariant
            n <= cs@.len(),
            cs@ == input@,
            unpadded(cs@.subrange(0, n as int)) == unpadded(input@),
        decreases n,
    {
        assert(cs@.subrange(0, n as int).drop_last() =~= cs@.subrange(0, n - 1));
        n = n - 1;
    }
    let ghost u = cs@.subrange(0, n as int);
    assert(unpadded(u) == u);
    let mut vals: Vec<u8> = Vec::new();
    let mut i: usize = 0;
    while i < n
        invariant
            i <= n <= cs@.len(),
            u == cs@.subrange(0, n as int),
            unpadded(input@) == u,
            vals@.len() == i,
            forall|j: int| 0 <= j < i ==> (#[trigger] b64_value(u[j])) is Some,
            forall|j: int| 0 <= j < i ==> vals@[j] == b64_value(u[j])->Some_0 && vals@[j] < 64,
        decreases n - i,
    {
        match digit_value(cs[i]) {
            Some(v) => vals.push(v),
            None => {
                assert(u[i as int] == cs@[i as int]);
                assert(b64_value(u[i as int]) is None);
                assert(b64_decoded(input@) is None);
                return None;
            },
        }
        i = i + 1;
    }
    assert(vals@ =~= u.map_values(|c: char| b64_value(c)->Some_0));
    let mut out: Vec<u8> = Vec::new();
    let mut k: usize = 0;
    let len = vals.len();
    assert(vals@.subrange(0, len as int) =~= vals@);
    assert(Seq::<u8>::empty() + b64_bytes(vals@) =~= b64_bytes(vals@));
    while k < len && len - k >= 2
        invariant
            len == vals@.len(),
            k <= len,
            forall|j: int| 0 <= j < len ==> vals@[j] < 64,
            out@ + b64_bytes(vals@.subrange(k as int, len as int)) == b64_bytes(vals@),
        decreases len - k,
    {
        let ghost rest = vals@.subrange(k as int, len as int);
        let ghost before = out@;
        let v0 = vals[k];
        let v1 = vals[k + 1];
        out.push(v0 * 4 + v1 / 16);
        if k + 2 == len {
            assert(before + b64_bytes(rest) =~= out@ + b64_bytes(vals@.subrange(len as int, len as int)));
            k = len;
        } else {
            let v2 = vals[k + 2];
            out.push((v1 % 16) * 16 + v2 / 4);
            if k + 3 == len {
                assert(before + b64_bytes(rest) =~= out@ + b64_bytes(vals@.subrange(len as int, len as int)));
                k = len;
            } else {
                let v3 = vals[k + 3];
                out.push((v2 % 4) * 64 + v3);
                assert(rest.subrange(4, rest.len() as int) =~= vals@.subrange(k + 4, len as int));
                assert(before + b64_bytes(rest) =~= out@ + b64_bytes(vals@.subrange(k + 4, len as int)));
                k = k + 4;
            }
        }
    }
    proof {
        let rest = vals@.subrange(k as int, len as int);
        assert(rest.len() < 2);
        assert(out@ + b64_bytes(rest) =~= out@);
    }
    utf8_string(out)
}

/// The user and the password of `user:password`, split at the first colon.
pub open spec fn split_credentials(d: Seq<char>) -> Option<(Seq<char>, Seq<char>)> {
    if exists|i: int| 0 <= i < d.len() && d[i] == ':' {
        let i = choose|i: int|
            0 <= i < d.len() && d[i] == ':' && forall|j: int| 0 <= j < i ==> d[j] != ':';
        Some((d.subrange(0, i), d.subrange(i + 1, d.len() as int)))
    } else {
        None
    }
}

/// Whether a request may reach the operational endpoints: where both a user
/// and a password are configured, its `Authorization` header must be
/// `Basic ` followed by the base64 of `user:password`; otherwise every
/// request passes.
pub open spec fn authorized(auth: ActuatorAuth, header: Option<Seq<char>>) -> bool {
    match (auth.username, auth.password) {
        (Some(u), Some(p)) => match header {
            Some(h) => h.len() >= 6 && h.subrange(0, 6) == "Basic "@ && match b64_text(
                h.subrange(6, h.len() as int),
            ) {
                Some(d) => split_credentials(d) == Some((u@, p@)),
                None => false,
            },
            None => false,
        },
        _ => true,
    }
}

fn first_colon(d: &Vec<char>) -> (r: Option<usize>)
    ensures
        r is None ==> forall|j: int| 0 <= j < d@.len() ==> d@[j] != ':',
        r matches Some(i) ==> i < d@.len() && d@[i as int] == ':' && forall|j: int|
            0 <= j < i ==> d@[j] != ':',
{
    let mut i: usize = 0;
    while i < d.len()
        invariant
            i <= d@.len(),
            forall|j: int| 0 <= j < i ==> d@[j] != ':',
        decreases d@.len() - i,
    {
        if d[i] == ':' {
            return Some(i);
        }
        i = i + 1;
    }
    None
}

/// Checks the `Authorization` header of a request to the operational
/// endpoints against the configured credentials.
pub fn basic_auth_ok(auth: &ActuatorAuth, header: Option<&str>) -> (r: bool)
    ensures
        r == authorized(*auth, match header {
            Some(h) => Some(h@),
            None => None,
        }),
{
    let (user, pass) = match (&auth.username, &auth.password) {
        (Some(u), Some(p)) => (u, p),
        _ => return true,
    };
    let h = match header {
        Some(h) => h,
        None => return false,
    };
    let hc = chars_of(h);
    if hc.len() < 6 {
        return false;
    }
    let prefix = sub_chars(&hc, 0, 6);
    let basic = chars_of("Basic ");
    if !chars_eq(&prefix, &basic) {
        return false;
    }
    let encoded = crate::text::string_of(&sub_chars(&hc, 6, hc.len()));
    let decoded = match base64_decode(encoded.as_str()) {
        Some(d) => d,
        None => return false,
    };
    let d = chars_of(decoded.as_str());
    match first_colon(&d) {
        Some(i) => {
            let ghost dv = d@;
            proof {
                let k = choose|k: int|
                    0 <= k < dv.len() && dv[k] == ':' && forall|j: int| 0 <= j < k ==> dv[j] != ':';
                if k < i {
                    assert(dv[k] != ':');
                } else if i < k {
                    assert(dv[i as int] != ':');
                }
            }
            let dl = d.len();
            let u = sub_chars(&d, 0, i);
            let p = sub_chars(&d, i + 1, dl);
            let ok = chars_eq(&u, &chars_of(user.as_str())) && chars_eq(&p, &chars_of(pass.as_str()));
            proof {
                if ok {
                } else {
                    assert(split_credentials(dv) == Some((u@, p@)));
                }
            }
            ok
        },
        None => false,
    }
}

} // verus!
