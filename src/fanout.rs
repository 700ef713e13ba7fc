//! Planning a fan-out: which target is primary, the URL, timeout and headers
//! of each dispatch, and what the outcomes of the dispatches mean for the
//! caller.

use vstd::prelude::*;

use crate::header_list::HeaderList;
use crate::headers::{build_forwarded_headers, forwarded_headers};
use crate::model::{Defaults, Route, Target};
use crate::params::Params;
use crate::target_url::{url_parse_of, TargetUrl};
use crate::text::{chars_eq, chars_of, string_of, sub_chars};

verus! {

/// A name and its value.
pub type Entry = (Seq<char>, Seq<char>);

/// `s` with every occurrence of the non-empty pattern `p` replaced by `r`,
/// from left to right.
pub open spec fn replace_all(s: Seq<char>, p: Seq<char>, r: Seq<char>) -> Seq<char>
    decreases s.len(),
{
    if p.len() == 0 || s.len() < p.len() {
        s
    } else if s.subrange(0, p.len() as int) == p {
        r + replace_all(s.subrange(p.len() as int, s.len() as int), p, r)
    } else {
        seq![s[0]] + replace_all(s.drop_first(), p, r)
    }
}

/// `e` placed after every entry whose name is at least as long.
pub open spec fn insert_by_len(sorted: Seq<Entry>, e: Entry) -> Seq<Entry>
    decreases sorted.len(),
{
    if sorted.len() == 0 {
        seq![e]
    } else if sorted[0].0.len() < e.0.len() {
        seq![e] + sorted
    } else {
        seq![sorted[0]] + insert_by_len(sorted.drop_first(), e)
    }
}

/// The entries ordered by descending name length, entries of equal length
/// in their incoming order.
pub open spec fn sort_by_len(s: Seq<Entry>) -> Seq<Entry>
    decreases s.len(),
{
    if s.len() == 0 {
        s
    } else {
        insert_by_len(sort_by_len(s.drop_last()), s.last())
    }
}

/// The template once the first `k` entries are substituted, in order.
pub open spec fn substituted(url: Seq<char>, es: Seq<Entry>, k: int) -> Seq<char>
    decreases k,
{
    if k <= 0 {
        url
    } else {
        replace_all(substituted(url, es, k - 1), seq![':'] + es[k - 1].0, es[k - 1].1)
    }
}

/// A URL template with each `:name` placeholder replaced by its value,
/// longer names first.
pub open spec fn substitute(url: Seq<char>, ps: Seq<Entry>) -> Seq<char> {
    let es = sort_by_len(ps);
    substituted(url, es, es.len() as int)
}

/// Replaces every occurrence of the non-empty pattern `p` in `s` by `r`.
pub fn replace_chars(s: &Vec<char>, p: &Vec<char>, r: &Vec<char>) -> (out: Vec<char>)
    requires
        p@.len() > 0,
    ensures
        out@ == replace_all(s@, p@, r@),
{
    let mut out: Vec<char> = Vec::new();
    let mut i: usize = 0;
    assert(s@.subrange(0, s@.len() as int) =~= s@);
    assert(Seq::<char>::empty() + replace_all(s@, p@, r@) =~= replace_all(s@, p@, r@));
    while i < s.len()
        invariant
            i <= s@.len(),
            p@.len() > 0,
            out@ + replace_all(s@.subrange(i as int, s@.len() as int), p@, r@) == replace_all(
                s@,
                p@,
                r@,
            ),
        decreases s@.len() - i,
    {
        let ghost rest = s@.subrange(i as int, s@.len() as int);
        let ghost before = out@;
        if s.len() - i >= p.len() && chars_eq(&sub_chars(s, i, i + p.len()), p) {
            assert(rest.subrange(0, p@.len() as int) =~= s@.subrange(i as int, i + p@.len()));
            assert(rest.subrange(p@.len() as int, rest.len() as int) =~= s@.subrange(
                i + p@.len(),
                s@.len() as int,
            ));
            let mut k: usize = 0;
            while k < r.len()
                invariant
                    k <= r@.len(),
                    out@ == before + r@.subrange(0, k as int),
                decreases r@.len() - k,
            {
                out.push(r[k]);
                k = k + 1;
                assert(out@ =~= before + r@.subrange(0, k as int));
            }
            assert(r@.subrange(0, r@.len() as int) =~= r@);
            assert(before + (r@ + replace_all(
                s@.subrange(i + p@.len(), s@.len() as int),
                p@,
                r@,
            )) =~= out@ + replace_all(s@.subrange(i + p@.len(), s@.len() as int), p@, r@));
            i = i + p.len();
        } else {
            proof {
                if rest.len() >= p@.len() {
                    assert(rest.subrange(0, p@.len() as int) =~= s@.subrange(
                        i as int,
                        i + p@.len(),
                    ));
                }
            }
            assert(rest.drop_first() =~= s@.subrange(i + 1, s@.len() as int));
            out.push(s[i]);
            proof {
                if rest.len() < p@.len() {
                    assert(replace_all(rest, p@, r@) == rest);
                    assert(replace_all(rest.drop_first(), p@, r@) == rest.drop_first());
                }
            }
            assert(before + (seq![s@[i as int]] + replace_all(rest.drop_first(), p@, r@))
                =~= out@ + replace_all(rest.drop_first(), p@, r@));
            i = i + 1;
        }
    }
    assert(out@ + replace_all(Seq::<char>::empty(), p@, r@) =~= out@);
    out
}

proof fn lemma_insert_by_len(sorted: Seq<Entry>, e: Entry, j: int)
    requires
        0 <= j <= sorted.len(),
        forall|i: int| 0 <= i < j ==> sorted[i].0.len() >= e.0.len(),
        j == sorted.len() || sorted[j].0.len() < e.0.len(),
    ensures
        insert_by_len(sorted, e) == sorted.insert(j, e),
    decreases sorted.len(),
{
    if sorted.len() == 0 {
        assert(sorted.insert(j, e) =~= seq![e]);
    } else if j == 0 {
        assert(sorted.insert(j, e) =~= seq![e] + sorted);
    } else {
        lemma_insert_by_len(sorted.drop_first(), e, j - 1);
        assert(seq![sorted[0]] + sorted.drop_first().insert(j - 1, e) =~= sorted.insert(j, e));
    }
}

/// Substitutes the `:name` placeholders of a URL template with the
/// parameters' values, longer names first, so that `:id` cannot eat into
/// `:idType`.
pub fn substitute_params(url_template: &str, params: &Params) -> (r: String)
    ensures
        r@ == substitute(url_template@, params@),
{
    let n = params.len();
    // Entries ordered by descending name length, stable.
    let mut sorted: Vec<(Vec<char>, Vec<char>)> = Vec::new();
    let mut i: usize = 0;
    while i < n
        invariant
            n == params@.len(),
            i <= n,
            sorted@.map_values(|e: (Vec<char>, Vec<char>)| (e.0@, e.1@)) == sort_by_len(
                params@.subrange(0, i as int),
            ),
        decreases n - i,
    {
        let (k, v) = params.entry(i);
        let e = (chars_of(k.as_str()), chars_of(v.as_str()));
        let ghost ev = (e.0@, e.1@);
        let ghost sv = sorted@.map_values(|e: (Vec<char>, Vec<char>)| (e.0@, e.1@));
        let mut j: usize = 0;
        while j < sorted.len() && sorted[j].0.len() >= e.0.len()
            invariant
                j <= sorted@.len(),
                sv == sorted@.map_values(|e: (Vec<char>, Vec<char>)| (e.0@, e.1@)),
                forall|t: int| 0 <= t < j ==> sv[t].0.len() >= ev.0.len(),
                ev == (e.0@, e.1@),
            decreases sorted@.len() - j,
        {
            j = j + 1;
        }
        proof {
            lemma_insert_by_len(sv, ev, j as int);
            assert(params@.subrange(0, i + 1).drop_last() =~= params@.subrange(0, i as int));
        }
        sorted.insert(j, e);
        assert(sorted@.map_values(|e: (Vec<char>, Vec<char>)| (e.0@, e.1@)) =~= sv.insert(
            j as int,
            ev,
        ));
        i = i + 1;
    }
    assert(params@.subrange(0, n as int) =~= params@);
    let ghost es = sort_by_len(params@);
    let mut result = chars_of(url_template);
    let mut k: usize = 0;
    while k < sorted.len()
        invariant
            k <= sorted@.len(),
            es == sorted@.map_values(|e: (Vec<char>, Vec<char>)| (e.0@, e.1@)),
            result@ == substituted(url_template@, es, k as int),
        decreases sorted@.len() - k,
    {
        let mut pat: Vec<char> = Vec::new();
        pat.push(':');
        let name = &sorted[k].0;
        let mut t: usize = 0;
        while t < name.len()
            invariant
                t <= name@.len(),
                pat@ == seq![':'] + name@.subrange(0, t as int),
            decreases name@.len() - t,
        {
            pat.push(name[t]);
            t = t + 1;
            assert(pat@ =~= seq![':'] + name@.subrange(0, t as int));
        }
        assert(name@.subrange(0, name@.len() as int) =~= name@);
        result = replace_chars(&result, &pat, &sorted[k].1);
        k = k + 1;
    }
    string_of(&result)
}

/// The index of the primary target: the first marked primary, else the
/// first.
pub open spec fn primary_index(targets: Seq<Target>) -> int {
    if exists|i: int| 0 <= i < targets.len() && targets[i].primary {
        choose|i: int|
            0 <= i < targets.len() && targets[i].primary && forall|j: int|
                0 <= j < i ==> !targets[j].primary
    } else {
        0
    }
}

/// The index of the primary target: the first marked primary, else 0.
pub fn select_primary(targets: &Vec<Target>) -> (r: usize)
    ensures
        r == primary_index(targets@),
        r < targets@.len() || (r == 0 && targets@.len() == 0),
{
    let mut i: usize = 0;
    while i < targets.len()
        invariant
            i <= targets@.len(),
            forall|j: int| 0 <= j < i ==> !targets@[j].primary,
        decreases targets@.len() - i,
    {
        if targets[i].primary {
            assert(forall|a: int, b: int|
                0 <= a < targets@.len() && targets@[a].primary && (forall|j: int|
                    0 <= j < a ==> !targets@[j].primary) && 0 <= b < targets@.len()
                    && targets@[b].primary && (forall|j: int| 0 <= j < b ==> !targets@[j].primary)
                    ==> a == b) by {
                assert forall|a: int, b: int|
                    0 <= a < targets@.len() && targets@[a].primary && (forall|j: int|
                        0 <= j < a ==> !targets@[j].primary) && 0 <= b < targets@.len()
                        && targets@[b].primary && (forall|j: int|
                        0 <= j < b ==> !targets@[j].primary) implies a == b by {
                    if a < b {
                        assert(!targets@[a].primary);
                    } else if b < a {
                        assert(!targets@[b].primary);
                    }
                }
            }
            return i;
        }
        i = i + 1;
    }
    0
}

/// The timeout of a dispatch: the target's, else the route's, else the
/// default one.
pub open spec fn timeout_of(t: Target, route: Route, defaults: Defaults) -> u64 {
    match t.timeout {
        Some(x) => x,
        None => match route.timeout {
            Some(x) => x,
            None => defaults.timeout,
        },
    }
}

/// The timeout of a dispatch to a target, in milliseconds.
pub fn effective_timeout(target: &Target, route: &Route, defaults: &Defaults) -> (r: u64)
    ensures
        r == timeout_of(*target, *route, *defaults),
{
    match target.timeout {
        Some(x) => x,
        None => match route.timeout {
            Some(x) => x,
            None => defaults.timeout,
        },
    }
}

/// The indices, among the first `n` targets, whose URL parses once the
/// parameters are substituted: the targets that are dispatched.
pub open spec fn dispatched(targets: Seq<Target>, ps: Seq<Entry>, n: int) -> Seq<int>
    decreases n,
{
    if n <= 0 {
        Seq::empty()
    } else {
        let prev = dispatched(targets, ps, n - 1);
        if url_parse_of(substitute(targets[n - 1].url@, ps)) is Some {
            prev.push(n - 1)
        } else {
            prev
        }
    }
}

/// A dispatched index is the index of a target, and the indices rise.
pub proof fn lemma_dispatched_indices(targets: Seq<Target>, ps: Seq<Entry>, n: int)
    requires
        0 <= n,
    ensures
        forall|k: int|
            0 <= k < dispatched(targets, ps, n).len() ==> 0 <= #[trigger] dispatched(
                targets,
                ps,
                n,
            )[k] < n,
    decreases n,
{
    if n > 0 {
        lemma_dispatched_indices(targets, ps, n - 1);
        let prev = dispatched(targets, ps, n - 1);
        let cur = dispatched(targets, ps, n);
        assert forall|k: int| 0 <= k < cur.len() implies 0 <= #[trigger] cur[k] < n by {
            if k < prev.len() {
                assert(cur[k] == prev[k]);
            }
        }
    }
}

/// A route with a single target dispatches to its primary only: every
/// dispatch of such a route is the primary one, so nothing secondary runs.
pub proof fn lemma_single_target_is_primary(targets: Seq<Target>, ps: Seq<Entry>, k: int)
    requires
        targets.len() == 1,
        0 <= k < dispatched(targets, ps, 1).len(),
    ensures
        dispatched(targets, ps, 1)[k] == primary_index(targets),
{
    lemma_dispatched_indices(targets, ps, 1);
    if exists|i: int| 0 <= i < targets.len() && targets[i].primary {
        let j = primary_index(targets);
        assert(0 <= j < 1);
    }
}

/// One dispatch of a request to a target.
#[derive(Debug)]
pub struct Dispatch {
    /// The index of the target in its route.
    pub index: usize,
    /// The URL, with the parameters substituted.
    pub url: String,
    pub timeout_ms: u64,
    /// The headers sent to the target.
    pub headers: HeaderList,
    /// Whether the caller's response is this dispatch's.
    pub primary: bool,
}

/// What a dispatch to target `i` holds.
pub open spec fn dispatch_for(
    d: Dispatch,
    i: int,
    targets: Seq<Target>,
    ps: Seq<Entry>,
    route: Route,
    defaults: Defaults,
    incoming: Seq<Entry>,
    ip: Seq<char>,
    cid: Seq<char>,
) -> bool {
    let u = substitute(targets[i].url@, ps);
    &&& d.index == i
    &&& d.url@ == u
    &&& url_parse_of(u) matches Some(parts) && d.headers@ == forwarded_headers(
        incoming,
        ip,
        parts,
        route,
        defaults,
        cid,
    )
    &&& d.timeout_ms == timeout_of(targets[i], route, defaults)
    &&& d.primary == (i == primary_index(targets))
}

/// Plans the dispatches of a request to the targets of its route: one per
/// target whose URL parses once the parameters are substituted, in order,
/// each with its timeout and its headers; the primary is marked.
pub fn plan_fan_out(
    route: &Route,
    params: &Params,
    defaults: &Defaults,
    incoming: &HeaderList,
    client_ip: &str,
    correlation_id: &str,
) -> (r: Vec<Dispatch>)
    ensures
        r@.len() == dispatched(route.targets@, params@, route.targets@.len() as int).len(),
        forall|k: int|
            0 <= k < r@.len() ==> dispatch_for(
                #[trigger] r@[k],
                dispatched(route.targets@, params@, route.targets@.len() as int)[k],
                route.targets@,
                params@,
                *route,
                *defaults,
                incoming@,
                client_ip@,
                correlation_id@,
            ),
{
    let targets = &route.targets;
    let primary = select_primary(targets);
    let mut out: Vec<Dispatch> = Vec::new();
    let mut i: usize = 0;
    while i < targets.len()
        invariant
            targets == &route.targets,
            primary == primary_index(targets@),
            i <= targets@.len(),
            out@.len() == dispatched(targets@, params@, i as int).len(),
            forall|k: int|
                0 <= k < out@.len() ==> dispatch_for(
                    #[trigger] out@[k],
                    dispatched(targets@, params@, i as int)[k],
                    targets@,
                    params@,
                    *route,
                    *defaults,
                    incoming@,
                    client_ip@,
                    correlation_id@,
                ),
        decreases targets@.len() - i,
    {
        let target = &targets[i];
        let resolved = substitute_params(target.url.as_str(), params);
        match TargetUrl::parse(resolved.as_str()) {
            Some(parsed) => {
                let headers = build_forwarded_headers(
                    incoming,
                    client_ip,
                    &parsed,
                    route,
                    defaults,
                    correlation_id,
                );
                let d = Dispatch {
                    index: i,
                    url: resolved,
                    timeout_ms: effective_timeout(target, route, defaults),
                    headers,
                    primary: i == primary,
                };
                out.push(d);
            },
            None => {},
        }
        i = i + 1;
    }
    out
}

/// How a dispatch ended.
#[derive(Debug)]
pub enum DispatchOutcome {
    /// Headers received and body read in full within the timeout.
    RespondedOk { status: u16, headers: HeaderList, body: Vec<u8> },
    /// Headers received, but reading the body failed.
    RespondedBodyErr { status: u16, message: String },
    /// The connection or the protocol failed.
    TransportErr { message: String },
    /// The timeout elapsed before the dispatch completed.
    TimedOut,
}

/// What is recorded of a dispatch.
#[derive(Debug)]
pub struct TargetResult {
    pub url: String,
    pub status: Option<u16>,
    pub latency_ms: u64,
    pub error: Option<String>,
}

/// The error recorded for an outcome, if any.
pub open spec fn outcome_error(o: DispatchOutcome) -> Option<Seq<char>> {
    match o {
        DispatchOutcome::RespondedOk { .. } => None,
        DispatchOutcome::RespondedBodyErr { message, .. } => Some("body read error: "@ + message@),
        DispatchOutcome::TransportErr { message } => Some(message@),
        DispatchOutcome::TimedOut => Some("request timed out"@),
    }
}

/// The status recorded for an outcome, if any.
pub open spec fn outcome_status(o: DispatchOutcome) -> Option<u16> {
    match o {
        DispatchOutcome::RespondedOk { status, .. } => Some(status),
        DispatchOutcome::RespondedBodyErr { status, .. } => Some(status),
        _ => None,
    }
}

/// Records a dispatch: its URL, its status where a response came, its
/// latency and its error where it failed.
pub fn target_result(url: String, latency_ms: u64, outcome: &DispatchOutcome) -> (r: TargetResult)
    ensures
        r.url@ == url@,
        r.latency_ms == latency_ms,
        r.status == outcome_status(*outcome),
        crate::target_url::opt_view(r.error) == outcome_error(*outcome),
{
    match outcome {
        DispatchOutcome::RespondedOk { status, .. } => TargetResult {
            url,
            status: Some(*status),
            latency_ms,
            error: None,
        },
        DispatchOutcome::RespondedBodyErr { status, message } => {
            let mut e = String::from_str("body read error: ");
            e.append(message.as_str());
            TargetResult { url, status: Some(*status), latency_ms, error: Some(e) }
        },
        DispatchOutcome::TransportErr { message } => TargetResult {
            url,
            status: None,
            latency_ms,
            error: Some(message.clone()),
        },
        DispatchOutcome::TimedOut => TargetResult {
            url,
            status: None,
            latency_ms,
            error: Some(String::from_str("request timed out")),
        },
    }
}

/// A response of the primary target, returned to the caller.
#[derive(Debug)]
pub struct PrimaryResponse {
    pub status: u16,
    pub headers: HeaderList,
    pub body: Vec<u8>,
}

/// The caller's response from the primary dispatch's outcome: the response
/// where it came in full, nothing where the primary failed.
pub fn primary_response(outcome: DispatchOutcome) -> (r: Option<PrimaryResponse>)
    ensures
        (r is Some) == (outcome is RespondedOk),
        r matches Some(p) ==> outcome matches DispatchOutcome::RespondedOk { status, headers, body }
            && p.status == status && p.headers@ == headers@ && p.body@ == body@,
{
    match outcome {
        DispatchOutcome::RespondedOk { status, headers, body } => Some(
            PrimaryResponse { status, headers, body },
        ),
        _ => None,
    }
}

} // verus!
