//! Specificity-based route matching.
//!
//! Every route that accepts the request method is scored against the request
//! path: a catch-all scores 0, a prefix wildcard 10 per prefix segment, and a
//! pattern 10 per literal segment and 5 per `:name` segment. The highest
//! score wins; on equal scores the route declared first wins.

use vstd::prelude::*;

use crate::model::Route;
use crate::params::{bind, Params};
use crate::text::{chars_eq, chars_of, segments, split_segments, string_of, sub_chars, views};

verus! {

/// Two characters equal up to ASCII case.
pub open spec fn char_eq_ignore_case(a: char, b: char) -> bool {
    ||| a == b
    ||| ('A' <= a <= 'Z' && a as u32 + 32 == b as u32)
    ||| ('A' <= b <= 'Z' && b as u32 + 32 == a as u32)
}

/// Two character sequences equal up to ASCII case.
pub open spec fn eq_ignore_case(a: Seq<char>, b: Seq<char>) -> bool {
    a.len() == b.len() && forall|i: int| 0 <= i < a.len() ==> char_eq_ignore_case(a[i], b[i])
}

/// Whether a method list accepts the request method `m`: it holds `*` or
/// `m` up to ASCII case.
pub open spec fn method_allowed(methods: Seq<String>, m: Seq<char>) -> bool {
    exists|i: int|
        0 <= i < methods.len() && (methods[i]@ == seq!['*'] || eq_ignore_case(methods[i]@, m))
}

/// A catch-all path: `/*` or `*`.
pub open spec fn is_catch_all(p: Seq<char>) -> bool {
    p == seq!['/', '*'] || p == seq!['*']
}

/// A prefix-wildcard path: it ends with `/*`.
pub open spec fn is_prefix_wildcard(p: Seq<char>) -> bool {
    p.len() >= 2 && p[p.len() - 2] == '/' && p[p.len() - 1] == '*'
}

/// The prefix segments of a prefix-wildcard path.
pub open spec fn wildcard_prefix(p: Seq<char>) -> Seq<Seq<char>> {
    segments(p.subrange(0, p.len() - 2))
}

/// A parameter segment: it starts with `:`.
pub open spec fn is_param(seg: Seq<char>) -> bool {
    seg.len() > 0 && seg[0] == ':'
}

/// The score of the first `k` route segments against the request segments,
/// or `None` where a literal segment differs.
pub open spec fn pattern_score(rs: Seq<Seq<char>>, qs: Seq<Seq<char>>, k: int) -> Option<int>
    decreases k,
{
    if k <= 0 {
        Some(0)
    } else {
        match pattern_score(rs, qs, k - 1) {
            None => None,
            Some(s) => if is_param(rs[k - 1]) {
                Some(s + 5)
            } else if rs[k - 1] == qs[k - 1] {
                Some(s + 10)
            } else {
                None
            },
        }
    }
}

/// The parameters captured by the first `k` route segments.
pub open spec fn pattern_params(rs: Seq<Seq<char>>, qs: Seq<Seq<char>>, k: int) -> Seq<
    (Seq<char>, Seq<char>),
>
    decreases k,
{
    if k <= 0 {
        Seq::empty()
    } else {
        let ps = pattern_params(rs, qs, k - 1);
        if is_param(rs[k - 1]) {
            bind(ps, rs[k - 1].drop_first(), qs[k - 1])
        } else {
            ps
        }
    }
}

/// The specificity of a route for the request segments `qs` and method `m`,
/// or `None` where the route does not match.
pub open spec fn route_score(route: Route, qs: Seq<Seq<char>>, m: Seq<char>) -> Option<int> {
    let p = route.path@;
    if !method_allowed(route.methods@, m) {
        None
    } else if is_catch_all(p) {
        Some(0)
    } else if is_prefix_wildcard(p) {
        let ps = wildcard_prefix(p);
        if ps.len() <= qs.len() && ps == qs.subrange(0, ps.len() as int) {
            Some(10 * ps.len() as int)
        } else {
            None
        }
    } else {
        let rs = segments(p);
        if rs.len() == qs.len() {
            pattern_score(rs, qs, rs.len() as int)
        } else {
            None
        }
    }
}

/// The parameters a matching route captures from the request segments.
pub open spec fn route_params(route: Route, qs: Seq<Seq<char>>) -> Seq<(Seq<char>, Seq<char>)> {
    let p = route.path@;
    if is_catch_all(p) || is_prefix_wildcard(p) {
        Seq::empty()
    } else {
        let rs = segments(p);
        pattern_params(rs, qs, rs.len() as int)
    }
}

/// The best of the first `n` routes, with its score: the highest score, the
/// first route among equals.
pub open spec fn best_route(routes: Seq<Route>, qs: Seq<Seq<char>>, m: Seq<char>, n: int) -> Option<
    (int, int),
>
    decreases n,
{
    if n <= 0 {
        None
    } else {
        let prev = best_route(routes, qs, m, n - 1);
        match route_score(routes[n - 1], qs, m) {
            None => prev,
            Some(s) => match prev {
                None => Some((n - 1, s)),
                Some(b) => if s > b.1 {
                    Some((n - 1, s))
                } else {
                    prev
                },
            },
        }
    }
}

/// The route chosen for a request path and method, with its score.
pub open spec fn chosen_route(routes: Seq<Route>, path: Seq<char>, m: Seq<char>) -> Option<
    (int, int),
> {
    best_route(routes, segments(path), m, routes.len() as int)
}

/// A pattern scores at most 10 per segment and at least nothing.
pub proof fn lemma_pattern_score_bounds(rs: Seq<Seq<char>>, qs: Seq<Seq<char>>, k: int)
    requires
        0 <= k,
    ensures
        pattern_score(rs, qs, k) matches Some(s) ==> 0 <= s <= 10 * k,
    decreases k,
{
    if k > 0 {
        lemma_pattern_score_bounds(rs, qs, k - 1);
    }
}

/// Once a literal segment differs, no longer prefix of the pattern matches.
pub proof fn lemma_pattern_score_stays_none(
    rs: Seq<Seq<char>>,
    qs: Seq<Seq<char>>,
    k: int,
    n: int,
)
    requires
        0 <= k <= n,
        pattern_score(rs, qs, k) is None,
    ensures
        pattern_score(rs, qs, n) is None,
    decreases n - k,
{
    if k < n {
        lemma_pattern_score_stays_none(rs, qs, k + 1, n);
    }
}

/// The best of the first `n` routes depends on those routes alone.
proof fn lemma_best_route_prefix(a: Seq<Route>, b: Seq<Route>, qs: Seq<Seq<char>>, m: Seq<char>, n: int)
    requires
        0 <= n <= a.len(),
        n <= b.len(),
        forall|j: int| 0 <= j < n ==> a[j] == b[j],
    ensures
        best_route(a, qs, m, n) == best_route(b, qs, m, n),
    decreases n,
{
    if n > 0 {
        lemma_best_route_prefix(a, b, qs, m, n - 1);
    }
}

/// The best of the first `n` routes is one of them.
pub proof fn lemma_best_route_index(routes: Seq<Route>, qs: Seq<Seq<char>>, m: Seq<char>, n: int)
    ensures
        best_route(routes, qs, m, n) matches Some(b) ==> 0 <= b.0 < n && route_score(
            routes[b.0],
            qs,
            m,
        ) == Some(b.1),
    decreases n,
{
    if n > 0 {
        lemma_best_route_index(routes, qs, m, n - 1);
    }
}

/// The index a route has once `x` is inserted at position `p`.
pub open spec fn shifted(o: Option<(int, int)>, p: int) -> Option<(int, int)> {
    match o {
        Some(b) => Some((if b.0 >= p { b.0 + 1 } else { b.0 }, b.1)),
        None => None,
    }
}

proof fn lemma_insert_step(
    routes: Seq<Route>,
    x: Route,
    p: int,
    qs: Seq<Seq<char>>,
    m: Seq<char>,
    n: int,
)
    requires
        0 <= p <= n <= routes.len(),
    ensures
        ({
            let o = best_route(routes, qs, m, n);
            let r = best_route(routes.insert(p, x), qs, m, n + 1);
            ||| r == shifted(o, p)
            ||| (route_score(x, qs, m) matches Some(sx) && r == Some((p, sx)) && (o matches Some(
                ob,
            ) ==> sx >= ob.1))
        }),
    decreases n - p,
{
    let r2 = routes.insert(p, x);
    lemma_best_route_index(routes, qs, m, n);
    lemma_best_route_index(routes, qs, m, n - 1);
    if n == p {
        lemma_best_route_prefix(routes, r2, qs, m, p);
        assert(r2[p] == x);
    } else {
        lemma_insert_step(routes, x, p, qs, m, n - 1);
        assert(r2[n] == routes[n - 1]);
    }
}

/// Inserting a route that is strictly less specific for a request than the
/// route chosen for it keeps that choice: the same route (shifted by the
/// insertion) is chosen, with the same specificity.
pub proof fn lemma_less_specific_insert_keeps_match(
    routes: Seq<Route>,
    x: Route,
    p: int,
    path: Seq<char>,
    m: Seq<char>,
)
    requires
        0 <= p <= routes.len(),
        chosen_route(routes, path, m) is Some,
        route_score(x, segments(path), m) matches Some(sx) ==> sx < chosen_route(
            routes,
            path,
            m,
        )->Some_0.1,
    ensures
        chosen_route(routes.insert(p, x), path, m) == shifted(chosen_route(routes, path, m), p),
{
    lemma_insert_step(routes, x, p, segments(path), m, routes.len() as int);
    assert(routes.insert(p, x).len() == routes.len() + 1);
}

/// Whether two character sequences are equal up to ASCII case.
pub fn eq_ignore_ascii_case(a: &Vec<char>, b: &Vec<char>) -> (r: bool)
    ensures
        r == eq_ignore_case(a@, b@),
{
    if a.len() != b.len() {
        return false;
    }
    let mut i: usize = 0;
    while i < a.len()
        invariant
            a@.len() == b@.len(),
            i <= a@.len(),
            forall|j: int| 0 <= j < i ==> char_eq_ignore_case(a@[j], b@[j]),
        decreases a@.len() - i,
    {
        let x = a[i];
        let y = b[i];
        let ok = x == y || ('A' <= x && x <= 'Z' && (x as u32) + 32 == y as u32) || ('A' <= y
            && y <= 'Z' && (y as u32) + 32 == x as u32);
        if !ok {
            return false;
        }
        i = i + 1;
    }
    true
}

/// Whether a method list accepts the request method.
fn method_matches(methods: &Vec<String>, method: &Vec<char>) -> (r: bool)
    ensures
        r == method_allowed(methods@, method@),
{
    let mut i: usize = 0;
    while i < methods.len()
        invariant
            i <= methods@.len(),
            forall|j: int|
                0 <= j < i ==> !(methods@[j]@ == seq!['*'] || eq_ignore_case(methods@[j]@, method@)),
        decreases methods@.len() - i,
    {
        let m = chars_of(methods[i].as_str());
        let is_star = m.len() == 1 && m[0] == '*';
        if is_star {
            assert(m@ =~= seq!['*']);
        }
        if is_star || eq_ignore_ascii_case(&m, method) {
            return true;
        }
        assert(m@ == seq!['*'] ==> m@.len() == 1 && m@[0] == '*');
        i = i + 1;
    }
    false
}

/// Whether the route segments equal the first request segments.
fn segments_match_exact(route: &Vec<Vec<char>>, request: &Vec<Vec<char>>) -> (r: bool)
    requires
        route@.len() <= request@.len(),
    ensures
        r == (views(route@) == views(request@).subrange(0, route@.len() as int)),
{
    let mut i: usize = 0;
    while i < route.len()
        invariant
            route@.len() <= request@.len(),
            i <= route@.len(),
            forall|j: int| 0 <= j < i ==> route@[j]@ == request@[j]@,
        decreases route@.len() - i,
    {
        if !chars_eq(&route[i], &request[i]) {
            assert(views(route@)[i as int] != views(request@).subrange(0, route@.len() as int)[i as int]);
            return false;
        }
        i = i + 1;
    }
    assert(views(route@) =~= views(request@).subrange(0, route@.len() as int));
    true
}

/// Scores a pattern against request segments of the same number,
/// capturing its parameters.
fn match_pattern(rs: &Vec<Vec<char>>, qs: &Vec<Vec<char>>) -> (r: Option<(i128, Params)>)
    requires
        rs@.len() == qs@.len(),
    ensures
        match r {
            None => pattern_score(views(rs@), views(qs@), rs@.len() as int) is None,
            Some((s, ps)) => pattern_score(views(rs@), views(qs@), rs@.len() as int) == Some(
                s as int,
            ) && ps@ == pattern_params(views(rs@), views(qs@), rs@.len() as int),
        },
{
    let ghost vr = views(rs@);
    let ghost vq = views(qs@);
    let mut params = Params::new();
    let mut score: i128 = 0;
    let mut i: usize = 0;
    while i < rs.len()
        invariant
            rs@.len() == qs@.len(),
            vr == views(rs@),
            vq == views(qs@),
            i <= rs@.len(),
            pattern_score(vr, vq, i as int) == Some(score as int),
            params@ == pattern_params(vr, vq, i as int),
            0 <= score <= 10 * i,
        decreases rs@.len() - i,
    {
        let seg = &rs[i];
        assert(vr[i as int] == seg@);
        assert(vq[i as int] == qs@[i as int]@);
        if seg.len() > 0 && seg[0] == ':' {
            let name = string_of(&sub_chars(seg, 1, seg.len()));
            let value = string_of(&qs[i]);
            assert(seg@.subrange(1, seg@.len() as int) =~= seg@.drop_first());
            params.insert(name, value);
            score = score + 5;
        } else if chars_eq(seg, &qs[i]) {
            score = score + 10;
        } else {
            proof {
                lemma_pattern_score_stays_none(vr, vq, i + 1, rs@.len() as int);
            }
            return None;
        }
        i = i + 1;
    }
    Some((score, params))
}

/// Picks the route for a request: the index of the most specific route that
/// accepts `method` and matches `path`, the first declared among equals,
/// with the parameters it captures.
pub fn match_route(routes: &[Route], path: &str, method: &str) -> (r: Option<(usize, Params)>)
    ensures
        match r {
            None => chosen_route(routes@, path@, method@) is None,
            Some((i, ps)) => chosen_route(routes@, path@, method@) matches Some(b) && b.0 == i
                && ps@ == route_params(routes@[i as int], segments(path@)),
        },
{
    let path_chars = chars_of(path);
    let method_chars = chars_of(method);
    let request = split_segments(&path_chars);
    let ghost qs = segments(path@);
    let mut best: Option<(usize, Params)> = None;
    let mut best_score: i128 = -1;
    let mut idx: usize = 0;
    while idx < routes.len()
        invariant
            idx <= routes@.len(),
            views(request@) == qs,
            qs == segments(path@),
            method_chars@ == method@,
            match best_route(routes@, qs, method@, idx as int) {
                None => best is None && best_score == -1,
                Some(b) => best matches Some((i, ps)) && b.0 == i && b.1 == best_score
                    && ps@ == route_params(routes@[i as int], qs) && i < idx,
            },
            -1 <= best_score <= 10 * usize::MAX,
        decreases routes@.len() - idx,
    {
        let route = &routes[idx];
        let ghost score = route_score(*route, qs, method@);
        if method_matches(&route.methods, &method_chars) {
            let p = chars_of(route.path.as_str());
            let n = p.len();
            if (n == 2 && p[0] == '/' && p[1] == '*') || (n == 1 && p[0] == '*') {
                proof {
                    if n == 2 {
                        assert(p@ =~= seq!['/', '*']);
                    } else {
                        assert(p@ =~= seq!['*']);
                    }
                }
                assert(score == Some(0int));
                if best_score < 0 {
                    best = Some((idx, Params::new()));
                    best_score = 0;
                }
            } else if n >= 2 && p[n - 2] == '/' && p[n - 1] == '*' {
                proof {
                    assert(!(p@ =~= seq!['/', '*']) ==> p@ != seq!['/', '*']);
                    assert(p@ == seq!['/', '*'] ==> p@.len() == 2 && p@[0] == '/' && p@[1] == '*');
                    assert(p@ == seq!['*'] ==> p@.len() == 1 && p@[0] == '*');
                }
                let prefix = split_segments(&sub_chars(&p, 0, n - 2));
                if request.len() >= prefix.len() && segments_match_exact(&prefix, &request) {
                    let specificity = (prefix.len() as i128) * 10;
                    assert(score == Some(10 * prefix@.len() as int));
                    if specificity > best_score {
                        best = Some((idx, Params::new()));
                        best_score = specificity;
                    }
                } else {
                    assert(score is None);
                }
            } else {
                proof {
                    assert(p@ == seq!['/', '*'] ==> p@.len() == 2 && p@[0] == '/' && p@[1] == '*');
                    assert(p@ == seq!['*'] ==> p@.len() == 1 && p@[0] == '*');
                }
                let rsegs = split_segments(&p);
                if rsegs.len() == request.len() {
                    match match_pattern(&rsegs, &request) {
                        Some((specificity, params)) => {
                            proof {
                                lemma_pattern_score_bounds(views(rsegs@), qs, rsegs@.len() as int);
                            }
                            if specificity > best_score {
                                best = Some((idx, params));
                                best_score = specificity;
                            }
                        },
                        None => {},
                    }
                }
            }
        }
        idx = idx + 1;
    }
    best
}

} // verus!
