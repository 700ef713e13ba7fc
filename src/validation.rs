//! Structural validation of a configuration, with field-level errors.

use vstd::prelude::*;

use crate::error::{error_views, ErrorView, ValidationError};
use crate::model::{ActuatorAuth, Config, Route, Target};
use crate::target_url::{url_parse_of, TargetUrl};
use crate::fanout::{primary_index, select_primary};
use crate::text::{chars_of, decimal, decimal_string, join_strings, joined, str_eq, string_of};

verus! {

/// What `str::to_uppercase` gives for a string.
pub uninterp spec fn upper_of(s: Seq<char>) -> Seq<char>;

/// What `char::is_alphabetic` gives for a character.
pub uninterp spec fn alphabetic(c: char) -> bool;

/// What `char::is_alphanumeric` gives for a character.
pub uninterp spec fn alphanumeric(c: char) -> bool;

/// Relies on `str::to_uppercase`.
#[verifier::external_body]
pub(crate) fn to_upper(s: &str) -> (r: String)
    ensures
        r@ == upper_of(s@),
{
    s.to_uppercase()
}

/// Relies on `char::is_alphabetic`.
#[verifier::external_body]
fn is_alphabetic(c: char) -> (r: bool)
    ensures
        r == alphabetic(c),
{
    c.is_alphabetic()
}

/// Relies on `char::is_alphanumeric`.
#[verifier::external_body]
fn is_alphanumeric(c: char) -> (r: bool)
    ensures
        r == alphanumeric(c),
{
    c.is_alphanumeric()
}

/// The method names a route may list, in upper case.
pub open spec fn is_method_name(u: Seq<char>) -> bool {
    ||| u == "GET"@
    ||| u == "POST"@
    ||| u == "PUT"@
    ||| u == "DELETE"@
    ||| u == "PATCH"@
    ||| u == "HEAD"@
    ||| u == "OPTIONS"@
    ||| u == "*"@
}

/// The problem with a route path, if any.
pub open spec fn path_problem(p: Seq<char>) -> Option<Seq<char>> {
    if p.len() == 0 {
        Some("path cannot be empty"@)
    } else if p[0] != '/' && p != "*"@ {
        Some("path must start with '/' or be '*' (did you mean '/"@ + p + "'?)"@)
    } else {
        None
    }
}

/// The problem with a method name, if any.
pub open spec fn method_problem(m: Seq<char>) -> Option<Seq<char>> {
    if is_method_name(upper_of(m)) {
        None
    } else {
        Some("'"@ + m + "' is not a valid HTTP method"@)
    }
}

/// A URL with each `:name` placeholder replaced by `_p`; `skipping` holds
/// while the rest of a placeholder name is being dropped.
pub open spec fn placeholders_filled(s: Seq<char>, skipping: bool) -> Seq<char>
    decreases s.len(),
{
    if s.len() == 0 {
        s
    } else if skipping && (alphanumeric(s[0]) || s[0] == '_') {
        placeholders_filled(s.drop_first(), true)
    } else if s[0] == ':' && s.len() > 1 && (alphabetic(s[1]) || s[1] == '_') {
        "_p"@ + placeholders_filled(s.drop_first(), true)
    } else {
        seq![s[0]] + placeholders_filled(s.drop_first(), false)
    }
}

/// The problem with a target URL, if any: it must parse once its
/// placeholders are filled, with scheme `http` or `https`.
pub open spec fn url_problem(url: Seq<char>) -> Option<Seq<char>> {
    match url_parse_of(placeholders_filled(url, false)) {
        Some(parts) => scheme_problem(parts.0),
        None => Some("'"@ + url + "' is not a valid URL"@),
    }
}

/// An error of a route.
pub open spec fn error_of(route: Seq<char>, field: Seq<char>, message: Seq<char>) -> ErrorView {
    (route, field, message, None)
}

/// An error of the root of the configuration.
pub open spec fn root_error(field: Seq<char>, message: Seq<char>) -> ErrorView {
    error_of("(root)"@, field, message)
}

/// The errors of the operational credentials: both or neither must be set,
/// and neither may be empty.
pub open spec fn auth_errors(a: ActuatorAuth) -> Seq<ErrorView> {
    match (a.username, a.password) {
        (Some(u), Some(p)) => (if u@.len() == 0 {
            seq![
                root_error(
                    "actuator.auth.username"@,
                    "username cannot be empty when auth is configured"@,
                ),
            ]
        } else {
            Seq::empty()
        }) + (if p@.len() == 0 {
            seq![
                root_error(
                    "actuator.auth.password"@,
                    "password cannot be empty when auth is configured"@,
                ),
            ]
        } else {
            Seq::empty()
        }),
        (Some(_), None) => seq![
            root_error("actuator.auth.password"@, "password is required when username is set"@),
        ],
        (None, Some(_)) => seq![
            root_error("actuator.auth.username"@, "username is required when password is set"@),
        ],
        (None, None) => Seq::empty(),
    }
}

/// How a route is named in its errors.
pub open spec fn route_id(p: Seq<char>, i: int) -> Seq<char> {
    if p.len() == 0 {
        "routes["@ + decimal(i as nat) + "]"@
    } else {
        p
    }
}

/// The errors of a route's path.
pub open spec fn path_errors(id: Seq<char>, p: Seq<char>) -> Seq<ErrorView> {
    match path_problem(p) {
        Some(m) => seq![
            (
                id,
                "path"@,
                m,
                if p.len() > 0 && p[0] != '/' {
                    Some("did you mean '/"@ + p + "'?"@)
                } else {
                    None
                },
            ),
        ],
        None => Seq::empty(),
    }
}

/// Whether route `i` repeats the path of an earlier route.
pub open spec fn repeats_path(routes: Seq<Route>, i: int) -> bool {
    exists|j: int| 0 <= j < i && routes[j].path@ == routes[i].path@
}

/// The errors of the first `k` methods of a route.
pub open spec fn method_errors(id: Seq<char>, methods: Seq<String>, k: int) -> Seq<ErrorView>
    decreases k,
{
    if k <= 0 {
        Seq::empty()
    } else {
        method_errors(id, methods, k - 1) + match method_problem(methods[k - 1]@) {
            Some(m) => seq![error_of(id, "methods"@, m)],
            None => Seq::empty(),
        }
    }
}

/// The number of primary targets among the first `k`.
pub open spec fn primaries(targets: Seq<Target>, k: int) -> nat
    decreases k,
{
    if k <= 0 {
        0
    } else {
        primaries(targets, k - 1) + if targets[k - 1].primary {
            1nat
        } else {
            0nat
        }
    }
}

/// The errors of the first `k` target URLs of a route.
pub open spec fn url_errors(id: Seq<char>, targets: Seq<Target>, k: int) -> Seq<ErrorView>
    decreases k,
{
    if k <= 0 {
        Seq::empty()
    } else {
        url_errors(id, targets, k - 1) + match url_problem(targets[k - 1].url@) {
            Some(m) => seq![error_of(id, "targets.url"@, m)],
            None => Seq::empty(),
        }
    }
}

/// The errors of route `i`, in the order in which they are reported.
pub open spec fn route_errors(routes: Seq<Route>, i: int) -> Seq<ErrorView> {
    let r = routes[i];
    let id = route_id(r.path@, i);
    let n = primaries(r.targets@, r.targets@.len() as int);
    path_errors(id, r.path@) + (if repeats_path(routes, i) {
        seq![error_of(id, "path"@, "duplicate route path"@)]
    } else {
        Seq::empty()
    }) + method_errors(id, r.methods@, r.methods@.len() as int) + (if r.targets@.len() == 0 {
        seq![error_of(id, "targets"@, "at least one target must be defined"@)]
    } else {
        Seq::empty()
    }) + (if n > 1 {
        seq![
            error_of(id, "targets"@, decimal(n) + " targets marked as primary, at most 1 allowed"@),
        ]
    } else {
        Seq::empty()
    }) + url_errors(id, r.targets@, r.targets@.len() as int)
}

/// The errors of the first `n` routes.
pub open spec fn routes_errors(routes: Seq<Route>, n: int) -> Seq<ErrorView>
    decreases n,
{
    if n <= 0 {
        Seq::empty()
    } else {
        routes_errors(routes, n - 1) + route_errors(routes, n - 1)
    }
}

/// All errors of a configuration, in the order in which they are reported.
pub open spec fn validation_errors(c: Config) -> Seq<ErrorView> {
    auth_errors(c.actuator.auth) + if c.routes@.len() == 0 {
        seq![root_error("routes"@, "at least one route must be defined"@)]
    } else {
        routes_errors(c.routes@, c.routes@.len() as int)
    }
}

/// Checks a route path: it must be non-empty and start with `/` or be `*`.
pub fn validate_path(path: &str) -> (r: Result<(), String>)
    ensures
        r is Ok <==> path_problem(path@) is None,
        r matches Err(m) ==> path_problem(path@) == Some(m@),
{
    let p = chars_of(path);
    if p.len() == 0 {
        return Err(String::from_str("path cannot be empty"));
    }
    let is_star = p.len() == 1 && p[0] == '*';
    proof {
        reveal_strlit("*");
        if is_star {
            assert(path@ =~= "*"@);
        }
    }
    if p[0] != '/' && !is_star {
        let mut m = String::from_str("path must start with '/' or be '*' (did you mean '/");
        m.append(path);
        m.append("'?)");
        return Err(m);
    }
    Ok(())
}

/// Whether an upper-case name is a known method or `*`.
pub fn is_known_method(u: &str) -> (r: bool)
    ensures
        r == is_method_name(u@),
{
    str_eq(u, "GET") || str_eq(u, "POST") || str_eq(u, "PUT") || str_eq(u, "DELETE") || str_eq(
        u,
        "PATCH",
    ) || str_eq(u, "HEAD") || str_eq(u, "OPTIONS") || str_eq(u, "*")
}

/// The problem with the scheme of a parsed target URL, if any.
pub open spec fn scheme_problem(scheme: Seq<char>) -> Option<Seq<char>> {
    if scheme != "http"@ && scheme != "https"@ {
        Some("unsupported scheme '"@ + scheme + "' (expected http or https)"@)
    } else {
        None
    }
}

/// Checks the scheme of a parsed target URL: `http` or `https`.
pub fn check_scheme(scheme: &str) -> (r: Result<(), String>)
    ensures
        r is Ok <==> scheme_problem(scheme@) is None,
        r matches Err(m) ==> scheme_problem(scheme@) == Some(m@),
{
    if !str_eq(scheme, "http") && !str_eq(scheme, "https") {
        let mut m = String::from_str("unsupported scheme '");
        m.append(scheme);
        m.append("' (expected http or https)");
        Err(m)
    } else {
        Ok(())
    }
}

/// Checks a method name: once upper-cased it must be a known method or `*`.
pub fn validate_method(method: &str) -> (r: Result<(), String>)
    ensures
        r is Ok <==> method_problem(method@) is None,
        r matches Err(m) ==> method_problem(method@) == Some(m@),
{
    let upper = to_upper(method);
    if is_known_method(upper.as_str()) {
        Ok(())
    } else {
        let mut m = String::from_str("'");
        m.append(method);
        m.append("' is not a valid HTTP method");
        Err(m)
    }
}

/// Replaces each `:name` placeholder of a URL by `_p`, so that the URL can
/// be parsed.
pub fn replace_params_for_validation(url: &str) -> (r: String)
    ensures
        r@ == placeholders_filled(url@, false),
{
    let s = chars_of(url);
    let mut out: Vec<char> = Vec::new();
    let mut skipping = false;
    let mut i: usize = 0;
    assert(s@.subrange(0, s@.len() as int) =~= s@);
    assert(Seq::<char>::empty() + placeholders_filled(url@, false) =~= placeholders_filled(url@, false));
    while i < s.len()
        invariant
            i <= s@.len(),
            s@ == url@,
            out@ + placeholders_filled(s@.subrange(i as int, s@.len() as int), skipping)
                == placeholders_filled(url@, false),
        decreases s@.len() - i,
    {
        let ghost rest = s@.subrange(i as int, s@.len() as int);
        let ghost before = out@;
        assert(rest.drop_first() =~= s@.subrange(i + 1, s@.len() as int));
        let c = s[i];
        if skipping && (is_alphanumeric(c) || c == '_') {
        } else if c == ':' && i + 1 < s.len() && (is_alphabetic(s[i + 1]) || s[i + 1] == '_') {
            out.push('_');
            out.push('p');
            skipping = true;
            proof {
                reveal_strlit("_p");
                assert(before + ("_p"@ + placeholders_filled(rest.drop_first(), true))
                    =~= out@ + placeholders_filled(rest.drop_first(), true));
            }
        } else {
            out.push(c);
            skipping = false;
            assert(before + (seq![c] + placeholders_filled(rest.drop_first(), false))
                =~= out@ + placeholders_filled(rest.drop_first(), false));
        }
        i = i + 1;
    }
    assert(out@ + Seq::<char>::empty() =~= out@);
    string_of(&out)
}

/// Checks a target URL: once its placeholders are filled it must parse, with
/// scheme `http` or `https`.
pub fn validate_target_url(url: &str) -> (r: Result<(), String>)
    ensures
        r is Ok <==> url_problem(url@) is None,
        r matches Err(m) ==> url_problem(url@) == Some(m@),
{
    let test_url = replace_params_for_validation(url);
    match TargetUrl::parse(test_url.as_str()) {
        Some(parsed) => check_scheme(parsed.scheme.as_str()),
        None => {
            let mut m = String::from_str("'");
            m.append(url);
            m.append("' is not a valid URL");
            Err(m)
        },
    }
}

fn push_error(
    errors: &mut Vec<ValidationError>,
    route: String,
    field: &str,
    message: String,
    suggestion: Option<String>,
)
    ensures
        error_views(final(errors)@) == error_views(old(errors)@).push(
            (route@, field@, message@, crate::target_url::opt_view(suggestion)),
        ),
{
    errors.push(
        ValidationError { route, field: String::from_str(field), message, suggestion },
    );
    assert(error_views(errors@) =~= error_views(old(errors)@).push(
        (route@, field@, message@, crate::target_url::opt_view(suggestion)),
    ));
}

fn check_auth(auth: &ActuatorAuth, errors: &mut Vec<ValidationError>)
    ensures
        error_views(final(errors)@) == error_views(old(errors)@) + auth_errors(*auth),
{
    let ghost start = error_views(errors@);
    match (&auth.username, &auth.password) {
        (Some(u), Some(p)) => {
            if u.as_str().unicode_len() == 0 {
                push_error(
                    errors,
                    String::from_str("(root)"),
                    "actuator.auth.username",
                    String::from_str("username cannot be empty when auth is configured"),
                    None,
                );
            }
            if p.as_str().unicode_len() == 0 {
                push_error(
                    errors,
                    String::from_str("(root)"),
                    "actuator.auth.password",
                    String::from_str("password cannot be empty when auth is configured"),
                    None,
                );
            }
            assert(error_views(errors@) =~= start + auth_errors(*auth));
        },
        (Some(_), None) => {
            push_error(
                errors,
                String::from_str("(root)"),
                "actuator.auth.password",
                String::from_str("password is required when username is set"),
                None,
            );
            assert(error_views(errors@) =~= start + auth_errors(*auth));
        },
        (None, Some(_)) => {
            push_error(
                errors,
                String::from_str("(root)"),
                "actuator.auth.username",
                String::from_str("username is required when password is set"),
                None,
            );
            assert(error_views(errors@) =~= start + auth_errors(*auth));
        },
        (None, None) => {
            assert(error_views(errors@) =~= start + auth_errors(*auth));
        },
    }
}

proof fn lemma_no_route_errors(routes: Seq<Route>, n: int, i: int)
    requires
        0 <= i < n,
        routes_errors(routes, n).len() == 0,
    ensures
        route_errors(routes, i).len() == 0,
    decreases n,
{
    if i < n - 1 {
        lemma_no_route_errors(routes, n - 1, i);
    }
}

proof fn lemma_no_url_errors(id: Seq<char>, targets: Seq<Target>, n: int, k: int)
    requires
        0 <= k < n,
        url_errors(id, targets, n).len() == 0,
    ensures
        url_problem(targets[k].url@) is None,
    decreases n,
{
    if k < n - 1 {
        lemma_no_url_errors(id, targets, n - 1, k);
    }
}

/// In a configuration that passes validation, every target URL parses once
/// each of its placeholders is filled with a parameter value (`_p`), and
/// its scheme is `http` or `https`.
pub proof fn lemma_valid_config_urls_parse(c: Config, i: int, k: int)
    requires
        validation_errors(c).len() == 0,
        0 <= i < c.routes@.len(),
        0 <= k < c.routes@[i].targets@.len(),
    ensures
        url_parse_of(placeholders_filled(c.routes@[i].targets@[k].url@, false)) matches Some(
            parts,
        ) && (parts.0 == "http"@ || parts.0 == "https"@),
{
    let routes = c.routes@;
    lemma_no_route_errors(routes, routes.len() as int, i);
    let r = routes[i];
    let id = route_id(r.path@, i);
    lemma_no_url_errors(id, r.targets@, r.targets@.len() as int, k);
}

fn route_label(path: &String, i: usize) -> (r: String)
    ensures
        r@ == route_id(path@, i as int),
{
    if path.as_str().unicode_len() == 0 {
        let mut s = String::from_str("routes[");
        let n = decimal_string(i as u64);
        s.append(n.as_str());
        s.append("]");
        s
    } else {
        path.clone()
    }
}

fn check_methods(id: &String, methods: &Vec<String>, errors: &mut Vec<ValidationError>)
    ensures
        error_views(final(errors)@) == error_views(old(errors)@) + method_errors(
            id@,
            methods@,
            methods@.len() as int,
        ),
{
    let ghost start = error_views(errors@);
    let mut k: usize = 0;
    while k < methods.len()
        invariant
            k <= methods@.len(),
            error_views(errors@) == start + method_errors(id@, methods@, k as int),
        decreases methods@.len() - k,
    {
        match validate_method(methods[k].as_str()) {
            Err(msg) => {
                push_error(errors, id.clone(), "methods", msg, None);
            },
            Ok(()) => {},
        }
        assert(error_views(errors@) =~= start + method_errors(id@, methods@, k + 1));
        k = k + 1;
    }
}

fn check_urls(id: &String, targets: &Vec<Target>, errors: &mut Vec<ValidationError>)
    ensures
        error_views(final(errors)@) == error_views(old(errors)@) + url_errors(
            id@,
            targets@,
            targets@.len() as int,
        ),
{
    let ghost start = error_views(errors@);
    let mut k: usize = 0;
    while k < targets.len()
        invariant
            k <= targets@.len(),
            error_views(errors@) == start + url_errors(id@, targets@, k as int),
        decreases targets@.len() - k,
    {
        match validate_target_url(targets[k].url.as_str()) {
            Err(msg) => {
                push_error(errors, id.clone(), "targets.url", msg, None);
            },
            Ok(()) => {},
        }
        assert(error_views(errors@) =~= start + url_errors(id@, targets@, k + 1));
        k = k + 1;
    }
}

fn count_primaries(targets: &Vec<Target>) -> (r: usize)
    ensures
        r == primaries(targets@, targets@.len() as int),
{
    let mut n: usize = 0;
    let mut k: usize = 0;
    while k < targets.len()
        invariant
            k <= targets@.len(),
            n == primaries(targets@, k as int),
            n <= k,
        decreases targets@.len() - k,
    {
        if targets[k].primary {
            n = n + 1;
        }
        k = k + 1;
    }
    n
}

fn has_earlier_path(routes: &Vec<Route>, i: usize) -> (r: bool)
    requires
        i < routes@.len(),
    ensures
        r == repeats_path(routes@, i as int),
{
    let mut j: usize = 0;
    while j < i
        invariant
            i < routes@.len(),
            j <= i,
            forall|k: int| 0 <= k < j ==> routes@[k].path@ != routes@[i as int].path@,
        decreases i - j,
    {
        if str_eq(routes[j].path.as_str(), routes[i].path.as_str()) {
            return true;
        }
        j = j + 1;
    }
    false
}

fn check_path(id: &String, path: &String, errors: &mut Vec<ValidationError>)
    ensures
        error_views(final(errors)@) == error_views(old(errors)@) + path_errors(id@, path@),
{
    match validate_path(path.as_str()) {
        Err(msg) => {
            let pc = chars_of(path.as_str());
            let suggestion = if pc.len() > 0 && pc[0] != '/' {
                let mut s = String::from_str("did you mean '/");
                s.append(path.as_str());
                s.append("'?");
                Some(s)
            } else {
                None
            };
            push_error(errors, id.clone(), "path", msg, suggestion);
            assert(error_views(errors@) =~= error_views(old(errors)@) + path_errors(id@, path@));
        },
        Ok(()) => {
            assert(error_views(errors@) =~= error_views(old(errors)@) + path_errors(id@, path@));
        },
    }
}

/// The errors of a route that concern its targets' number.
pub open spec fn target_count_errors(id: Seq<char>, targets: Seq<Target>) -> Seq<ErrorView> {
    let n = primaries(targets, targets.len() as int);
    (if targets.len() == 0 {
        seq![error_of(id, "targets"@, "at least one target must be defined"@)]
    } else {
        Seq::empty()
    }) + (if n > 1 {
        seq![
            error_of(id, "targets"@, decimal(n) + " targets marked as primary, at most 1 allowed"@),
        ]
    } else {
        Seq::empty()
    })
}

fn check_target_count(id: &String, targets: &Vec<Target>, errors: &mut Vec<ValidationError>)
    ensures
        error_views(final(errors)@) == error_views(old(errors)@) + target_count_errors(
            id@,
            targets@,
        ),
{
    if targets.len() == 0 {
        push_error(
            errors,
            id.clone(),
            "targets",
            String::from_str("at least one target must be defined"),
            None,
        );
    }
    let n = count_primaries(targets);
    if n > 1 {
        let mut m = decimal_string(n as u64);
        m.append(" targets marked as primary, at most 1 allowed");
        push_error(errors, id.clone(), "targets", m, None);
    }
    assert(error_views(errors@) =~= error_views(old(errors)@) + target_count_errors(id@, targets@));
}

fn check_duplicate(
    routes: &Vec<Route>,
    i: usize,
    id: &String,
    errors: &mut Vec<ValidationError>,
)
    requires
        i < routes@.len(),
    ensures
        error_views(final(errors)@) == error_views(old(errors)@) + (if repeats_path(
            routes@,
            i as int,
        ) {
            seq![error_of(id@, "path"@, "duplicate route path"@)]
        } else {
            Seq::empty()
        }),
{
    if has_earlier_path(routes, i) {
        push_error(errors, id.clone(), "path", String::from_str("duplicate route path"), None);
        assert(error_views(errors@) =~= error_views(old(errors)@) + seq![
            error_of(id@, "path"@, "duplicate route path"@),
        ]);
    } else {
        assert(error_views(errors@) =~= error_views(old(errors)@) + Seq::<ErrorView>::empty());
    }
}

#[verifier::rlimit(60)]
fn check_route(routes: &Vec<Route>, i: usize, errors: &mut Vec<ValidationError>)
    requires
        i < routes@.len(),
    ensures
        error_views(final(errors)@) == error_views(old(errors)@) + route_errors(routes@, i as int),
{
    let ghost start = error_views(errors@);
    let route = &routes[i];
    let id = route_label(&route.path, i);
    check_path(&id, &route.path, errors);
    check_duplicate(routes, i, &id, errors);
    check_methods(&id, &route.methods, errors);
    check_target_count(&id, &route.targets, errors);
    check_urls(&id, &route.targets, errors);
    let ghost e = error_views(errors@);
    assert(route_errors(routes@, i as int) =~= path_errors(id@, route.path@) + (if repeats_path(
        routes@,
        i as int,
    ) {
        seq![error_of(id@, "path"@, "duplicate route path"@)]
    } else {
        Seq::empty()
    }) + method_errors(id@, route.methods@, route.methods@.len() as int) + target_count_errors(
        id@,
        route.targets@,
    ) + url_errors(id@, route.targets@, route.targets@.len() as int));
    assert(e =~= start + route_errors(routes@, i as int));
}

/// Validates a configuration: every structural problem is reported, in
/// order; the configuration is accepted when there is none.
pub fn validate(config: &Config) -> (r: Result<(), Vec<ValidationError>>)
    ensures
        r is Ok <==> validation_errors(*config).len() == 0,
        r matches Err(es) ==> error_views(es@) == validation_errors(*config),
{
    let mut errors: Vec<ValidationError> = Vec::new();
    assert(error_views(errors@) =~= Seq::<ErrorView>::empty());
    check_auth(&config.actuator.auth, &mut errors);
    let ghost auth = error_views(errors@);
    assert(auth =~= auth_errors(config.actuator.auth));
    if config.routes.len() == 0 {
        push_error(
            &mut errors,
            String::from_str("(root)"),
            "routes",
            String::from_str("at least one route must be defined"),
            None,
        );
        assert(error_views(errors@) =~= validation_errors(*config));
        return Err(errors);
    }
    let mut i: usize = 0;
    while i < config.routes.len()
        invariant
            i <= config.routes@.len(),
            auth == auth_errors(config.actuator.auth),
            error_views(errors@) == auth + routes_errors(config.routes@, i as int),
        decreases config.routes@.len() - i,
    {
        check_route(&config.routes, i, &mut errors);
        assert(error_views(errors@) =~= auth + routes_errors(config.routes@, i + 1));
        i = i + 1;
    }
    assert(error_views(errors@) == validation_errors(*config));
    if errors.len() == 0 {
        Ok(())
    } else {
        Err(errors)
    }
}

/// The URL of a route's primary target, or `none` where it has no target.
pub open spec fn primary_url(targets: Seq<Target>) -> Seq<char> {
    if targets.len() == 0 {
        "none"@
    } else {
        targets[primary_index(targets)].url@
    }
}

/// The lines that describe a route in a validation report.
pub open spec fn route_report(r: Route, default_timeout: u64) -> Seq<Seq<char>> {
    seq![
        "  "@ + r.path@ + "  -> "@ + decimal(r.targets@.len()) + " targets (primary: "@
            + primary_url(r.targets@) + ")"@,
        "    methods: "@ + joined(r.methods@, ", "@, r.methods@.len() as int),
        "    timeout: "@ + match r.timeout {
            Some(t) => decimal(t as nat) + "ms"@,
            None => decimal(default_timeout as nat) + "ms (default)"@,
        },
    ]
}

/// The lines of the first `n` routes of a validation report.
pub open spec fn routes_report(routes: Seq<Route>, default_timeout: u64, n: int) -> Seq<Seq<char>>
    decreases n,
{
    if n <= 0 {
        Seq::empty()
    } else {
        routes_report(routes, default_timeout, n - 1) + route_report(routes[n - 1], default_timeout)
    }
}

/// The lines `ls` joined by newlines.
pub open spec fn lines_text(ls: Seq<Seq<char>>, k: int) -> Seq<char>
    decreases k,
{
    if k <= 0 {
        Seq::empty()
    } else if k == 1 {
        ls[0]
    } else {
        lines_text(ls, k - 1) + "\n"@ + ls[k - 1]
    }
}

/// The report of a valid configuration read from `path`.
pub open spec fn validation_report(path: Seq<char>, c: Config) -> Seq<char> {
    let ls = seq![
        "  "@ + decimal(c.routes@.len()) + " routes, "@ + decimal(c.spec_total_targets() as nat)
            + " targets\n"@,
    ] + routes_report(c.routes@, c.defaults.timeout, c.routes@.len() as int);
    path + " is valid\n"@ + lines_text(ls, ls.len() as int)
}

fn report_route(route: &Route, default_timeout: u64) -> (r: Vec<String>)
    ensures
        r@.map_values(|s: String| s@) == route_report(*route, default_timeout),
{
    let mut first = String::from_str("  ");
    first.append(route.path.as_str());
    first.append("  -> ");
    first.append(decimal_string(route.targets.len() as u64).as_str());
    first.append(" targets (primary: ");
    if route.targets.len() == 0 {
        first.append("none");
    } else {
        let p = select_primary(&route.targets);
        first.append(route.targets[p].url.as_str());
    }
    first.append(")");
    let mut second = String::from_str("    methods: ");
    second.append(join_strings(&route.methods, ", ").as_str());
    let mut third = String::from_str("    timeout: ");
    match route.timeout {
        Some(t) => {
            third.append(decimal_string(t).as_str());
            third.append("ms");
        },
        None => {
            third.append(decimal_string(default_timeout).as_str());
            third.append("ms (default)");
        },
    }
    let ghost want = route_report(*route, default_timeout);
    assert(first@ == want[0]);
    assert(second@ == want[1]);
    assert(third@ == want[2]);
    let mut v: Vec<String> = Vec::new();
    v.push(first);
    v.push(second);
    v.push(third);
    assert(v@.map_values(|s: String| s@) =~= route_report(*route, default_timeout));
    v
}

/// Describes a valid configuration: the number of routes and targets, then
/// for each route its primary target, methods and timeout.
pub fn format_validation_report(path: &str, config: &Config) -> (r: String)
    requires
        config.spec_total_targets() <= usize::MAX,
    ensures
        r@ == validation_report(path@, *config),
{
    let total = config.total_targets();
    let mut head = String::from_str("  ");
    head.append(decimal_string(config.routes.len() as u64).as_str());
    head.append(" routes, ");
    head.append(decimal_string(total as u64).as_str());
    head.append(" targets\n");
    let mut lines: Vec<String> = Vec::new();
    lines.push(head);
    let ghost first = lines@.map_values(|s: String| s@);
    let mut i: usize = 0;
    while i < config.routes.len()
        invariant
            i <= config.routes@.len(),
            lines@.map_values(|s: String| s@) == first + routes_report(
                config.routes@,
                config.defaults.timeout,
                i as int,
            ),
        decreases config.routes@.len() - i,
    {
        let part = report_route(&config.routes[i], config.defaults.timeout);
        let ghost before = lines@;
        let mut k: usize = 0;
        while k < part.len()
            invariant
                k <= part@.len(),
                lines@.map_values(|s: String| s@) == before.map_values(|s: String| s@)
                    + part@.map_values(|s: String| s@).subrange(0, k as int),
            decreases part@.len() - k,
        {
            let item = part[k].clone();
            let ghost prev = lines@;
            lines.push(item);
            assert(lines@.map_values(|s: String| s@) =~= prev.map_values(|s: String| s@).push(
                item@,
            ));
            assert(part@.map_values(|s: String| s@).subrange(0, k + 1) =~= part@.map_values(
                |s: String| s@,
            ).subrange(0, k as int).push(item@));
            k = k + 1;
            assert(lines@.map_values(|s: String| s@) =~= before.map_values(|s: String| s@)
                + part@.map_values(|s: String| s@).subrange(0, k as int));
        }
        assert(part@.map_values(|s: String| s@).subrange(0, part@.len() as int) =~= part@.map_values(
            |s: String| s@,
        ));
        assert(first + routes_report(config.routes@, config.defaults.timeout, i + 1) =~= first
            + routes_report(config.routes@, config.defaults.timeout, i as int) + route_report(
            config.routes@[i as int],
            config.defaults.timeout,
        ));
        i = i + 1;
    }
    let ghost ls = seq![
        "  "@ + decimal(config.routes@.len()) + " routes, "@ + decimal(
            config.spec_total_targets() as nat,
        ) + " targets\n"@,
    ] + routes_report(config.routes@, config.defaults.timeout, config.routes@.len() as int);
    assert(first =~= seq![head@]);
    assert(lines@.map_values(|s: String| s@) == ls);
    let body = join_strings(&lines, "\n");
    proof {
        lemma_lines_text(lines@, lines@.len() as int);
    }
    assert(body@ == lines_text(ls, ls.len() as int));
    let mut out = String::from_str(path);
    out.append(" is valid\n");
    out.append(body.as_str());
    out
}

proof fn lemma_lines_text(items: Seq<String>, k: int)
    requires
        0 <= k <= items.len(),
    ensures
        joined(items, "\n"@, k) == lines_text(items.map_values(|s: String| s@), k),
    decreases k,
{
    if k > 1 {
        lemma_lines_text(items, k - 1);
    }
}

} // verus!
