//! The configuration model: routes, targets, defaults and header rules.
//!
//! A [`Config`] is plain data; [`crate::validation::validate`] decides
//! whether it is well formed.

use vstd::prelude::*;

verus! {

/// The timeout applied when neither a target nor its route sets one.
pub const DEFAULT_TIMEOUT_MS: u64 = 5000;

/// Header rules applied to every outgoing request of a scope.
#[derive(Debug, Clone)]
pub struct HeaderRules {
    /// Headers set verbatim, by name, in order.
    pub add: Vec<(String, String)>,
    /// Header names removed once the outgoing headers are built.
    pub strip: Vec<String>,
}

/// A downstream target of a route.
#[derive(Debug, Clone)]
pub struct Target {
    pub url: String,
    pub primary: bool,
    pub timeout: Option<u64>,
}

/// A route: a path pattern, the methods it accepts and its targets.
#[derive(Debug, Clone)]
pub struct Route {
    pub path: String,
    pub methods: Vec<String>,
    pub timeout: Option<u64>,
    pub headers: HeaderRules,
    pub targets: Vec<Target>,
}

/// Settings shared by every route.
#[derive(Debug, Clone)]
pub struct Defaults {
    pub timeout: u64,
    pub forward_headers: bool,
    pub proxy_headers: bool,
    pub strip_hop_by_hop: bool,
    pub headers: HeaderRules,
}

/// Credentials guarding the operational endpoints.
#[derive(Debug, Clone)]
pub struct ActuatorAuth {
    pub username: Option<String>,
    pub password: Option<String>,
}

/// Settings of the operational endpoints.
#[derive(Debug, Clone)]
pub struct ActuatorConfig {
    pub enabled: bool,
    pub auth: ActuatorAuth,
}

/// The root of a configuration.
#[derive(Debug, Clone)]
pub struct Config {
    pub actuator: ActuatorConfig,
    pub defaults: Defaults,
    pub routes: Vec<Route>,
}

/// The number of targets over a sequence of routes.
pub open spec fn targets_in(routes: Seq<Route>) -> int
    decreases routes.len(),
{
    if routes.len() == 0 {
        0
    } else {
        targets_in(routes.drop_last()) + routes.last().targets@.len()
    }
}

impl Config {
    /// The number of targets over all routes.
    pub open spec fn spec_total_targets(&self) -> int {
        targets_in(self.routes@)
    }

    /// The number of targets over all routes.
    pub fn total_targets(&self) -> (r: usize)
        requires
            self.spec_total_targets() <= usize::MAX,
        ensures
            r == self.spec_total_targets(),
    {
        let mut sum: usize = 0;
        let mut i: usize = 0;
        while i < self.routes.len()
            invariant
                i <= self.routes@.len(),
                targets_in(self.routes@) <= usize::MAX,
                sum == targets_in(self.routes@.subrange(0, i as int)),
            decreases self.routes@.len() - i,
        {
            proof {
                lemma_targets_in_monotone(self.routes@, i + 1);
                assert(self.routes@.subrange(0, i + 1).drop_last()
                    =~= self.routes@.subrange(0, i as int));
            }
            sum = sum + self.routes[i].targets.len();
            i = i + 1;
        }
        assert(self.routes@.subrange(0, i as int) =~= self.routes@);
        sum
    }
}

/// Counting the targets of a prefix of the routes gives no more than
/// counting all of them.
pub proof fn lemma_targets_in_monotone(routes: Seq<Route>, k: int)
    requires
        0 <= k <= routes.len(),
    ensures
        targets_in(routes.subrange(0, k)) <= targets_in(routes),
    decreases routes.len() - k,
{
    if k < routes.len() {
        lemma_targets_in_monotone(routes, k + 1);
        assert(routes.subrange(0, k + 1).drop_last() =~= routes.subrange(0, k));
    } else {
        assert(routes.subrange(0, k) =~= routes);
    }
}

/// The methods a route accepts when none are given: any.
pub fn default_methods() -> (r: Vec<String>)
    ensures
        r@.len() == 1,
        r@[0]@ == seq!['*'],
{
    let mut v: Vec<String> = Vec::new();
    let star = String::from_str("*");
    proof {
        reveal_strlit("*");
    }
    v.push(star);
    v
}

/// Whether a method list is the default one, `["*"]`.
pub fn is_default_methods(v: &Vec<String>) -> (r: bool)
    ensures
        r == (v@.len() == 1 && v@[0]@ == seq!['*']),
{
    if v.len() != 1 {
        return false;
    }
    let s = v[0].as_str();
    proof {
        reveal_strlit("*");
    }
    if s.unicode_len() != 1 {
        return false;
    }
    let c = s.get_char(0);
    if c == '*' {
        assert(v@[0]@ =~= seq!['*']);
        true
    } else {
        false
    }
}

/// Whether a timeout is the default one.
pub fn is_default_timeout(v: &u64) -> (r: bool)
    ensures
        r == (*v == DEFAULT_TIMEOUT_MS),
{
    *v == DEFAULT_TIMEOUT_MS
}

/// The value a boolean setting takes when omitted.
pub fn default_true() -> (r: bool)
    ensures
        r,
{
    true
}

/// The timeout applied when omitted.
pub fn default_timeout() -> (r: u64)
    ensures
        r == DEFAULT_TIMEOUT_MS,
{
    DEFAULT_TIMEOUT_MS
}

/// Whether a boolean setting holds.
pub fn is_true(v: &bool) -> (r: bool)
    ensures
        r == *v,
{
    *v
}

/// Whether a boolean setting does not hold.
pub fn is_false(v: &bool) -> (r: bool)
    ensures
        r == !*v,
{
    !*v
}

impl HeaderRules {
    /// Header rules that add and strip nothing.
    pub open spec fn spec_is_default(&self) -> bool {
        self.add@.len() == 0 && self.strip@.len() == 0
    }

    /// Whether these rules add and strip nothing.
    pub fn is_default(&self) -> (r: bool)
        ensures
            r == self.spec_is_default(),
    {
        self.add.len() == 0 && self.strip.len() == 0
    }
}

impl Default for HeaderRules {
    fn default() -> (r: Self)
        ensures
            r.spec_is_default(),
    {
        HeaderRules { add: Vec::new(), strip: Vec::new() }
    }
}

impl ActuatorAuth {
    /// Whether no credential is set.
    pub open spec fn spec_is_default(&self) -> bool {
        self.username is None && self.password is None
    }

    /// Whether no credential is set.
    pub fn is_default(&self) -> (r: bool)
        ensures
            r == self.spec_is_default(),
    {
        self.username.is_none() && self.password.is_none()
    }
}

impl Default for ActuatorAuth {
    fn default() -> (r: Self)
        ensures
            r.spec_is_default(),
    {
        ActuatorAuth { username: None, password: None }
    }
}

impl ActuatorConfig {
    /// Disabled and without credentials.
    pub open spec fn spec_is_default(&self) -> bool {
        !self.enabled && self.auth.spec_is_default()
    }
}

impl Default for ActuatorConfig {
    fn default() -> (r: Self)
        ensures
            r.spec_is_default(),
    {
        ActuatorConfig { enabled: false, auth: ActuatorAuth::default() }
    }
}

/// Whether the operational settings are the default ones.
pub fn is_default_actuator(v: &ActuatorConfig) -> (r: bool)
    ensures
        r == v.spec_is_default(),
{
    !v.enabled && v.auth.username.is_none() && v.auth.password.is_none()
}

impl Defaults {
    /// The documented defaults: a 5000 ms timeout, every switch on, no header
    /// rules.
    pub open spec fn spec_is_default(&self) -> bool {
        &&& self.timeout == DEFAULT_TIMEOUT_MS
        &&& self.forward_headers
        &&& self.proxy_headers
        &&& self.strip_hop_by_hop
        &&& self.headers.spec_is_default()
    }
}

impl Default for Defaults {
    fn default() -> (r: Self)
        ensures
            r.spec_is_default(),
    {
        Defaults {
            timeout: default_timeout(),
            forward_headers: default_true(),
            proxy_headers: default_true(),
            strip_hop_by_hop: default_true(),
            headers: HeaderRules::default(),
        }
    }
}

/// Whether the shared settings are the documented defaults.
pub fn is_default_defaults(v: &Defaults) -> (r: bool)
    ensures
        r == v.spec_is_default(),
{
    v.timeout == DEFAULT_TIMEOUT_MS && v.forward_headers && v.proxy_headers && v.strip_hop_by_hop
        && v.headers.is_default()
}

} // verus!
