use switchboard::model::{Defaults, HeaderRules, Route, Target};
use switchboard::routing::match_route;

fn make_route(path: &str, methods: &[&str]) -> Route {
    Route {
        path: path.into(),
        methods: methods.iter().map(|s| (*s).to_string()).collect(),
        timeout: None,
        headers: HeaderRules::default(),
        targets: vec![Target {
            url: "http://localhost:8080".into(),
            primary: false,
            timeout: None,
        }],
    }
}

fn route(path: &str, methods: &[&str]) -> Route {
    make_route(path, methods)
}

#[test]
fn exact_match() {
    let routes = vec![route("/orders", &["*"])];
    let result = match_route(&routes, "/orders", "GET");
    assert!(result.is_some());
    let (idx, params) = result.unwrap();
    assert_eq!(idx, 0);
    assert!(params.is_empty());
}

#[test]
fn parameterized_match() {
    let routes = vec![route("/orders/:id", &["*"])];
    let result = match_route(&routes, "/orders/42", "GET");
    assert!(result.is_some());
    let (idx, params) = result.unwrap();
    assert_eq!(idx, 0);
    assert_eq!(params.get("id").unwrap(), "42");
}

#[test]
fn wildcard_prefix_match() {
    let routes = vec![route("/qa/*", &["*"])];
    let result = match_route(&routes, "/qa/anything/deep", "GET");
    assert!(result.is_some());
    assert_eq!(result.unwrap().0, 0);
}

#[test]
fn catch_all_match() {
    let routes = vec![route("/*", &["*"])];
    let result = match_route(&routes, "/anything/at/all", "POST");
    assert!(result.is_some());
}

#[test]
fn exact_beats_wildcard() {
    let routes = vec![route("/*", &["*"]), route("/orders", &["*"])];
    let result = match_route(&routes, "/orders", "GET");
    assert!(result.is_some());
    assert_eq!(result.unwrap().0, 1);
}

#[test]
fn parameterized_beats_wildcard() {
    let routes = vec![route("/*", &["*"]), route("/orders/:id", &["*"])];
    let result = match_route(&routes, "/orders/42", "GET");
    assert!(result.is_some());
    assert_eq!(result.unwrap().0, 1);
}

#[test]
fn method_filter() {
    let routes = vec![route("/orders", &["POST"])];
    let result = match_route(&routes, "/orders", "GET");
    assert!(result.is_none());

    let result = match_route(&routes, "/orders", "POST");
    assert!(result.is_some());
}

#[test]
fn no_match() {
    let routes = vec![route("/orders", &["*"])];
    let result = match_route(&routes, "/products", "GET");
    assert!(result.is_none());
}

#[test]
fn multi_param() {
    let routes = vec![route("/users/:user_id/orders/:order_id", &["*"])];
    let result = match_route(&routes, "/users/1/orders/2", "GET");
    assert!(result.is_some());
    let (_, params) = result.unwrap();
    assert_eq!(params.get("user_id").unwrap(), "1");
    assert_eq!(params.get("order_id").unwrap(), "2");
}

#[test]
fn specificity_ordering_comprehensive() {
    let routes = vec![
        make_route("/*", &["*"]),
        make_route("/api/*", &["*"]),
        make_route("/api/users/:id", &["*"]),
        make_route("/api/users/me", &["*"]),
    ];

    let (idx, _) = match_route(&routes, "/api/users/me", "GET").unwrap();
    assert_eq!(idx, 3);

    let (idx, params) = match_route(&routes, "/api/users/42", "GET").unwrap();
    assert_eq!(idx, 2);
    assert_eq!(params.get("id").unwrap(), "42");

    let (idx, _) = match_route(&routes, "/api/other/deep/path", "GET").unwrap();
    assert_eq!(idx, 1);

    let (idx, _) = match_route(&routes, "/something/else", "GET").unwrap();
    assert_eq!(idx, 0);
}

#[test]
fn method_filtering_restricts_matches() {
    let routes = vec![
        make_route("/orders", &["GET"]),
        make_route("/orders", &["POST"]),
    ];

    let (idx, _) = match_route(&routes, "/orders", "GET").unwrap();
    assert_eq!(idx, 0);

    let (idx, _) = match_route(&routes, "/orders", "POST").unwrap();
    assert_eq!(idx, 1);

    assert!(match_route(&routes, "/orders", "DELETE").is_none());
}

#[test]
fn wildcard_method_matches_all() {
    let routes = vec![make_route("/api/*", &["*"])];

    assert!(match_route(&routes, "/api/anything", "GET").is_some());
    assert!(match_route(&routes, "/api/anything", "POST").is_some());
    assert!(match_route(&routes, "/api/anything", "DELETE").is_some());
}

#[test]
fn multi_segment_params() {
    let routes = vec![make_route(
        "/users/:user_id/orders/:order_id/items/:item_id",
        &["*"],
    )];

    let (_, params) = match_route(&routes, "/users/1/orders/2/items/3", "GET").unwrap();
    assert_eq!(params.len(), 3);
    assert_eq!(params.get("user_id").unwrap(), "1");
    assert_eq!(params.get("order_id").unwrap(), "2");
    assert_eq!(params.get("item_id").unwrap(), "3");
}

#[test]
fn empty_routes_returns_none() {
    let routes: Vec<Route> = vec![];
    assert!(match_route(&routes, "/anything", "GET").is_none());
}

#[test]
fn defaults_are_sensible() {
    let defaults = Defaults::default();
    assert_eq!(defaults.timeout, 5000);
    assert!(defaults.forward_headers);
    assert!(defaults.proxy_headers);
    assert!(defaults.strip_hop_by_hop);
}

#[test]
fn exact_route_wins_over_catch_all_declared_first() {
    let routes = vec![make_route("/*", &["*"]), make_route("/orders", &["*"])];
    let (idx, params) = match_route(&routes, "/orders", "GET").unwrap();
    assert_eq!(idx, 1);
    assert!(params.is_empty());
}

#[test]
fn parameters_are_captured_by_name() {
    let routes = vec![make_route("/users/:uid/orders/:oid", &["*"])];
    let (idx, params) = match_route(&routes, "/users/7/orders/42", "GET").unwrap();
    assert_eq!(idx, 0);
    assert_eq!(params.len(), 2);
    assert_eq!(params.get("uid").unwrap(), "7");
    assert_eq!(params.get("oid").unwrap(), "42");
}

#[test]
fn equal_scores_pick_the_first_declared() {
    let routes = vec![make_route("/a/:x", &["*"]), make_route("/a/:y", &["*"])];
    let (idx, params) = match_route(&routes, "/a/1", "GET").unwrap();
    assert_eq!(idx, 0);
    assert_eq!(params.get("x").unwrap(), "1");
}

#[test]
fn root_path_and_trailing_slash() {
    let routes = vec![make_route("/", &["*"]), make_route("/orders", &["*"])];
    assert_eq!(match_route(&routes, "/", "GET").unwrap().0, 0);
    assert_eq!(match_route(&routes, "/orders/", "GET").unwrap().0, 1);
    assert_eq!(match_route(&routes, "//orders", "GET").unwrap().0, 1);
}

#[test]
fn method_match_ignores_ascii_case() {
    let routes = vec![make_route("/orders", &["post"])];
    assert!(match_route(&routes, "/orders", "POST").is_some());
    assert!(match_route(&routes, "/orders", "PoSt").is_some());
    assert!(match_route(&routes, "/orders", "GET").is_none());
}

#[test]
fn prefix_wildcard_scores_ten_per_segment() {
    let routes = vec![make_route("/api/*", &["*"]), make_route("/api/v1/*", &["*"])];
    assert_eq!(match_route(&routes, "/api/v1/x", "GET").unwrap().0, 1);
    assert_eq!(match_route(&routes, "/api/v2/x", "GET").unwrap().0, 0);
    assert_eq!(match_route(&routes, "/api", "GET").unwrap().0, 0);
    assert!(match_route(&routes, "/other", "GET").is_none());
}

#[test]
fn less_specific_route_inserted_keeps_match() {
    let mut routes = vec![make_route("/api/users/:id", &["*"])];
    assert_eq!(match_route(&routes, "/api/users/9", "GET").unwrap().0, 0);
    routes.insert(0, make_route("/api/*", &["*"]));
    let (idx, params) = match_route(&routes, "/api/users/9", "GET").unwrap();
    assert_eq!(idx, 1);
    assert_eq!(params.get("id").unwrap(), "9");
}
