use switchboard::header_list::HeaderList;
use switchboard::headers::{build_forwarded_headers, strip_response_hop_by_hop};
use switchboard::model::{Defaults, HeaderRules, Route, Target};
use switchboard::target_url::TargetUrl;

fn default_route() -> Route {
    Route {
        path: "/test".into(),
        methods: vec!["*".into()],
        timeout: None,
        headers: HeaderRules::default(),
        targets: vec![Target {
            url: "http://target:8080/test".into(),
            primary: false,
            timeout: None,
        }],
    }
}

fn parse(url: &str) -> TargetUrl {
    TargetUrl::parse(url).unwrap()
}

#[test]
fn strips_hop_by_hop() {
    let mut incoming = HeaderList::new();
    incoming.insert("connection", "keep-alive");
    incoming.insert("content-type", "application/json");

    let target = parse("http://target:8080");
    let result = build_forwarded_headers(
        &incoming,
        "10.0.0.1",
        &target,
        &default_route(),
        &Defaults::default(),
        "test-id",
    );

    assert!(result.get("connection").is_none());
    assert!(result.get("content-type").is_some());
    assert_eq!(result.get("Content-Type").unwrap(), "application/json");
}

#[test]
fn rewrites_host() {
    let incoming = HeaderList::new();
    let target = parse("http://backend:9090/path");
    let result = build_forwarded_headers(
        &incoming,
        "10.0.0.1",
        &target,
        &default_route(),
        &Defaults::default(),
        "test-id",
    );

    assert_eq!(result.get("host").unwrap(), "backend:9090");
}

#[test]
fn default_port_is_left_out_of_host() {
    let incoming = HeaderList::new();
    let target = parse("http://t:80/u/abc");
    let result = build_forwarded_headers(
        &incoming,
        "10.0.0.1",
        &target,
        &default_route(),
        &Defaults::default(),
        "test-id",
    );
    assert_eq!(result.get("host").unwrap(), "t");
    assert_eq!(result.get("x-forwarded-proto").unwrap(), "http");
}

#[test]
fn appends_x_forwarded_for() {
    let mut incoming = HeaderList::new();
    incoming.insert("x-forwarded-for", "1.2.3.4");

    let target = parse("http://target:8080");
    let result = build_forwarded_headers(
        &incoming,
        "10.0.0.1",
        &target,
        &default_route(),
        &Defaults::default(),
        "test-id",
    );

    assert_eq!(result.get("x-forwarded-for").unwrap(), "1.2.3.4, 10.0.0.1");
}

#[test]
fn real_ip_is_first_of_the_chain() {
    let mut incoming = HeaderList::new();
    incoming.insert("X-Forwarded-For", " 1.2.3.4 ");
    incoming.insert("Host", "proxy.example");

    let target = parse("https://target/secure");
    let result = build_forwarded_headers(
        &incoming,
        "10.0.0.1",
        &target,
        &default_route(),
        &Defaults::default(),
        "test-id",
    );

    assert_eq!(result.get("x-forwarded-for").unwrap(), " 1.2.3.4 , 10.0.0.1");
    assert_eq!(result.get("x-real-ip").unwrap(), "1.2.3.4");
    assert_eq!(result.get("x-forwarded-proto").unwrap(), "https");
    assert_eq!(result.get("x-forwarded-host").unwrap(), "proxy.example");
    assert_eq!(result.get("via").unwrap(), "1.1 switchboard");
    assert_eq!(result.get("host").unwrap(), "target");
}

#[test]
fn chained_forwarded_for_and_real_ip() {
    let mut incoming = HeaderList::new();
    incoming.insert("x-forwarded-for", "1.2.3.4");
    let target = parse("http://target:8080");
    let result = build_forwarded_headers(
        &incoming,
        "10.0.0.1",
        &target,
        &default_route(),
        &Defaults::default(),
        "cid",
    );
    assert_eq!(result.get("x-forwarded-for").unwrap(), "1.2.3.4, 10.0.0.1");
    assert_eq!(result.get("x-real-ip").unwrap(), "1.2.3.4");
}

#[test]
fn sets_correlation_id() {
    let incoming = HeaderList::new();
    let target = parse("http://target:8080");
    let result = build_forwarded_headers(
        &incoming,
        "10.0.0.1",
        &target,
        &default_route(),
        &Defaults::default(),
        "my-correlation-id",
    );

    assert_eq!(result.get("x-correlation-id").unwrap(), "my-correlation-id");
}

#[test]
fn applies_route_header_overrides() {
    let incoming = HeaderList::new();
    let target = parse("http://target:8080");
    let mut route = default_route();
    route.headers.add.push(("x-custom".into(), "value".into()));

    let result = build_forwarded_headers(
        &incoming,
        "10.0.0.1",
        &target,
        &route,
        &Defaults::default(),
        "test-id",
    );

    assert_eq!(result.get("x-custom").unwrap(), "value");
}

#[test]
fn route_rules_override_defaults_and_strip_last() {
    let mut incoming = HeaderList::new();
    incoming.insert("x-secret", "s");
    let target = parse("http://target:8080");
    let mut route = default_route();
    let mut defaults = Defaults::default();
    defaults.headers.add.push(("X-Team".into(), "core".into()));
    defaults.headers.add.push(("bad name".into(), "v".into()));
    route.headers.add.push(("x-team".into(), "edge".into()));
    route.headers.strip.push("X-Secret".into());
    defaults.headers.strip.push("via".into());

    let result =
        build_forwarded_headers(&incoming, "10.0.0.1", &target, &route, &defaults, "test-id");
    assert_eq!(result.get("x-team").unwrap(), "edge");
    assert!(result.get("x-secret").is_none());
    assert!(result.get("via").is_none());
    assert!(result.get("bad name").is_none());
}

#[test]
fn switches_off_forwarding_and_proxy_headers() {
    let mut incoming = HeaderList::new();
    incoming.insert("content-type", "text/plain");
    incoming.insert("connection", "close");
    let target = parse("http://target:8080");
    let mut defaults = Defaults::default();
    defaults.forward_headers = false;
    defaults.proxy_headers = false;
    let result =
        build_forwarded_headers(&incoming, "10.0.0.1", &target, &default_route(), &defaults, "c");
    assert!(result.get("content-type").is_none());
    assert!(result.get("x-forwarded-for").is_none());
    assert_eq!(result.len(), 1);
    assert_eq!(result.get("host").unwrap(), "target:8080");

    let mut defaults = Defaults::default();
    defaults.strip_hop_by_hop = false;
    let result =
        build_forwarded_headers(&incoming, "10.0.0.1", &target, &default_route(), &defaults, "c");
    assert_eq!(result.get("connection").unwrap(), "close");
}

#[test]
fn response_loses_hop_by_hop_and_length() {
    let mut headers = HeaderList::new();
    headers.insert("Transfer-Encoding", "chunked");
    headers.insert("content-length", "12");
    headers.insert("content-type", "text/plain");
    headers.add("set-cookie", "a=1");
    headers.add("set-cookie", "b=2");
    strip_response_hop_by_hop(&mut headers);
    assert!(headers.get("transfer-encoding").is_none());
    assert!(headers.get("content-length").is_none());
    assert_eq!(headers.get("content-type").unwrap(), "text/plain");
    assert_eq!(headers.len(), 3);
}

#[test]
fn header_list_rules() {
    let mut h = HeaderList::new();
    assert!(h.insert("X-A", "1"));
    assert!(h.insert("x-a", "2"));
    assert_eq!(h.len(), 1);
    assert_eq!(h.get("X-a").unwrap(), "2");
    assert!(!h.insert("bad name", "v"));
    assert!(!h.insert("x-b", "line\nbreak"));
    assert!(h.insert("x-b", "tab\tok"));
    h.remove("X-A");
    assert!(h.get("x-a").is_none());
    assert_eq!(h.len(), 1);
}

#[test]
fn target_url_parts() {
    let u = TargetUrl::parse("https://example.com:8443/a").unwrap();
    assert_eq!(u.scheme, "https");
    assert_eq!(u.host.as_deref(), Some("example.com"));
    assert_eq!(u.port, Some(8443));
    let d = TargetUrl::parse("https://example.com:443/").unwrap();
    assert_eq!(d.port, None);
    assert!(TargetUrl::parse("not a url").is_none());
}
