use switchboard::fanout::{
    effective_timeout, plan_fan_out, primary_response, select_primary, substitute_params,
    target_result, DispatchOutcome,
};
use switchboard::header_list::HeaderList;
use switchboard::model::{Defaults, HeaderRules, Route, Target};
use switchboard::params::Params;
use switchboard::proxy::{finish_request, Reply, Stats};

fn target(url: &str, primary: bool, timeout: Option<u64>) -> Target {
    Target { url: url.into(), primary, timeout }
}

fn route_of(targets: Vec<Target>) -> Route {
    Route {
        path: "/users/:uid".into(),
        methods: vec!["*".into()],
        timeout: None,
        headers: HeaderRules::default(),
        targets,
    }
}

#[test]
fn substitute_single_param() {
    let mut params = Params::new();
    params.insert("id".into(), "42".into());
    assert_eq!(
        substitute_params("http://host/orders/:id", &params),
        "http://host/orders/42"
    );
}

#[test]
fn substitute_multiple_params() {
    let mut params = Params::new();
    params.insert("user_id".into(), "1".into());
    params.insert("order_id".into(), "2".into());
    assert_eq!(
        substitute_params("http://host/users/:user_id/orders/:order_id", &params),
        "http://host/users/1/orders/2"
    );
}

#[test]
fn no_params() {
    let params = Params::new();
    assert_eq!(
        substitute_params("http://host/orders", &params),
        "http://host/orders"
    );
}

#[test]
fn longer_param_names_replaced_first() {
    let mut params = Params::new();
    params.insert("id".into(), "short".into());
    params.insert("item_id".into(), "long".into());
    assert_eq!(
        substitute_params("http://host/:item_id/:id", &params),
        "http://host/long/short"
    );
}

#[test]
fn placeholder_in_target_url_is_substituted() {
    let mut params = Params::new();
    params.insert("uid".into(), "abc".into());
    assert_eq!(substitute_params("http://t:80/u/:uid", &params), "http://t:80/u/abc");
}

#[test]
fn params_rebind_in_place() {
    let mut params = Params::new();
    params.insert("a".into(), "1".into());
    params.insert("b".into(), "2".into());
    params.insert("a".into(), "3".into());
    assert_eq!(params.len(), 2);
    assert_eq!(params.get("a").unwrap(), "3");
    assert!(params.get("c").is_none());
}

#[test]
fn primary_is_first_marked_else_first() {
    let ts = vec![target("http://a", false, None), target("http://b", true, None), target("http://c", true, None)];
    assert_eq!(select_primary(&ts), 1);
    let ts = vec![target("http://a", false, None), target("http://b", false, None)];
    assert_eq!(select_primary(&ts), 0);
}

#[test]
fn timeout_precedence() {
    let mut r = route_of(vec![]);
    let d = Defaults::default();
    assert_eq!(effective_timeout(&target("http://a", false, Some(7)), &r, &d), 7);
    assert_eq!(effective_timeout(&target("http://a", false, None), &r, &d), 5000);
    r.timeout = Some(9);
    assert_eq!(effective_timeout(&target("http://a", false, None), &r, &d), 9);
}

#[test]
fn plan_covers_each_parsable_target() {
    let route = route_of(vec![
        target("http://a:80/u/:uid", false, None),
        target("not a url", false, None),
        target("https://b/u/:uid", true, Some(100)),
    ]);
    let mut params = Params::new();
    params.insert("uid".into(), "7".into());
    let mut incoming = HeaderList::new();
    incoming.insert("content-type", "application/json");
    let plan = plan_fan_out(&route, &params, &Defaults::default(), &incoming, "10.0.0.1", "cid");
    assert_eq!(plan.len(), 2);
    assert_eq!(plan[0].index, 0);
    assert_eq!(plan[0].url, "http://a:80/u/7");
    assert!(!plan[0].primary);
    assert_eq!(plan[0].timeout_ms, 5000);
    assert_eq!(plan[0].headers.get("host").unwrap(), "a");
    assert_eq!(plan[1].index, 2);
    assert!(plan[1].primary);
    assert_eq!(plan[1].timeout_ms, 100);
    assert_eq!(plan[1].headers.get("content-type").unwrap(), "application/json");
    assert_eq!(plan[1].headers.get("x-forwarded-proto").unwrap(), "https");
}

#[test]
fn single_target_has_no_secondaries() {
    let route = route_of(vec![target("http://only:80/", false, None)]);
    let plan = plan_fan_out(&route, &Params::new(), &Defaults::default(), &HeaderList::new(), "1.1.1.1", "c");
    assert_eq!(plan.len(), 1);
    assert!(plan.iter().all(|d| d.primary));

    let mut headers = HeaderList::new();
    headers.insert("content-type", "text/plain");
    let body = b"hello".to_vec();
    let p = primary_response(DispatchOutcome::RespondedOk { status: 201, headers, body }).unwrap();
    assert_eq!(p.status, 201);
    assert_eq!(p.body, b"hello".to_vec());
    assert_eq!(p.headers.get("content-type").unwrap(), "text/plain");
}

#[test]
fn secondary_failure_does_not_mask_primary_success() {
    let mut stats = Stats::new();
    let primary = primary_response(DispatchOutcome::RespondedOk {
        status: 200,
        headers: HeaderList::new(),
        body: vec![],
    });
    let secondary = target_result(
        "http://s".into(),
        3,
        &DispatchOutcome::RespondedOk { status: 500, headers: HeaderList::new(), body: vec![] },
    );
    assert_eq!(secondary.status, Some(500));
    let reply = finish_request(&mut stats, primary, "cid");
    match reply {
        Reply::Respond { status, headers, .. } => {
            assert_eq!(status, 200);
            assert_eq!(headers.get("x-correlation-id").unwrap(), "cid");
        }
        Reply::Status(_) => panic!("expected the primary response"),
    }
    assert_eq!(stats.forwarded, 1);
    assert_eq!(stats.failed, 0);
}

#[test]
fn failed_primary_gives_bad_gateway() {
    let mut stats = Stats::new();
    for outcome in [
        DispatchOutcome::TimedOut,
        DispatchOutcome::TransportErr { message: "refused".into() },
        DispatchOutcome::RespondedBodyErr { status: 200, message: "reset".into() },
    ] {
        let reply = finish_request(&mut stats, primary_response(outcome), "cid");
        assert!(matches!(reply, Reply::Status(502)));
    }
    assert_eq!(stats.failed, 3);
    assert_eq!(stats.forwarded, 0);
    assert_eq!(stats.forwarded + stats.failed, 3);
}

#[test]
fn outcomes_are_recorded() {
    let r = target_result("u".into(), 5, &DispatchOutcome::TimedOut);
    assert_eq!(r.error.as_deref(), Some("request timed out"));
    assert_eq!(r.status, None);
    let r = target_result("u".into(), 5, &DispatchOutcome::RespondedBodyErr { status: 502, message: "eof".into() });
    assert_eq!(r.error.as_deref(), Some("body read error: eof"));
    assert_eq!(r.status, Some(502));
    assert_eq!(r.latency_ms, 5);
}
