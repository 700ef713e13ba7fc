use switchboard::actuator::{base64_decode, basic_auth_ok, counter_metric, is_sensitive, shown_value, Statistic};
use switchboard::model::ActuatorAuth;
use switchboard::proxy::Stats;

#[test]
fn secrets_are_recognised_by_name() {
    assert!(is_sensitive("TEST_SECRET_KEY"));
    assert!(is_sensitive("db_password"));
    assert!(is_sensitive("SENTRY_DSN"));
    assert!(!is_sensitive("HOME"));
    assert_eq!(shown_value("API_TOKEN", "abc".into()), "******");
    assert_eq!(shown_value("PATH", "/bin".into()), "/bin");
}

#[test]
fn base64_decoding() {
    assert_eq!(base64_decode("YWRtaW46c2VjcmV0").unwrap(), "admin:secret");
    assert_eq!(base64_decode("YQ==").unwrap(), "a");
    assert_eq!(base64_decode("YWI=").unwrap(), "ab");
    assert_eq!(base64_decode("").unwrap(), "");
    assert!(base64_decode("Y*==").is_none());
    assert!(base64_decode("/w==").is_none());
}

#[test]
fn basic_auth_rules() {
    let open = ActuatorAuth { username: None, password: None };
    assert!(basic_auth_ok(&open, None));
    let auth = ActuatorAuth { username: Some("admin".into()), password: Some("secret".into()) };
    assert!(basic_auth_ok(&auth, Some("Basic YWRtaW46c2VjcmV0")));
    assert!(!basic_auth_ok(&auth, None));
    assert!(!basic_auth_ok(&auth, Some("Bearer YWRtaW46c2VjcmV0")));
    assert!(!basic_auth_ok(&auth, Some("Basic YWRtaW46d3Jvbmc=")));
}

#[test]
fn counters_by_metric_name() {
    let mut stats = Stats::new();
    stats.record_forwarded();
    stats.record_reload();
    assert_eq!(counter_metric("requests.forwarded", &stats), Some((Statistic::Count, 1)));
    assert_eq!(counter_metric("config.reloads", &stats), Some((Statistic::Count, 1)));
    assert_eq!(counter_metric("requests.active", &stats), Some((Statistic::Value, 0)));
    assert_eq!(counter_metric("unknown.metric", &stats), None);
}
