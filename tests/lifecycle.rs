use switchboard::cli::{resolve_format, LogFormat, LogLevel};
use switchboard::error::SwitchboardError;
use switchboard::header_list::HeaderList;
use switchboard::health::{format_uptime, health_report};
use switchboard::live::{apply_reload, continue_after, should_reload, LiveCell, LoadedConfig, RefreshEvent};
use switchboard::model::{ActuatorConfig, Config, Defaults, HeaderRules, Route, Target};
use switchboard::proxy::{admit_request, correlation_id_for, Admission, Stats};
use switchboard::routing::match_route;
use switchboard::source::{
    after_fallback_load, after_primary_load, has_changed, pair_sources, sha256_hex,
    validate_and_hash, ConfigVersion, ResolverStep,
};

fn config_with(paths: &[&str]) -> Config {
    Config {
        actuator: ActuatorConfig::default(),
        defaults: Defaults::default(),
        routes: paths
            .iter()
            .map(|p| Route {
                path: (*p).into(),
                methods: vec!["*".into()],
                timeout: None,
                headers: HeaderRules::default(),
                targets: vec![Target { url: "http://x:80".into(), primary: false, timeout: None }],
            })
            .collect(),
    }
}

#[test]
fn digest_is_lower_hex_sha256() {
    assert_eq!(
        sha256_hex(b"abc"),
        "ba7816bf8f01cfea414140de5dae2223b00361a396177a9cb410ff61f20015ad"
    );
    let v = ConfigVersion::of_payload("abc");
    assert_eq!(v.short(), "ba7816bf");
}

#[test]
fn unchanged_payload_is_not_a_change() {
    let payload = "routes: []";
    let v1 = ConfigVersion::of_payload(payload);
    let v2 = ConfigVersion::of_payload(payload);
    assert_eq!(v1, v2);
    assert!(!has_changed(&v1, payload));
    assert!(has_changed(&v1, "routes: [1]"));
    assert!(!should_reload(&Ok(false)));
}

#[test]
fn reload_installs_and_counts() {
    let first = validate_and_hash(config_with(&["/a"]), "one").unwrap();
    let mut cell = LiveCell::new(LoadedConfig {
        config: first.0,
        version: first.1,
        source_name: "yaml".into(),
        loaded_at_ms: 0,
    });
    let mut stats = Stats::new();
    assert!(match_route(&cell.snapshot().config.routes, "/b", "GET").is_none());

    assert!(should_reload(&Ok(has_changed(cell.version(), "two"))));
    let loaded = validate_and_hash(config_with(&["/a", "/b"]), "two");
    assert!(apply_reload(&mut cell, &mut stats, loaded, 30_000));
    assert_eq!(stats.config_reloads, 1);
    assert_eq!(*cell.version(), ConfigVersion::of_payload("two"));
    assert_eq!(cell.snapshot().source_name, "yaml");
    assert_eq!(match_route(&cell.snapshot().config.routes, "/b", "GET").unwrap().0, 1);

    let failed = Err(SwitchboardError::Io("down".into()));
    assert!(!apply_reload(&mut cell, &mut stats, failed, 60_000));
    assert_eq!(stats.config_reloads, 1);
    assert_eq!(cell.snapshot().loaded_at_ms, 30_000);
    assert!(!should_reload(&Err(SwitchboardError::Io("x".into()))));
}

#[test]
fn invalid_payload_is_not_versioned() {
    match validate_and_hash(config_with(&[]), "{}") {
        Err(SwitchboardError::ConfigValidation { errors }) => assert_eq!(errors.len(), 1),
        _ => panic!("expected a validation error"),
    }
}

#[test]
fn refresher_exits_on_shutdown() {
    assert!(continue_after(RefreshEvent::Tick));
    assert!(!continue_after(RefreshEvent::Shutdown));
}

#[test]
fn fallback_is_used_and_primary_error_kept() {
    let primary = Err(SwitchboardError::Io("db down".into()));
    let step = after_primary_load(primary, true);
    let err = match step {
        ResolverStep::TryFallback(e) => e,
        ResolverStep::Done(_) => panic!("expected the fallback"),
    };
    let fb = validate_and_hash(config_with(&["/a"]), "p");
    assert!(after_fallback_load(SwitchboardError::Io("db down".into()), fb).is_ok());
    match after_fallback_load(err, Err(SwitchboardError::Io("file gone".into()))) {
        Err(SwitchboardError::Io(m)) => assert_eq!(m, "db down"),
        _ => panic!("expected the primary error"),
    }
    let step = after_primary_load(Err(SwitchboardError::Io("db down".into())), false);
    assert!(matches!(step, ResolverStep::Done(Err(_))));
}

#[test]
fn sources_are_paired() {
    assert_eq!(pair_sources(Some(1), Some(2)).unwrap(), (1, Some(2)));
    assert_eq!(pair_sources(None, Some(2)).unwrap(), (2, None));
    assert!(matches!(
        pair_sources::<u8>(None, None),
        Err(SwitchboardError::NoConfigSource { .. })
    ));
}

#[test]
fn body_limit_boundary() {
    assert_eq!(admit_request("POST", "/x", 1_048_576, 1_048_576), Admission::Proxy);
    assert_eq!(admit_request("POST", "/x", 1_048_577, 1_048_576), Admission::TooLarge);
}

#[test]
fn health_is_never_forwarded() {
    assert_eq!(admit_request("GET", "/health", 0, 10), Admission::Health);
    assert_eq!(admit_request("POST", "/health", 0, 10), Admission::HealthMethodNotAllowed);
    assert_eq!(admit_request("GET", "/healthz", 0, 10), Admission::Proxy);
}

#[test]
fn correlation_id_is_echoed_or_fresh() {
    let mut h = HeaderList::new();
    h.insert("X-Correlation-Id", "abc-123");
    assert_eq!(correlation_id_for(&h), "abc-123");
    let fresh = correlation_id_for(&HeaderList::new());
    assert_eq!(fresh.len(), 36);
    assert!(fresh.chars().all(|c| c == '-' || c.is_ascii_hexdigit()));
    assert_ne!(fresh, correlation_id_for(&HeaderList::new()));
}

#[test]
fn health_report_counts() {
    let loaded = LoadedConfig {
        config: config_with(&["/a", "/b"]),
        version: ConfigVersion::of_payload("abc"),
        source_name: "yaml".into(),
        loaded_at_ms: 1_000,
    };
    let mut stats = Stats::new();
    stats.record_forwarded();
    stats.record_failed();
    stats.record_forwarded();
    let r = health_report(&loaded, &stats, "default", "0.1.0", 42, 11_500);
    assert_eq!(r.status, "healthy");
    assert_eq!(r.config.version, "ba7816bf");
    assert_eq!(r.config.loaded_ago_seconds, 10);
    assert_eq!(r.config.routes, 2);
    assert_eq!(r.config.targets, 2);
    assert_eq!(r.stats.requests_forwarded, 2);
    assert_eq!(r.stats.requests_failed, 1);
}

#[test]
fn uptime_in_words() {
    assert_eq!(format_uptime(0), "0s");
    assert_eq!(format_uptime(59), "59s");
    assert_eq!(format_uptime(61), "1m 1s");
    assert_eq!(format_uptime(3600), "1h 0m 0s");
    assert_eq!(format_uptime(3725), "1h 2m 5s");
}

#[test]
fn log_settings() {
    assert_eq!(resolve_format(false, true, true), LogFormat::Json);
    assert_eq!(resolve_format(true, false, false), LogFormat::Pretty);
    assert_eq!(resolve_format(false, false, true), LogFormat::Pretty);
    assert_eq!(resolve_format(false, false, false), LogFormat::Json);
    assert_eq!(LogLevel::Info.name(), "INFO");
}
