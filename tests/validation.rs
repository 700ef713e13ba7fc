use switchboard::error::format_errors;
use switchboard::model::{ActuatorAuth, ActuatorConfig, Config, Defaults, HeaderRules, Route, Target};
use switchboard::source::{format_for_extension, ConfigFormat};
use switchboard::error::SwitchboardError;
use switchboard::validation::{
    format_validation_report, replace_params_for_validation, validate, validate_method,
    validate_path, validate_target_url,
};

fn route_with(path: &str, methods: Vec<&str>, targets: Vec<Target>) -> Route {
    Route {
        path: path.into(),
        methods: methods.into_iter().map(String::from).collect(),
        timeout: None,
        headers: HeaderRules::default(),
        targets,
    }
}

fn target(url: &str, primary: bool) -> Target {
    Target { url: url.into(), primary, timeout: None }
}

fn config_of(routes: Vec<Route>) -> Config {
    Config { actuator: ActuatorConfig::default(), defaults: Defaults::default(), routes }
}

fn minimal_config() -> Config {
    config_of(vec![route_with("/test", vec!["*"], vec![target("http://localhost:8080/test", false)])])
}

#[test]
fn valid_config_passes() {
    assert!(validate(&minimal_config()).is_ok());
}

#[test]
fn empty_routes_fails() {
    let config = config_of(vec![]);
    let errors = validate(&config).unwrap_err();
    assert_eq!(errors.len(), 1);
    assert!(errors[0].message.contains("at least one route"));
}

#[test]
fn empty_targets_fails() {
    let config = config_of(vec![route_with("/test", vec!["*"], vec![])]);
    let errors = validate(&config).unwrap_err();
    assert!(errors.iter().any(|e| e.message.contains("at least one target")));
}

#[test]
fn multiple_primaries_fails() {
    let config = config_of(vec![route_with(
        "/test",
        vec!["*"],
        vec![target("http://a:80", true), target("http://b:80", true)],
    )]);
    let errors = validate(&config).unwrap_err();
    assert!(errors.iter().any(|e| e.message.contains("primary")));
}

#[test]
fn invalid_url_fails() {
    let config = config_of(vec![route_with("/test", vec!["*"], vec![target("not a url", false)])]);
    let errors = validate(&config).unwrap_err();
    assert!(errors.iter().any(|e| e.message.contains("not a valid URL")));
}

#[test]
fn path_without_slash_fails() {
    let config =
        config_of(vec![route_with("test", vec!["*"], vec![target("http://localhost:8080", false)])]);
    let errors = validate(&config).unwrap_err();
    assert!(errors
        .iter()
        .any(|e| e.suggestion.as_deref() == Some("did you mean '/test'?")));
}

#[test]
fn invalid_method_fails() {
    let config = config_of(vec![route_with(
        "/test",
        vec!["INVALID"],
        vec![target("http://localhost:8080", false)],
    )]);
    let errors = validate(&config).unwrap_err();
    assert!(errors.iter().any(|e| e.message.contains("not a valid HTTP method")));
}

#[test]
fn invalid_config_fails_validation() {
    let config = config_of(vec![]);
    assert!(validate(&config).is_err());
}

#[test]
fn config_total_targets_counts_correctly() {
    let config = config_of(vec![
        route_with("/a", vec!["*"], vec![target("http://a:80", false), target("http://b:80", false)]),
        route_with("/b", vec!["*"], vec![target("http://c:80", false)]),
    ]);
    assert_eq!(config.total_targets(), 3);
}

#[test]
fn unsupported_format_returns_error() {
    let result = format_for_extension("xml");
    assert!(result.is_err());
    match result {
        Err(SwitchboardError::UnsupportedFormat(ext)) => assert_eq!(ext, "xml"),
        _ => panic!("expected an unsupported format"),
    }
}

#[test]
fn known_extensions_map_to_formats() {
    assert_eq!(format_for_extension("yaml").unwrap(), ConfigFormat::Yaml);
    assert_eq!(format_for_extension("yml").unwrap(), ConfigFormat::Yaml);
    assert_eq!(format_for_extension("json").unwrap(), ConfigFormat::Json);
    assert_eq!(format_for_extension("toml").unwrap(), ConfigFormat::Toml);
    assert_eq!(ConfigFormat::Toml.extension(), "toml");
}

#[test]
fn path_rules() {
    assert!(validate_path("/a").is_ok());
    assert!(validate_path("*").is_ok());
    assert_eq!(validate_path("").unwrap_err(), "path cannot be empty");
    assert_eq!(
        validate_path("a").unwrap_err(),
        "path must start with '/' or be '*' (did you mean '/a'?)"
    );
}

#[test]
fn methods_are_upper_cased_before_the_check() {
    assert!(validate_method("get").is_ok());
    assert!(validate_method("Options").is_ok());
    assert!(validate_method("*").is_ok());
    assert_eq!(validate_method("FETCH").unwrap_err(), "'FETCH' is not a valid HTTP method");
}

#[test]
fn placeholders_are_filled_for_validation() {
    assert_eq!(replace_params_for_validation("http://h/:id/x"), "http://h/_p/x");
    assert_eq!(replace_params_for_validation("http://h/:a:b"), "http://h/_p_p");
    assert_eq!(replace_params_for_validation("http://h:80/:_x1"), "http://h:80/_p");
    assert_eq!(replace_params_for_validation("http://h/:9"), "http://h/:9");
}

#[test]
fn target_url_rules() {
    assert!(validate_target_url("http://t:80/u/:uid").is_ok());
    assert!(validate_target_url("https://t/u").is_ok());
    assert_eq!(
        validate_target_url("ftp://t/u").unwrap_err(),
        "unsupported scheme 'ftp' (expected http or https)"
    );
    assert_eq!(validate_target_url("nope").unwrap_err(), "'nope' is not a valid URL");
}

#[test]
fn valid_config_urls_parse_after_substitution() {
    let config = config_of(vec![route_with(
        "/users/:uid",
        vec!["GET"],
        vec![target("http://t:80/u/:uid", true)],
    )]);
    assert!(validate(&config).is_ok());
    let filled = replace_params_for_validation("http://t:80/u/:uid");
    assert!(switchboard::target_url::TargetUrl::parse(&filled).is_some());
}

#[test]
fn errors_are_reported_in_order() {
    let mut config = config_of(vec![
        route_with("/a", vec!["GET"], vec![target("http://a:80", false)]),
        route_with("/a", vec!["BREW"], vec![]),
        route_with("", vec!["*"], vec![target("http://c:80", false)]),
    ]);
    config.actuator = ActuatorConfig {
        enabled: true,
        auth: ActuatorAuth { username: Some("admin".into()), password: None },
    };
    let errors = validate(&config).unwrap_err();
    let fields: Vec<(&str, &str)> =
        errors.iter().map(|e| (e.route.as_str(), e.field.as_str())).collect();
    assert_eq!(
        fields,
        vec![
            ("(root)", "actuator.auth.password"),
            ("/a", "path"),
            ("/a", "methods"),
            ("/a", "targets"),
            ("routes[2]", "path"),
        ]
    );
    assert_eq!(errors[1].message, "duplicate route path");
    assert_eq!(
        errors[0].to_display_string(),
        "  route (root): actuator.auth.password \u{2014} password is required when username is set"
    );
    let text = format_errors(&errors);
    assert_eq!(text.lines().count(), 5);
}

#[test]
fn primary_count_is_reported() {
    let config = config_of(vec![route_with(
        "/p",
        vec!["*"],
        vec![target("http://a:80", true), target("http://b:80", true), target("http://c:80", true)],
    )]);
    let errors = validate(&config).unwrap_err();
    assert_eq!(errors[0].message, "3 targets marked as primary, at most 1 allowed");
}

#[test]
fn validation_report_describes_routes() {
    let mut r = route_with(
        "/orders",
        vec!["GET", "POST"],
        vec![target("http://a:80", false), target("http://b:80", true)],
    );
    r.timeout = Some(250);
    let config = config_of(vec![r, route_with("/x", vec!["*"], vec![target("http://c:80", false)])]);
    let report = format_validation_report("routes.yaml", &config);
    assert_eq!(
        report,
        "routes.yaml is valid\n  2 routes, 3 targets\n\n  /orders  -> 2 targets (primary: http://b:80)\n    methods: GET, POST\n    timeout: 250ms\n  /x  -> 1 targets (primary: http://c:80)\n    methods: *\n    timeout: 5000ms (default)"
    );
}
