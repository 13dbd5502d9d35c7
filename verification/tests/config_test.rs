use browser_render::config::{
    bool_setting, duration_setting, duration_string_overflows, parse_duration_string, Config,
    Duration, EnvValues, LogFormat, LogRotation,
};

#[test]
fn test_parse_duration_string() {
    assert_eq!(parse_duration_string("60s"), Some(Duration::from_secs(60)));
    assert_eq!(parse_duration_string("10m"), Some(Duration::from_secs(600)));
    assert_eq!(parse_duration_string("1h"), Some(Duration::from_secs(3600)));
    assert_eq!(parse_duration_string("500ms"), Some(Duration::from_millis(500)));
    assert_eq!(parse_duration_string("invalid"), None);
}

#[test]
fn duration_strings_edge_cases() {
    assert_eq!(parse_duration_string("  90s \t"), Some(Duration::from_secs(90)));
    assert_eq!(parse_duration_string("+5m"), Some(Duration::from_secs(300)));
    assert_eq!(parse_duration_string("1500ms"), Some(Duration::from_millis(1500)));
    assert_eq!(parse_duration_string(""), None);
    assert_eq!(parse_duration_string("   "), None);
    assert_eq!(parse_duration_string("s"), None);
    assert_eq!(parse_duration_string("ms"), None);
    assert_eq!(parse_duration_string("-1s"), None);
    assert_eq!(parse_duration_string("1 s"), None);
    assert_eq!(parse_duration_string("10"), None);
    assert_eq!(parse_duration_string("18446744073709551616s"), None);
}

#[test]
fn millisecond_durations_split_into_seconds_and_nanos() {
    let d = Duration::from_millis(1500);
    assert_eq!(d.as_secs(), 1);
    assert_eq!(d.subsec_nanos(), 500_000_000);
    let d = parse_duration_string("2001ms").unwrap();
    assert_eq!(d.as_secs(), 2);
    assert_eq!(d.subsec_nanos(), 1_000_000);
}

#[test]
fn duration_overflow_is_detected() {
    assert!(duration_string_overflows("18446744073709551615h"));
    assert!(duration_string_overflows("307445734561825861m"));
    assert!(!duration_string_overflows("307445734561825860m"));
    assert!(!duration_string_overflows("18446744073709551615s"));
    assert!(!duration_string_overflows("18446744073709551615ms"));
    assert!(!duration_string_overflows("nonsense"));
}

#[test]
fn duration_setting_falls_back_to_milliseconds_then_default() {
    let default = Duration::from_secs(60);
    assert_eq!(duration_setting(&None, default), default);
    assert_eq!(duration_setting(&Some("2m".to_string()), default), Duration::from_secs(120));
    assert_eq!(duration_setting(&Some("2500".to_string()), default), Duration::from_millis(2500));
    assert_eq!(duration_setting(&Some("soon".to_string()), default), default);
}

#[test]
fn bool_setting_accepts_only_exact_words() {
    assert!(bool_setting(&Some("true".to_string()), false));
    assert!(!bool_setting(&Some("false".to_string()), true));
    assert!(bool_setting(&Some("TRUE".to_string()), true));
    assert!(!bool_setting(&Some("yes".to_string()), false));
    assert!(bool_setting(&None, true));
}

#[test]
fn log_settings_parse_case_insensitively() {
    assert_eq!(LogFormat::from_str("JSON"), LogFormat::Json);
    assert_eq!(LogFormat::from_str("json"), LogFormat::Json);
    assert_eq!(LogFormat::from_str("text"), LogFormat::Text);
    assert_eq!(LogFormat::from_str("yaml"), LogFormat::Text);
    assert_eq!(LogRotation::from_str("Hourly"), LogRotation::Hourly);
    assert_eq!(LogRotation::from_str("NEVER"), LogRotation::Never);
    assert_eq!(LogRotation::from_str("weekly"), LogRotation::Daily);
    assert_eq!(LogFormat::default(), LogFormat::Text);
    assert_eq!(LogRotation::default(), LogRotation::Daily);
}

fn empty_env() -> EnvValues {
    EnvValues {
        grpc_port: None,
        http_port: None,
        user_name: None,
        comp_id: None,
        user_pass: None,
        browser_headless: None,
        browser_timeout: None,
        browser_debug: None,
        vehicle_job_timeout: None,
        sqlite_path: None,
        session_ttl: None,
        cookie_ttl: None,
        rust_logi_url: None,
        rust_logi_organization_id: None,
        log_format: None,
        log_file: None,
        log_dir: None,
        log_rotation: None,
    }
}

#[test]
fn config_defaults() {
    let c = Config::from_env_values(&empty_env());
    assert_eq!(c.grpc_port, "50051");
    assert_eq!(c.http_port, "8080");
    assert!(c.browser_headless);
    assert!(!c.browser_debug);
    assert_eq!(c.browser_timeout, Duration::from_secs(60));
    assert_eq!(c.vehicle_job_timeout, Duration::from_secs(240));
    assert_eq!(c.session_ttl, Duration::from_secs(600));
    assert_eq!(c.cookie_ttl, Duration::from_secs(86400));
    assert_eq!(c.sqlite_path, "./data/browser_render.db");
    assert_eq!(c.log_format, LogFormat::Text);
    assert_eq!(c.log_dir, "./logs");
    assert_eq!(c.log_rotation, LogRotation::Daily);
    assert_eq!(c.log_file, None);
    assert!(c.credentials_missing());
}

#[test]
fn config_from_values() {
    let mut e = empty_env();
    e.user_name = Some("test_user".to_string());
    e.comp_id = Some("test_comp".to_string());
    e.user_pass = Some("test_pass".to_string());
    e.browser_headless = Some("false".to_string());
    e.browser_timeout = Some("1800".to_string());
    e.session_ttl = Some("1h".to_string());
    e.log_format = Some("Json".to_string());
    e.log_rotation = Some("never".to_string());
    e.log_file = Some("app.log".to_string());
    e.rust_logi_url = Some("http://localhost:50051".to_string());
    e.rust_logi_organization_id = Some("test-org-id".to_string());
    let c = Config::from_env_values(&e);
    assert!(!c.credentials_missing());
    assert!(!c.browser_headless);
    assert_eq!(c.browser_timeout, Duration::from_millis(1800));
    assert_eq!(c.session_ttl, Duration::from_secs(3600));
    assert_eq!(c.log_format, LogFormat::Json);
    assert_eq!(c.log_rotation, LogRotation::Never);
    assert_eq!(c.log_file, Some("app.log".to_string()));
    assert_eq!(c.rust_logi_url, "http://localhost:50051");
    assert_eq!(c.rust_logi_organization_id, "test-org-id");
}
