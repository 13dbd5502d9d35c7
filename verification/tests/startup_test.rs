use browser_render::browser::renderer::RendererError;
use browser_render::config::{CliOverrides, Config, Duration, EnvValues, LogFormat, LogRotation};
use browser_render::server::grpc::{clear_session_answer, session_id_required};
use browser_render::server::grpc_json::{
    check_list_files_request, list_session_files_response, list_sessions_response,
};
use browser_render::server::http::{attachment_disposition, file_not_found, read_failure, session_not_found};
use browser_render::startup::{parse_server_mode, startup_info_lines, ServerMode};
use browser_render::storage::sqlite::StorageError;

fn base_config() -> Config {
    Config::from_env_values(&EnvValues {
        grpc_port: None,
        http_port: None,
        user_name: Some("u".to_string()),
        comp_id: Some("c".to_string()),
        user_pass: Some("p".to_string()),
        browser_headless: None,
        browser_timeout: None,
        browser_debug: None,
        vehicle_job_timeout: None,
        sqlite_path: None,
        session_ttl: None,
        cookie_ttl: None,
        rust_logi_url: None,
        rust_logi_organization_id: None,
        log_format: None,
        log_file: Some("env.log".to_string()),
        log_dir: None,
        log_rotation: None,
    })
}

#[test]
fn cli_overrides_apply() {
    let c = base_config().with_overrides(CliOverrides {
        grpc_port: None,
        http_port: Some("3000".to_string()),
        db_path: Some("/tmp/db".to_string()),
        headless: false,
        debug: true,
        log_format: "JSON".to_string(),
        log_file: None,
        log_dir: "/var/log".to_string(),
        log_rotation: "hourly".to_string(),
    });
    assert_eq!(c.grpc_port, "50051");
    assert_eq!(c.http_port, "3000");
    assert_eq!(c.sqlite_path, "/tmp/db");
    assert!(!c.browser_headless);
    assert!(c.browser_debug);
    assert_eq!(c.log_format, LogFormat::Json);
    assert_eq!(c.log_file, Some("env.log".to_string()));
    assert_eq!(c.log_dir, "/var/log");
    assert_eq!(c.log_rotation, LogRotation::Hourly);
    assert_eq!(c.session_ttl, Duration::from_secs(600));
    assert_eq!(c.default_log_level(), "debug");
}

#[test]
fn configuration_warnings() {
    let c = base_config();
    assert_eq!(
        c.warnings(),
        vec![
            "RUST_LOGI_URL not set - data will not be sent to rust-logi".to_string(),
            "RUST_LOGI_ORGANIZATION_ID not set - required for rust-logi".to_string(),
        ]
    );
    assert_eq!(c.default_log_level(), "info");
    let mut c2 = c.clone();
    c2.user_pass = String::new();
    c2.rust_logi_url = "http://x".to_string();
    c2.rust_logi_organization_id = "org".to_string();
    assert_eq!(c2.warnings(), vec!["Authentication credentials not set in environment variables".to_string()]);
}

#[test]
fn server_modes() {
    assert_eq!(parse_server_mode("grpc"), Ok(ServerMode::Grpc));
    assert_eq!(parse_server_mode("http"), Ok(ServerMode::Http));
    assert_eq!(parse_server_mode("both"), Ok(ServerMode::Both));
    assert_eq!(parse_server_mode("HTTP"), Err("Invalid server type".to_string()));
}

#[test]
fn startup_banner() {
    let c = base_config();
    let rule = "=".repeat(50);
    let lines = startup_info_lines(&c, ServerMode::Both, false);
    assert_eq!(
        lines,
        vec![
            String::new(),
            rule.clone(),
            "Browser Render Rust Server Started".to_string(),
            rule.clone(),
            "HTTP Server:  http://localhost:8080".to_string(),
            "Health Check: http://localhost:8080/health".to_string(),
            String::new(),
            "Configuration:".to_string(),
            "  Browser Mode: Headless".to_string(),
            "  Debug Mode:   false".to_string(),
            "  Database:     ./data/browser_render.db".to_string(),
            String::new(),
            "Press Ctrl+C to stop the server".to_string(),
            rule.clone(),
            String::new(),
        ]
    );
    let lines = startup_info_lines(&c, ServerMode::Grpc, true);
    assert_eq!(lines[4], "gRPC Server:  localhost:50051");
    assert_eq!(lines.len(), 14);
    let lines = startup_info_lines(&c, ServerMode::Both, true);
    assert_eq!(lines.len(), 16);
}

#[test]
fn grpc_session_answers() {
    assert_eq!(session_id_required(), (false, "Session ID is required".to_string()));
    assert_eq!(clear_session_answer(&Ok(())), (true, "Session cleared successfully".to_string()));
    assert_eq!(
        clear_session_answer(&Err(RendererError::Storage(StorageError::Serialization("bad".to_string())))),
        (false, "Failed to clear session: Storage error: Serialization error: bad".to_string())
    );
}

#[test]
fn grpc_json_session_listings() {
    assert_eq!(check_list_files_request("x"), Err("Invalid session ID format".to_string()));
    assert_eq!(check_list_files_request("2024..01_000000"), Err("Invalid session ID".to_string()));
    assert_eq!(check_list_files_request("20240101_000000"), Ok(()));
    let r = list_sessions_response(vec![("20240102_000000".to_string(), 3), ("20240101_000000".to_string(), 0)]);
    assert_eq!(r.sessions.len(), 2);
    assert_eq!(r.sessions[0].name, "20240102_000000");
    assert_eq!(r.sessions[0].file_count, 3);
    let r = list_session_files_response("s".to_string(), vec![("a.csv".to_string(), 12)]);
    assert_eq!(r.session_id, "s");
    assert_eq!(r.files[0].size, 12);
}

#[test]
fn http_error_helpers() {
    let e = session_not_found("20240101_000000");
    assert_eq!((e.status, e.error.as_str()), (404, "Session not found: 20240101_000000"));
    let e = file_not_found("a.csv");
    assert_eq!((e.status, e.error.as_str()), (404, "File not found: a.csv"));
    let e = read_failure("Failed to read file", "permission denied");
    assert_eq!((e.status, e.error.as_str()), (500, "Failed to read file: permission denied"));
    assert_eq!(attachment_disposition("a.csv"), "attachment; filename=\"a.csv\"");
}
