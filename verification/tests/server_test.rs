use browser_render::browser::renderer::{check_session_outcome, RendererError};
use browser_render::clock::Timestamp;
use browser_render::server::grpc_json::{
    batch_created_response, default_headless, get_job_response, health_check_response, is_zero,
    job_to_response, list_jobs_response, nonempty_accounts, queue_status_response,
    scrape_created_response, to_batch_request, to_env_batch_request, to_scrape_request,
    EtcAccountInfo, EtcBatchEnvRequest, EtcBatchRequest, EtcScrapeRequest,
};
use browser_render::server::http::{
    batch_job_reply, check_download_request, check_session_files_request, clear_session_failure,
    csv_extension, csv_file_name, env_batch_request, etc_job_reply, job_not_found, list_session_files,
    list_sessions, required_session_id, session_name_ok, unsafe_component, vehicle_job_reply,
    SessionDirEntry, SessionFileEntry,
};
use browser_render::storage::sqlite::StorageError;
use browser_render::config::{Config, EnvValues};
use browser_render::jobs::manager::JobManager;
use browser_render::jobs::{EtcScrapeRequest as JobRequest, JobPriority};

fn ts(secs: i64) -> Timestamp {
    Timestamp::from_parts(secs, 0).unwrap()
}

#[test]
fn session_names_and_paths() {
    assert!(session_name_ok("20240131_235959"));
    assert!(!session_name_ok("20240131-235959"));
    assert!(!session_name_ok("2024013_235959"));
    assert!(unsafe_component("a/../b"));
    assert!(unsafe_component("..x"));
    assert!(unsafe_component("a\\b"));
    assert!(!unsafe_component("file.csv"));
    assert!(csv_extension("data.CSV"));
    assert!(csv_extension("a.b.csv"));
    assert!(!csv_extension("csv"));
    assert!(!csv_extension("data.txt"));
    assert!(csv_file_name("x.csv"));
    assert!(csv_file_name("x.CSV"));
    assert!(!csv_file_name("csv"));
    assert!(!csv_file_name("x.csvx"));
}

#[test]
fn session_request_checks() {
    let e = check_session_files_request("bad").unwrap_err();
    assert_eq!(e.status, 400);
    assert_eq!(e.error, "Invalid session ID format. Expected YYYYMMDD_HHMMSS");
    assert!(check_session_files_request("20240101_000000").is_ok());
    let e = check_download_request("nope", "a.csv").unwrap_err();
    assert_eq!(e.error, "Invalid session ID format");
    let e = check_download_request("20240101_000000", "../a.csv").unwrap_err();
    assert_eq!(e.error, "Invalid path");
    assert!(check_download_request("20240101_000000", "a.csv").is_ok());
}

#[test]
fn session_id_parameter_is_required() {
    assert_eq!(required_session_id(Some("abc".to_string())), Ok("abc".to_string()));
    assert_eq!(required_session_id(Some(String::new())), Err("Session ID is required".to_string()));
    assert_eq!(required_session_id(None), Err("Session ID is required".to_string()));
}

#[test]
fn error_replies() {
    let r = clear_session_failure(&RendererError::SessionError("gone".to_string()));
    assert_eq!(r.status, 401);
    assert_eq!(r.error, "Failed to clear session: Session error: gone");
    let r = clear_session_failure(&RendererError::Storage(StorageError::SessionNotFound));
    assert_eq!(r.status, 500);
    assert_eq!(r.error, "Failed to clear session: Storage error: Session not found");
    assert_eq!(RendererError::SessionError("x".to_string()).http_status_code(), 401);
    let r = job_not_found("j1");
    assert_eq!(r.status, 404);
    assert_eq!(r.error, "Job not found: j1");
}

#[test]
fn session_check_outcomes() {
    let now = ts(1_000);
    assert_eq!(check_session_outcome(&Ok(Some(ts(1_001))), &now), (true, "Session is valid".to_string()));
    assert_eq!(check_session_outcome(&Ok(Some(ts(1_000))), &now), (false, "Session expired".to_string()));
    assert_eq!(check_session_outcome(&Ok(None), &now), (false, "Session not found".to_string()));
    assert_eq!(
        check_session_outcome(&Err(StorageError::Database("locked".to_string())), &now),
        (false, "Error checking session: Database error: locked".to_string())
    );
}

#[test]
fn listings_are_filtered_and_sorted() {
    let dirs = vec![
        SessionDirEntry { name: "20240101_000000".to_string(), is_dir: true, csv_count: 2 },
        SessionDirEntry { name: "20240301_000000".to_string(), is_dir: true, csv_count: 1 },
        SessionDirEntry { name: "notes".to_string(), is_dir: true, csv_count: 0 },
        SessionDirEntry { name: "20240201_000000".to_string(), is_dir: false, csv_count: 0 },
    ];
    assert_eq!(
        list_sessions(dirs),
        vec![("20240301_000000".to_string(), 1), ("20240101_000000".to_string(), 2)]
    );
    let files = vec![
        SessionFileEntry { name: "b.csv".to_string(), is_file: true, size: 20 },
        SessionFileEntry { name: "a.CSV".to_string(), is_file: true, size: 10 },
        SessionFileEntry { name: "c.txt".to_string(), is_file: true, size: 5 },
        SessionFileEntry { name: "d.csv".to_string(), is_file: false, size: 0 },
    ];
    assert_eq!(list_session_files(files), vec![("a.CSV".to_string(), 10), ("b.csv".to_string(), 20)]);
}

#[test]
fn job_created_replies() {
    let r = vehicle_job_reply("id1".to_string());
    assert_eq!(r.status, "pending");
    assert_eq!(r.message, "Job created successfully. Use /v1/job/{id} to check status.");
    let r = etc_job_reply("id2".to_string(), true);
    assert_eq!(r.status, "queued");
    assert_eq!(
        r.message,
        "ETC scrape job queued. Will run when system is idle. Use /v1/job/{id} to check status."
    );
    let r = batch_job_reply("id3".to_string(), 3, false, true);
    assert_eq!(r.status, "pending");
    assert_eq!(r.message, "ETC batch scrape job created for 3 accounts from env. Use /v1/job/{id} to check status.");
    let r = batch_job_created_queued();
    assert_eq!(r, "ETC batch scrape job queued for 12 accounts. Will run when system is idle. Use /v1/job/{id} to check status.");
}

fn batch_job_created_queued() -> String {
    batch_job_reply("id".to_string(), 12, true, false).message
}

#[test]
fn env_batch_defaults() {
    let r = env_batch_request(vec![], None, None, "./downloads".to_string());
    assert_eq!(r.download_path, "./downloads");
    assert!(r.headless);
    let r = env_batch_request(vec![], Some("/x".to_string()), Some(false), "./downloads".to_string());
    assert_eq!(r.download_path, "/x");
    assert!(!r.headless);
}

#[test]
fn grpc_json_requests() {
    let default = "./downloads".to_string();
    let r = to_scrape_request(
        EtcScrapeRequest { user_id: "u".into(), password: "p".into(), download_path: String::new(), headless: false },
        &default,
    );
    assert_eq!(r.download_path, "./downloads");
    assert!(!r.headless);
    let r = to_batch_request(
        EtcBatchRequest {
            accounts: vec![EtcAccountInfo { user_id: "a".into(), password: "b".into(), name: "c".into() }],
            download_path: "/d".into(),
            headless: true,
        },
        &default,
    );
    assert_eq!(r.download_path, "/d");
    assert_eq!(r.accounts.len(), 1);
    assert_eq!(r.accounts[0].name, "c");
    let r = to_env_batch_request(EtcBatchEnvRequest::default(), vec![], &default);
    assert!(r.headless);
    assert_eq!(r.download_path, "./downloads");
    let r = to_env_batch_request(
        EtcBatchEnvRequest { download_path: String::new(), headless: false, headless_set: true },
        vec![],
        &default,
    );
    assert!(!r.headless);
    assert_eq!(nonempty_accounts(vec![]).unwrap_err(), "ETC_ACCOUNTS is empty");
    assert!(default_headless());
    assert!(is_zero(&0));
    assert!(!is_zero(&-1));
}

#[test]
fn grpc_json_responses() {
    let r = scrape_created_response("j".into(), false);
    assert_eq!(r.status, "pending");
    assert_eq!(r.message, "ETC scrape job created.");
    let r = batch_created_response("j".into(), 2, true, true);
    assert_eq!(r.status, "queued");
    assert_eq!(r.message, "ETC batch scrape job queued for 2 accounts from env.");
    let r = queue_status_response(3, 1, false);
    assert_eq!((r.queue_length, r.running_jobs, r.is_idle), (3, 1, false));
    let r = health_check_response(42);
    assert_eq!(r.status, "healthy");
    assert_eq!(r.version, "1.0.0");
    assert_eq!(r.uptime, 42);
    let r = get_job_response(&None);
    assert!(!r.found);
    assert!(r.job.is_none());
    let r = list_jobs_response(&vec![]);
    assert_eq!(r.count, 0);
}

#[test]
fn job_response_shows_names_and_times() {
    let env = EnvValues {
        grpc_port: None, http_port: None, user_name: None, comp_id: None, user_pass: None,
        browser_headless: None, browser_timeout: None, browser_debug: None, vehicle_job_timeout: None,
        sqlite_path: None, session_ttl: None, cookie_ttl: None, rust_logi_url: None,
        rust_logi_organization_id: None, log_format: None, log_file: None, log_dir: None, log_rotation: None,
    };
    let mut m = JobManager::new(Config::from_env_values(&env));
    let id = m.create_etc_job(
        JobRequest { user_id: "u".into(), password: "p".into(), download_path: "d".into(), headless: true },
        JobPriority::Low,
    );
    let job = m.get_job(&id).unwrap();
    let r = job_to_response(&job);
    assert_eq!(r.id, id);
    assert_eq!(r.job_type, "EtcScrape");
    assert_eq!(r.priority, "Low");
    assert_eq!(r.status, "Queued");
    assert_eq!(r.started_at, "");
    assert_eq!(r.error, "");
    assert_eq!(r.current_account_index, 0);
    assert!(r.created_at.contains('T'));
    let all = list_jobs_response(&m.get_all_jobs());
    assert_eq!(all.count, 1);
    let found = get_job_response(&Some(job));
    assert!(found.found);
}

#[test]
fn timestamps_format_in_utc_and_jst() {
    let t = ts(0);
    assert_eq!(t.to_rfc3339(), "1970-01-01T00:00:00+00:00");
    assert_eq!(t.to_jst_compact(), "19700101_090000");
    let t = Timestamp::from_parts(1_700_000_000, 500_000_000).unwrap();
    assert_eq!(t.to_rfc3339(), "2023-11-14T22:13:20.500+00:00");
    assert_eq!(t.to_jst_compact(), "20231115_071320");
    assert!(Timestamp::from_parts(0, 1_000_000_000).is_none());
    assert!(Timestamp::from_parts(i64::MAX, 0).is_none());
    assert!(ts(5).is_after(&ts(4)));
    assert!(!ts(4).is_after(&ts(4)));
}

#[test]
fn remaining_request_refusals() {
    let e = check_download_request("20240101_000000", "report.txt").unwrap_err();
    assert_eq!((e.status, e.error.as_str()), (400, "Only CSV files can be downloaded"));
    assert!(check_download_request("20240101_000000", "REPORT.CSV").is_ok());
    let e = check_session_files_request("2024/101_000000").unwrap_err();
    assert_eq!((e.status, e.error.as_str()), (400, "Invalid session ID"));
    let e = check_download_request("20240101_000000", "a\\b.csv").unwrap_err();
    assert_eq!(e.error, "Invalid path");
}
