use browser_render::config::{Config, EnvValues};
use browser_render::jobs::manager::{
    AccountOutcome, BatchProgress, BatchRun, JobManager, JobTask, VehicleRun,
};
use browser_render::server::http::session_name_ok;
use browser_render::jobs::{
    AccountResult, EtcAccountInfo, EtcBatchRequest, EtcScrapeRequest, EtcScrapeResult, JobPriority,
    JobStatus, JobType,
};

fn config() -> Config {
    Config::from_env_values(&EnvValues {
        grpc_port: None,
        http_port: None,
        user_name: None,
        comp_id: None,
        user_pass: None,
        browser_headless: None,
        browser_timeout: None,
        browser_debug: None,
        vehicle_job_timeout: None,
        sqlite_path: None,
        session_ttl: None,
        cookie_ttl: None,
        rust_logi_url: None,
        rust_logi_organization_id: None,
        log_format: None,
        log_file: None,
        log_dir: None,
        log_rotation: None,
    })
}

fn etc_request(user: &str) -> EtcScrapeRequest {
    EtcScrapeRequest {
        user_id: user.to_string(),
        password: "secret".to_string(),
        download_path: "./downloads".to_string(),
        headless: true,
    }
}

fn account(user: &str, name: &str) -> EtcAccountInfo {
    EtcAccountInfo { user_id: user.to_string(), password: "pw".to_string(), name: name.to_string() }
}

#[test]
fn new_manager_is_empty_and_idle() {
    let m = JobManager::new(config());
    assert!(m.is_idle());
    assert_eq!(m.running_job_count(), 0);
    assert_eq!(m.queue_length(), 0);
    assert!(m.get_all_jobs().is_empty());
    assert!(m.get_job("missing").is_none());
}

#[test]
fn vehicle_job_is_pending_with_fresh_id() {
    let mut m = JobManager::new(config());
    let a = m.create_vehicle_job();
    let b = m.create_job();
    assert_ne!(a, b);
    assert_eq!(a.len(), 36);
    assert_eq!(a.as_bytes()[8], b'-');
    let j = m.get_job(&a).unwrap();
    assert_eq!(j.job_type, JobType::Vehicle);
    assert_eq!(j.status, JobStatus::Pending);
    assert_eq!(j.priority, JobPriority::Normal);
    assert!(j.started_at.is_none());
    assert!(j.completed_at.is_none());
    assert_eq!(m.get_all_jobs().len(), 2);
    assert_eq!(m.queue_length(), 0);
}

#[test]
fn low_priority_jobs_wait_in_the_queue() {
    let mut m = JobManager::new(config());
    let normal = m.create_etc_job(etc_request("u1"), JobPriority::Normal);
    let low = m.create_etc_job(etc_request("u2"), JobPriority::Low);
    assert_eq!(m.get_job(&normal).unwrap().status, JobStatus::Pending);
    assert_eq!(m.get_job(&low).unwrap().status, JobStatus::Queued);
    assert_eq!(m.queue_length(), 1);

    // While a job runs, nothing leaves the queue.
    m.begin_job(&normal);
    assert_eq!(m.running_job_count(), 1);
    assert!(m.process_idle_jobs().is_none());
    assert_eq!(m.queue_length(), 1);

    m.finish_etc_job(&normal, Ok(EtcScrapeResult { csv_path: "a.csv".to_string(), csv_size: 10 }));
    m.end_job();
    assert!(m.is_idle());

    match m.process_idle_jobs() {
        Some(JobTask::Etc { job_id, request }) => {
            assert_eq!(job_id, low);
            assert_eq!(request.user_id, "u2");
        }
        other => panic!("unexpected task {:?}", other),
    }
    assert_eq!(m.queue_length(), 0);
    assert_eq!(m.get_job(&low).unwrap().status, JobStatus::Pending);
    assert!(m.process_idle_jobs().is_none());
}

#[test]
fn job_lifecycle_records_times_and_results() {
    let mut m = JobManager::new(config());
    let id = m.create_etc_job(etc_request("u"), JobPriority::High);
    m.begin_job(&id);
    let j = m.get_job(&id).unwrap();
    assert_eq!(j.status, JobStatus::Running);
    assert!(j.started_at.is_some());
    m.finish_etc_job(&id, Err("login failed".to_string()));
    m.end_job();
    let j = m.get_job(&id).unwrap();
    assert_eq!(j.status, JobStatus::Failed);
    assert_eq!(j.error, Some("login failed".to_string()));
    assert!(j.completed_at.is_some());
    assert_eq!(m.running_job_count(), 0);
    m.end_job();
    assert_eq!(m.running_job_count(), 0);
}

#[test]
fn vehicle_job_outcome_is_recorded() {
    let mut m = JobManager::new(config());
    let id = m.create_vehicle_job();
    assert_eq!(m.enqueue_vehicle_run(id.clone()), Some(id.clone()));
    m.begin_job(&id);
    assert_eq!(m.get_job(&id).unwrap().status, JobStatus::Running);
    m.finish_vehicle_job(&id, Ok(VehicleRun { vehicle_count: 12, hono_response: None }));
    let j = m.get_job(&id).unwrap();
    assert_eq!(j.status, JobStatus::Completed);
    assert_eq!(j.vehicle_count, Some(12));
    assert!(m.job_task(&id).is_none());
}

#[test]
fn jobs_by_type_and_removal() {
    let mut m = JobManager::new(config());
    let v = m.create_vehicle_job();
    let e = m.create_etc_job(etc_request("u"), JobPriority::Normal);
    assert_eq!(m.get_jobs_by_type(JobType::Vehicle).len(), 1);
    assert_eq!(m.get_jobs_by_type(JobType::EtcScrape).len(), 1);
    assert_eq!(m.get_jobs_by_type(JobType::EtcScrapeBatch).len(), 0);
    m.remove_job(&v);
    assert!(m.get_job(&v).is_none());
    assert!(m.get_job(&e).is_some());
    m.remove_job("nope");
    assert_eq!(m.get_all_jobs().len(), 1);
}

#[test]
fn batch_job_counts_and_failure_message() {
    let mut m = JobManager::new(config());
    let req = EtcBatchRequest {
        accounts: vec![account("a1", "Alpha"), account("a2", ""), account("a3", "Gamma")],
        download_path: "/tmp/dl".to_string(),
        headless: true,
    };
    let id = m.create_etc_batch_job(req, JobPriority::Normal);
    let j = m.get_job(&id).unwrap();
    assert_eq!(j.job_type, JobType::EtcScrapeBatch);
    assert_eq!(j.current_account_index, Some(0));
    let r = j.batch_result.unwrap();
    assert_eq!(r.total_count, 3);
    assert_eq!(r.accounts[0].name, "Alpha");
    assert_eq!(r.accounts[1].name, "a2");
    assert!(r.session_folder.starts_with("/tmp/dl/"));
    assert_eq!(r.session_folder.len(), "/tmp/dl/".len() + 15);
    assert_eq!(&r.session_folder[16..17], "_");

    let session_folder = match m.job_task(&id) {
        Some(JobTask::EtcBatch { job_id, request, session_folder }) => {
            assert_eq!(job_id, id);
            assert_eq!(request.accounts.len(), 3);
            session_folder
        }
        other => panic!("unexpected task {:?}", other),
    };
    assert_eq!(session_folder, r.session_folder);

    let mut p = BatchProgress::new();
    m.begin_batch_account(&id, 0);
    let j = m.get_job(&id).unwrap();
    assert_eq!(j.batch_result.as_ref().unwrap().accounts[0].status, JobStatus::Running);
    m.record_batch_account(
        &id,
        0,
        AccountOutcome::Downloaded { csv_path: "x.csv".to_string(), csv_size: 42 },
        &mut p,
    );
    m.begin_batch_account(&id, 1);
    m.record_batch_account(&id, 1, AccountOutcome::NoUsageData("no data".to_string()), &mut p);
    m.begin_batch_account(&id, 2);
    m.record_batch_account(&id, 2, AccountOutcome::Failed("timeout".to_string()), &mut p);
    assert_eq!(p, BatchProgress { success_count: 2, fail_count: 1 });
    // An index past the accounts changes nothing.
    m.record_batch_account(&id, 7, AccountOutcome::Failed("x".to_string()), &mut p);
    assert_eq!(p, BatchProgress { success_count: 2, fail_count: 1 });

    m.finish_batch_job(&id, p);
    let j = m.get_job(&id).unwrap();
    assert_eq!(j.status, JobStatus::Failed);
    assert_eq!(j.error, Some("1 of 3 accounts failed".to_string()));
    assert_eq!(j.current_account_index, None);
    let r = j.batch_result.unwrap();
    assert_eq!(r.success_count, 2);
    assert_eq!(r.fail_count, 1);
    assert_eq!(r.accounts[0].csv_path, Some("x.csv".to_string()));
    assert_eq!(r.accounts[0].csv_size, Some(42));
    assert_eq!(r.accounts[1].status, JobStatus::Completed);
    assert_eq!(r.accounts[1].csv_path, Some("skipped: no data".to_string()));
    assert_eq!(r.accounts[1].csv_size, Some(0));
    assert_eq!(r.accounts[2].status, JobStatus::Failed);
    assert_eq!(r.accounts[2].error, Some("timeout".to_string()));
}

#[test]
fn batch_without_failures_completes() {
    let mut m = JobManager::new(config());
    let req = EtcBatchRequest { accounts: vec![account("a1", "")], download_path: "d".to_string(), headless: false };
    let id = m.create_etc_batch_job(req, JobPriority::Low);
    assert_eq!(m.get_job(&id).unwrap().status, JobStatus::Queued);
    assert_eq!(m.queue_length(), 1);
    let mut p = BatchProgress::new();
    m.record_batch_account(&id, 0, AccountOutcome::Downloaded { csv_path: "f".to_string(), csv_size: 1 }, &mut p);
    m.finish_batch_job(&id, p);
    let j = m.get_job(&id).unwrap();
    assert_eq!(j.status, JobStatus::Completed);
    assert_eq!(j.error, None);
}

#[test]
fn enum_texts() {
    assert_eq!(JobType::EtcScrapeBatch.to_string(), "etc_scrape_batch");
    assert_eq!(JobType::Vehicle.debug_name(), "Vehicle");
    assert_eq!(JobStatus::Queued.to_string(), "queued");
    assert_eq!(JobStatus::Failed.debug_name(), "Failed");
    assert_eq!(JobPriority::default(), JobPriority::Normal);
    assert!(!JobPriority::Low.starts_immediately());
    assert!(JobPriority::High.starts_immediately());
    assert_eq!(JobPriority::High.debug_name(), "High");
}

#[test]
fn account_result_transitions() {
    let mut a = AccountResult::new("u".to_string(), "Name".to_string());
    assert_eq!(a.status, JobStatus::Pending);
    a.set_running();
    assert_eq!(a.status, JobStatus::Running);
    a.set_completed("p.csv".to_string(), 9);
    assert_eq!(a.status, JobStatus::Completed);
    assert_eq!(a.csv_size, Some(9));
    a.set_failed("boom".to_string());
    assert_eq!(a.status, JobStatus::Failed);
    assert_eq!(a.error, Some("boom".to_string()));
    assert_eq!(account("x", "").display_name(), "x");
    assert_eq!(account("x", "Y").display_name(), "Y");
}

#[test]
fn batch_folder_names_are_session_names() {
    let mut m = JobManager::new(config());
    let req = EtcBatchRequest { accounts: vec![account("a", "")], download_path: "base".to_string(), headless: true };
    let id = m.create_etc_batch_job(req, JobPriority::Normal);
    let folder = m.get_job(&id).unwrap().batch_result.unwrap().session_folder;
    let name = folder.strip_prefix("base/").unwrap();
    assert!(session_name_ok(name));
}

#[test]
fn account_results_through_setter_sequences() {
    let mut a = AccountResult::new("u".to_string(), "n".to_string());
    assert_eq!((a.status, a.csv_path.clone(), a.csv_size, a.error.clone()), (JobStatus::Pending, None, None, None));
    a.set_completed("x.csv".to_string(), 3);
    a.set_running();
    assert_eq!(a.status, JobStatus::Running);
    a.set_failed("e".to_string());
    assert_eq!(a.status, JobStatus::Failed);
    assert_eq!(a.error, Some("e".to_string()));
    a.set_completed("y.csv".to_string(), 4);
    assert_eq!(a.status, JobStatus::Completed);
    assert_eq!((a.csv_path.clone(), a.csv_size), (Some("y.csv".to_string()), Some(4)));
    assert_eq!((a.user_id.as_str(), a.name.as_str()), ("u", "n"));
}

#[test]
fn vehicle_jobs_run_one_at_a_time_in_arrival_order() {
    let mut m = JobManager::new(config());
    let a = m.create_vehicle_job();
    let b = m.create_job();
    let c = m.create_vehicle_job();
    assert_eq!(m.vehicle_slot_holder(), None);
    assert_eq!(m.enqueue_vehicle_run(a.clone()), Some(a.clone()));
    assert_eq!(m.enqueue_vehicle_run(b.clone()), None);
    assert_eq!(m.enqueue_vehicle_run(c.clone()), None);
    assert_eq!(m.vehicle_slot_holder(), Some(a.clone()));

    m.begin_job(&a);
    // A vehicle job without the slot is not marked running.
    m.begin_job(&b);
    assert_eq!(m.get_job(&a).unwrap().status, JobStatus::Running);
    assert_eq!(m.get_job(&b).unwrap().status, JobStatus::Pending);
    assert_eq!(m.running_job_count(), 2);
    m.end_job();

    // The slot is not given up while its job is still running.
    assert_eq!(m.finish_vehicle_run(&a), None);
    assert_eq!(m.vehicle_slot_holder(), Some(a.clone()));

    m.finish_vehicle_job(&a, Err("session expired".to_string()));
    m.end_job();
    // Only the holder gives the slot up.
    assert_eq!(m.finish_vehicle_run(&c), None);
    assert_eq!(m.finish_vehicle_run(&a), Some(b.clone()));
    assert_eq!(m.vehicle_slot_holder(), Some(b.clone()));
    m.begin_job(&b);
    assert_eq!(m.get_job(&b).unwrap().status, JobStatus::Running);
    let running: Vec<_> = m
        .get_jobs_by_type(JobType::Vehicle)
        .into_iter()
        .filter(|j| j.status == JobStatus::Running)
        .collect();
    assert_eq!(running.len(), 1);
    m.finish_vehicle_job(&b, Ok(VehicleRun { vehicle_count: 1, hono_response: None }));
    assert_eq!(m.finish_vehicle_run(&b), Some(c.clone()));
    m.finish_vehicle_job(&c, Ok(VehicleRun { vehicle_count: 2, hono_response: None }));
    assert_eq!(m.finish_vehicle_run(&c), None);
    assert_eq!(m.vehicle_slot_holder(), None);
}

#[test]
fn batch_run_hands_out_accounts_in_order() {
    let mut m = JobManager::new(config());
    let accounts = vec![account("a1", "Alpha"), account("a2", ""), account("a3", "Gamma")];
    let req = EtcBatchRequest { accounts: accounts.clone(), download_path: "/tmp/dl".to_string(), headless: true };
    let id = m.create_etc_batch_job(req, JobPriority::Normal);
    let mut run = BatchRun::new(id.clone(), accounts);
    assert_eq!(run.job_id(), &id);

    let (i, a) = m.next_batch_account(&mut run).unwrap();
    assert_eq!((i, a.user_id.as_str()), (0, "a1"));
    let j = m.get_job(&id).unwrap();
    assert_eq!(j.current_account_index, Some(0));
    assert_eq!(j.batch_result.unwrap().accounts[0].status, JobStatus::Running);
    // While account 0 is in progress, no other is handed out.
    assert!(m.next_batch_account(&mut run).is_none());
    m.record_batch_outcome(&mut run, AccountOutcome::Failed("timeout".to_string()));
    // Reporting again with nothing in progress changes nothing.
    m.record_batch_outcome(&mut run, AccountOutcome::Failed("again".to_string()));
    assert_eq!(run.progress(), BatchProgress { success_count: 0, fail_count: 1 });

    let (i, a) = m.next_batch_account(&mut run).unwrap();
    assert_eq!((i, a.user_id.as_str()), (1, "a2"));
    m.record_batch_outcome(&mut run, AccountOutcome::NoUsageData("none".to_string()));
    let (i, a) = m.next_batch_account(&mut run).unwrap();
    assert_eq!((i, a.name.as_str()), (2, "Gamma"));
    assert_eq!(m.get_job(&id).unwrap().current_account_index, Some(2));
    m.record_batch_outcome(&mut run, AccountOutcome::Downloaded { csv_path: "c.csv".to_string(), csv_size: 7 });
    assert!(m.next_batch_account(&mut run).is_none());
    assert_eq!(run.progress(), BatchProgress { success_count: 2, fail_count: 1 });

    m.finish_batch_job(run.job_id(), run.progress());
    let j = m.get_job(&id).unwrap();
    assert_eq!(j.status, JobStatus::Failed);
    assert_eq!(j.error, Some("1 of 3 accounts failed".to_string()));
    let r = j.batch_result.unwrap();
    assert_eq!(r.accounts[0].status, JobStatus::Failed);
    assert_eq!(r.accounts[0].error, Some("timeout".to_string()));
    assert_eq!(r.accounts[1].csv_path, Some("skipped: none".to_string()));
    assert_eq!(r.accounts[2].csv_size, Some(7));
}

#[test]
fn batch_failure_message_uses_the_batch_account_count() {
    let mut m = JobManager::new(config());
    let req = EtcBatchRequest {
        accounts: vec![account("a1", ""), account("a2", ""), account("a3", ""), account("a4", "")],
        download_path: "d".to_string(),
        headless: true,
    };
    let id = m.create_etc_batch_job(req, JobPriority::High);
    m.finish_batch_job(&id, BatchProgress { success_count: 1, fail_count: 2 });
    assert_eq!(m.get_job(&id).unwrap().error, Some("2 of 4 accounts failed".to_string()));
}

fn is_job_id_form(id: &str) -> bool {
    id.len() == 36
        && id.chars().enumerate().all(|(i, c)| {
            if i == 8 || i == 13 || i == 18 || i == 23 {
                c == '-'
            } else {
                c.is_ascii_digit() || ('a'..='f').contains(&c)
            }
        })
}

#[test]
fn created_job_ids_are_hyphenated_lowercase_uuids() {
    let mut m = JobManager::new(config());
    let ids = vec![
        m.create_vehicle_job(),
        m.create_job(),
        m.create_etc_job(etc_request("u"), JobPriority::Normal),
        m.create_etc_batch_job(
            EtcBatchRequest { accounts: vec![account("a1", "")], download_path: "d".to_string(), headless: true },
            JobPriority::Low,
        ),
    ];
    for id in &ids {
        assert!(is_job_id_form(id), "{}", id);
        assert!(m.get_job(id).is_some());
    }
    assert_eq!(m.get_all_jobs().len(), 4);
}
