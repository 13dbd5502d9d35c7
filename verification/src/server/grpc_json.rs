//! gRPC JSON transcoding: the request and response values of the `/grpc/`
//! endpoints and the rules that map them to and from the job manager.
use vstd::prelude::*;

use crate::clock::rfc3339_text;
use crate::jobs::manager::{
    job_type_name, priority_name, status_name, EtcBatchRequestModel, JobModel,
};
use crate::jobs::{AccountResult as JobAccountResult, Job as JobRecord};
use crate::server::http::{is_session_name, is_unsafe_component, session_name_ok, unsafe_component};
use crate::text::{concat_str, decimal, decimal_string};

verus! {

// ========== Request Types ==========
/// Body of `EtcScrape` / `EtcScrapeQueue` (every field optional in JSON).
#[derive(Debug)]
pub struct EtcScrapeRequest {
    pub user_id: String,
    pub password: String,
    pub download_path: String,
    pub headless: bool,
}

/// One account of a batch body.
#[derive(Debug)]
pub struct EtcAccountInfo {
    pub user_id: String,
    pub password: String,
    pub name: String,
}

/// Body of `EtcScrapeBatch` / `EtcScrapeBatchQueue`.
#[derive(Debug)]
pub struct EtcBatchRequest {
    pub accounts: Vec<EtcAccountInfo>,
    pub download_path: String,
    pub headless: bool,
}

/// Body of `EtcScrapeBatchEnv` / `EtcScrapeBatchEnvQueue`.
#[derive(Debug)]
pub struct EtcBatchEnvRequest {
    pub download_path: String,
    pub headless: bool,
    pub headless_set: bool,
}

impl Default for EtcBatchEnvRequest {
    fn default() -> (r: Self)
        ensures
            r.download_path@ == Seq::<char>::empty(),
            !r.headless,
            !r.headless_set,
    {
        EtcBatchEnvRequest { download_path: String::new(), headless: false, headless_set: false }
    }
}

/// The `headless` value of a body that does not name one.
pub fn default_headless() -> (b: bool)
    ensures
        b,
{
    true
}

// ========== Response Types ==========
#[derive(Debug)]
pub struct EtcScrapeResponse {
    pub job_id: String,
    pub status: String,
    pub message: String,
}

#[derive(Debug)]
pub struct GetJobResponse {
    pub found: bool,
    pub job: Option<Job>,
}

#[derive(Debug)]
pub struct ListJobsResponse {
    pub jobs: Vec<Job>,
    pub count: i32,
}

#[derive(Debug)]
pub struct GetQueueStatusResponse {
    pub queue_length: i32,
    pub running_jobs: i32,
    pub is_idle: bool,
}

#[derive(Debug)]
pub struct ListSessionsResponse {
    pub sessions: Vec<SessionInfo>,
}

#[derive(Debug)]
pub struct SessionInfo {
    pub name: String,
    pub file_count: i32,
}

#[derive(Debug)]
pub struct ListSessionFilesResponse {
    pub session_id: String,
    pub files: Vec<FileInfo>,
}

#[derive(Debug)]
pub struct FileInfo {
    pub name: String,
    pub size: i64,
}

#[derive(Debug)]
pub struct HealthCheckResponse {
    pub status: String,
    pub version: String,
    pub uptime: i64,
}

/// A job as the JSON endpoints show it: enum values by variant name, times as
/// RFC 3339 text, absent values as empty strings or zero.
#[derive(Debug)]
pub struct Job {
    pub id: String,
    pub job_type: String,
    pub priority: String,
    pub status: String,
    pub created_at: String,
    pub started_at: String,
    pub completed_at: String,
    pub error: String,
    pub etc_result: Option<EtcScrapeResult>,
    pub batch_result: Option<EtcBatchResult>,
    pub current_account_index: i32,
}

#[derive(Debug)]
pub struct EtcScrapeResult {
    pub csv_path: String,
    pub csv_size: i32,
}

#[derive(Debug)]
pub struct EtcBatchResult {
    pub session_folder: String,
    pub accounts: Vec<AccountResult>,
    pub total_count: i32,
    pub success_count: i32,
    pub fail_count: i32,
}

#[derive(Debug)]
pub struct AccountResult {
    pub user_id: String,
    pub name: String,
    pub status: String,
    pub csv_path: String,
    pub csv_size: i32,
    pub error: String,
}

/// Whether a number is omitted from the JSON output (it is zero).
pub fn is_zero(v: &i32) -> (b: bool)
    ensures
        b == (*v == 0),
{
    *v == 0
}

// ========== Conversions ==========
/// The text of an optional string, empty when absent.
pub open spec fn text_or_empty(s: Option<String>) -> Seq<char> {
    match s {
        Some(t) => t@,
        None => Seq::empty(),
    }
}

fn string_or_empty(s: &Option<String>) -> (r: String)
    ensures
        r@ == text_or_empty(*s),
{
    match s {
        Some(t) => t.clone(),
        None => String::new(),
    }
}

/// The RFC 3339 text of an optional instant, empty when absent.
pub open spec fn time_text(t: Option<crate::clock::Timestamp>) -> Seq<char> {
    match t {
        Some(x) => rfc3339_text(x@.0, x@.1),
        None => Seq::empty(),
    }
}

fn time_string(t: &Option<crate::clock::Timestamp>) -> (r: String)
    ensures
        r@ == time_text(*t),
{
    match t {
        Some(x) => x.to_rfc3339(),
        None => String::new(),
    }
}

/// `a` is account result `src` as the JSON endpoints show it.
pub open spec fn account_shown(a: AccountResult, src: JobAccountResult) -> bool {
    &&& a.user_id@ == src.user_id@
    &&& a.name@ == src.name@
    &&& a.status@ == status_name(src.status)
    &&& a.csv_path@ == text_or_empty(src.csv_path)
    &&& a.csv_size == (match src.csv_size {
        Some(n) => n,
        None => 0,
    }) as i32
    &&& a.error@ == text_or_empty(src.error)
}

/// `r` is job model `m` as the JSON endpoints show it.
pub open spec fn job_shown(r: Job, m: JobModel) -> bool {
    &&& r.id@ == m.id@
    &&& r.job_type@ == job_type_name(m.job_type)
    &&& r.priority@ == priority_name(m.priority)
    &&& r.status@ == status_name(m.status)
    &&& r.created_at@ == rfc3339_text(m.created_at@.0, m.created_at@.1)
    &&& r.started_at@ == time_text(m.started_at)
    &&& r.completed_at@ == time_text(m.completed_at)
    &&& r.error@ == text_or_empty(m.error)
    &&& match (r.etc_result, m.etc_result) {
        (Some(a), Some(b)) => a.csv_path@ == b.csv_path@ && a.csv_size == b.csv_size as i32,
        (None, None) => true,
        _ => false,
    }
    &&& match (r.batch_result, m.batch_result) {
        (Some(a), Some(b)) => {
            &&& a.session_folder@ == b.session_folder@
            &&& a.accounts@.len() == b.accounts.len()
            &&& forall|i: int|
                0 <= i < b.accounts.len() ==> account_shown(#[trigger] a.accounts@[i], b.accounts[i])
            &&& a.total_count == b.total_count as i32
            &&& a.success_count == b.success_count as i32
            &&& a.fail_count == b.fail_count as i32
        },
        (None, None) => true,
        _ => false,
    }
    &&& r.current_account_index == (match m.current_account_index {
        Some(n) => n,
        None => 0,
    }) as i32
}

fn account_to_response(a: &JobAccountResult) -> (r: AccountResult)
    ensures
        account_shown(r, *a),
{
    AccountResult {
        user_id: a.user_id.clone(),
        name: a.name.clone(),
        status: a.status.debug_name(),
        csv_path: string_or_empty(&a.csv_path),
        csv_size: match a.csv_size {
            Some(n) => n as i32,
            None => 0,
        },
        error: string_or_empty(&a.error),
    }
}

/// The job as the JSON endpoints show it.
pub fn job_to_response(job: &JobRecord) -> (r: Job)
    ensures
        job_shown(r, job@),
{
    let etc_result = match &job.etc_result {
        Some(e) => Some(EtcScrapeResult { csv_path: e.csv_path.clone(), csv_size: e.csv_size as i32 }),
        None => None,
    };
    let batch_result = match &job.batch_result {
        Some(b) => {
            let mut accounts: Vec<AccountResult> = Vec::new();
            let mut i: usize = 0;
            while i < b.accounts.len()
                invariant
                    i <= b.accounts@.len(),
                    accounts@.len() == i,
                    forall|k: int| 0 <= k < i ==> account_shown(#[trigger] accounts@[k], b.accounts@[k]),
                decreases b.accounts@.len() - i,
            {
                accounts.push(account_to_response(&b.accounts[i]));
                i = i + 1;
            }
            Some(
                EtcBatchResult {
                    session_folder: b.session_folder.clone(),
                    accounts,
                    total_count: b.total_count as i32,
                    success_count: b.success_count as i32,
                    fail_count: b.fail_count as i32,
                },
            )
        },
        None => None,
    };
    Job {
        id: job.id.clone(),
        job_type: job.job_type.debug_name(),
        priority: job.priority.debug_name(),
        status: job.status.debug_name(),
        created_at: job.created_at.to_rfc3339(),
        started_at: time_string(&job.started_at),
        completed_at: time_string(&job.completed_at),
        error: string_or_empty(&job.error),
        etc_result,
        batch_result,
        current_account_index: match job.current_account_index {
            Some(n) => n as i32,
            None => 0,
        },
    }
}

/// `GetJob`'s answer for a lookup.
pub fn get_job_response(job: &Option<JobRecord>) -> (r: GetJobResponse)
    ensures
        r.found == job is Some,
        match (r.job, *job) {
            (Some(a), Some(b)) => job_shown(a, b@),
            (None, None) => true,
            _ => false,
        },
{
    match job {
        Some(j) => GetJobResponse { found: true, job: Some(job_to_response(j)) },
        None => GetJobResponse { found: false, job: None },
    }
}

/// `ListJobs`'s answer: every job shown, and their number.
pub fn list_jobs_response(jobs: &Vec<JobRecord>) -> (r: ListJobsResponse)
    ensures
        r.jobs@.len() == jobs@.len(),
        forall|i: int| 0 <= i < jobs@.len() ==> job_shown(#[trigger] r.jobs@[i], jobs@[i]@),
        r.count == jobs@.len() as i32,
{
    let mut out: Vec<Job> = Vec::new();
    let mut i: usize = 0;
    while i < jobs.len()
        invariant
            i <= jobs@.len(),
            out@.len() == i,
            forall|k: int| 0 <= k < i ==> job_shown(#[trigger] out@[k], jobs@[k]@),
        decreases jobs@.len() - i,
    {
        out.push(job_to_response(&jobs[i]));
        i = i + 1;
    }
    ListJobsResponse { jobs: out, count: jobs.len() as i32 }
}

/// `GetQueueStatus`'s answer.
pub fn queue_status_response(queue_length: usize, running_jobs: usize, is_idle: bool) -> (r:
    GetQueueStatusResponse)
    ensures
        r.queue_length == queue_length as i32,
        r.running_jobs == running_jobs as i32,
        r.is_idle == is_idle,
{
    GetQueueStatusResponse {
        queue_length: queue_length as i32,
        running_jobs: running_jobs as i32,
        is_idle,
    }
}

/// `HealthCheck`'s answer for an uptime in seconds.
pub fn health_check_response(uptime: i64) -> (r: HealthCheckResponse)
    ensures
        r.status@ == "healthy"@,
        r.version@ == "1.0.0"@,
        r.uptime == uptime,
{
    HealthCheckResponse {
        status: String::from_str("healthy"),
        version: String::from_str("1.0.0"),
        uptime,
    }
}

// ========== Request mapping ==========
/// The download path of a body: its own, or the default when empty.
pub open spec fn path_or_default(path: Seq<char>, default: Seq<char>) -> Seq<char> {
    if path.len() == 0 {
        default
    } else {
        path
    }
}

fn choose_path(path: String, default: &String) -> (r: String)
    ensures
        r@ == path_or_default(path@, default@),
{
    if path.as_str().is_empty() {
        default.clone()
    } else {
        path
    }
}

/// The job request of an `EtcScrape` body; an empty download path takes
/// `default_path`.
pub fn to_scrape_request(req: EtcScrapeRequest, default_path: &String) -> (r:
    crate::jobs::EtcScrapeRequest)
    ensures
        r.user_id == req.user_id,
        r.password == req.password,
        r.download_path@ == path_or_default(req.download_path@, default_path@),
        r.headless == req.headless,
{
    crate::jobs::EtcScrapeRequest {
        user_id: req.user_id,
        password: req.password,
        download_path: choose_path(req.download_path, default_path),
        headless: req.headless,
    }
}

/// The job accounts of a batch body.
pub open spec fn accounts_of(a: Seq<EtcAccountInfo>) -> Seq<crate::jobs::EtcAccountInfo> {
    a.map_values(
        |x: EtcAccountInfo|
            crate::jobs::EtcAccountInfo { user_id: x.user_id, password: x.password, name: x.name },
    )
}

/// The job request of an `EtcScrapeBatch` body; an empty download path takes
/// `default_path`.
pub fn to_batch_request(req: EtcBatchRequest, default_path: &String) -> (r:
    crate::jobs::EtcBatchRequest)
    ensures
        r@ == (EtcBatchRequestModel {
            accounts: accounts_of(req.accounts@),
            download_path: r.download_path,
            headless: req.headless,
        }),
        r.download_path@ == path_or_default(req.download_path@, default_path@),
{
    let EtcBatchRequest { accounts, download_path, headless } = req;
    let ghost input = accounts@;
    let mut out: Vec<crate::jobs::EtcAccountInfo> = Vec::new();
    let mut rest = accounts;
    while rest.len() > 0
        invariant
            rest@.len() <= input.len(),
            rest@ == input.skip(input.len() - rest@.len()),
            out@ == accounts_of(input.take(input.len() - rest@.len())),
        decreases rest@.len(),
    {
        let ghost k = input.len() - rest@.len();
        let a = rest.remove(0);
        assert(a == input[k]);
        assert(rest@ =~= input.skip(k + 1));
        out.push(crate::jobs::EtcAccountInfo { user_id: a.user_id, password: a.password, name: a.name });
        assert(accounts_of(input.take(k + 1)) =~= accounts_of(input.take(k)).push(
            crate::jobs::EtcAccountInfo {
                user_id: input[k].user_id,
                password: input[k].password,
                name: input[k].name,
            },
        ));
    }
    assert(input.take(input.len() as int) =~= input);
    crate::jobs::EtcBatchRequest {
        accounts: out,
        download_path: choose_path(download_path, default_path),
        headless,
    }
}

/// The job request of an `EtcScrapeBatchEnv` body for the accounts of the
/// environment: an empty download path takes `default_path`, and `headless`
/// counts only when `headless_set`, defaulting to true.
pub fn to_env_batch_request(
    req: EtcBatchEnvRequest,
    accounts: Vec<crate::jobs::EtcAccountInfo>,
    default_path: &String,
) -> (r: crate::jobs::EtcBatchRequest)
    ensures
        r.accounts@ == accounts@,
        r.download_path@ == path_or_default(req.download_path@, default_path@),
        r.headless == if req.headless_set {
            req.headless
        } else {
            true
        },
{
    crate::jobs::EtcBatchRequest {
        accounts,
        download_path: choose_path(req.download_path, default_path),
        headless: if req.headless_set {
            req.headless
        } else {
            true
        },
    }
}

/// The accounts of `ETC_ACCOUNTS`, refused when the list is empty.
pub fn nonempty_accounts(accounts: Vec<crate::jobs::EtcAccountInfo>) -> (r: Result<
    Vec<crate::jobs::EtcAccountInfo>,
    String,
>)
    ensures
        accounts@.len() == 0 ==> r is Err && r->Err_0@ == "ETC_ACCOUNTS is empty"@,
        accounts@.len() > 0 ==> r is Ok && r->Ok_0@ == accounts@,
{
    if accounts.len() == 0 {
        Err(String::from_str("ETC_ACCOUNTS is empty"))
    } else {
        Ok(accounts)
    }
}

// ========== Response texts ==========
/// The status word of a created job: `queued` for the queue endpoints,
/// `pending` otherwise.
pub open spec fn creation_status(queued: bool) -> Seq<char> {
    if queued {
        "queued"@
    } else {
        "pending"@
    }
}

/// `EtcScrape`'s answer for job `job_id`.
pub fn scrape_created_response(job_id: String, queued: bool) -> (r: EtcScrapeResponse)
    ensures
        r.job_id == job_id,
        r.status@ == creation_status(queued),
        r.message@ == if queued {
            "ETC scrape job queued."@
        } else {
            "ETC scrape job created."@
        },
{
    if queued {
        EtcScrapeResponse {
            job_id,
            status: String::from_str("queued"),
            message: String::from_str("ETC scrape job queued."),
        }
    } else {
        EtcScrapeResponse {
            job_id,
            status: String::from_str("pending"),
            message: String::from_str("ETC scrape job created."),
        }
    }
}

/// The message of a created batch job: `ETC batch scrape job created for <n>
/// accounts.` (`queued` in place of `created` for the queue endpoints, and
/// ` from env` before the period for the environment endpoints).
pub open spec fn batch_created_message(count: nat, queued: bool, from_env: bool) -> Seq<char> {
    "ETC batch scrape job "@ + (if queued {
        "queued"@
    } else {
        "created"@
    }) + " for "@ + decimal(count) + " accounts"@ + (if from_env {
        " from env."@
    } else {
        "."@
    })
}

/// The answer of the batch endpoints for job `job_id` over `count` accounts.
pub fn batch_created_response(job_id: String, count: usize, queued: bool, from_env: bool) -> (r:
    EtcScrapeResponse)
    ensures
        r.job_id == job_id,
        r.status@ == creation_status(queued),
        r.message@ == batch_created_message(count as nat, queued, from_env),
{
    let m = String::from_str("ETC batch scrape job ");
    let m = concat_str(m, if queued { "queued" } else { "created" });
    let m = concat_str(m, " for ");
    let m = concat_str(m, decimal_string(count as u64).as_str());
    let m = concat_str(m, " accounts");
    let m = concat_str(m, if from_env { " from env." } else { "." });
    EtcScrapeResponse {
        job_id,
        status: if queued { String::from_str("queued") } else { String::from_str("pending") },
        message: m,
    }
}

// ========== Session folders ==========
/// Checks a `ListSessionFiles` session id: the `YYYYMMDD_HHMMSS` shape first,
/// then that it cannot leave the download folder.
pub fn check_list_files_request(session_id: &str) -> (r: Result<(), String>)
    ensures
        !is_session_name(session_id@) ==> (r matches Err(m) && m@ == "Invalid session ID format"@),
        is_session_name(session_id@) && is_unsafe_component(session_id@) ==> (r matches Err(m) && m@
            == "Invalid session ID"@),
        is_session_name(session_id@) && !is_unsafe_component(session_id@) ==> r is Ok,
{
    if !session_name_ok(session_id) {
        Err(String::from_str("Invalid session ID format"))
    } else if unsafe_component(session_id) {
        Err(String::from_str("Invalid session ID"))
    } else {
        Ok(())
    }
}

/// The `ListSessions` answer for a listing (as `list_sessions` orders it):
/// each folder with its CSV count as a 32-bit number.
pub fn list_sessions_response(rows: Vec<(String, u64)>) -> (r: ListSessionsResponse)
    ensures
        r.sessions@.len() == rows@.len(),
        forall|i: int|
            0 <= i < rows@.len() ==> (#[trigger] r.sessions@[i]).name == rows@[i].0
                && r.sessions@[i].file_count == rows@[i].1 as i32,
{
    let ghost all = rows@;
    let mut out: Vec<SessionInfo> = Vec::new();
    let mut rest = rows;
    while rest.len() > 0
        invariant
            rest@.len() <= all.len(),
            rest@ == all.skip(all.len() - rest@.len()),
            out@.len() == all.len() - rest@.len(),
            forall|i: int|
                0 <= i < out@.len() ==> (#[trigger] out@[i]).name == all[i].0 && out@[i].file_count
                    == all[i].1 as i32,
        decreases rest@.len(),
    {
        let ghost k = all.len() - rest@.len();
        let (name, count) = rest.remove(0);
        assert((name, count) == all[k]);
        assert(rest@ =~= all.skip(k + 1));
        out.push(SessionInfo { name, file_count: count as i32 });
    }
    ListSessionsResponse { sessions: out }
}

/// The `ListSessionFiles` answer for a session and its CSV files (as
/// `list_session_files` orders them), sizes as signed 64-bit numbers.
pub fn list_session_files_response(session_id: String, rows: Vec<(String, u64)>) -> (r:
    ListSessionFilesResponse)
    ensures
        r.session_id == session_id,
        r.files@.len() == rows@.len(),
        forall|i: int|
            0 <= i < rows@.len() ==> (#[trigger] r.files@[i]).name == rows@[i].0 && r.files@[i].size
                == rows@[i].1 as i64,
{
    let ghost all = rows@;
    let mut out: Vec<FileInfo> = Vec::new();
    let mut rest = rows;
    while rest.len() > 0
        invariant
            rest@.len() <= all.len(),
            rest@ == all.skip(all.len() - rest@.len()),
            out@.len() == all.len() - rest@.len(),
            forall|i: int|
                0 <= i < out@.len() ==> (#[trigger] out@[i]).name == all[i].0 && out@[i].size
                    == all[i].1 as i64,
        decreases rest@.len(),
    {
        let ghost k = all.len() - rest@.len();
        let (name, size) = rest.remove(0);
        assert((name, size) == all[k]);
        assert(rest@ =~= all.skip(k + 1));
        out.push(FileInfo { name, size: size as i64 });
    }
    ListSessionFilesResponse { session_id, files: out }
}

} // verus!
