//! The background job table and queue.
//!
//! Jobs are kept by id. Low-priority jobs wait in a FIFO queue until no job is
//! running; other jobs are handed to a worker at once. Vehicle jobs hold a
//! single vehicle slot in turn, first come first served, so that at most one
//! of them runs at a time. A batch job's accounts are handed out one at a
//! time and in order by its `BatchRun`. Workers report each step of a job
//! back through the transition methods below, which decide how the job
//! record changes.
use std::collections::VecDeque;
use vstd::prelude::*;

use crate::browser::HonoApiResponse;
use crate::clock::{
    compact_pattern, four_digit_local_year, later_than, local_time_text, now, Timestamp, JST_OFFSET_SECS,
};
use crate::server::http::{is_session_name, lemma_compact_is_session_name};
use crate::config::Config;
use crate::text::{concat_str, decimal, decimal_string, push_char};
use vstd::set_lib::{lemma_int_range, lemma_len_subset, set_int_range};

verus! {

/// Job type enum
#[derive(Debug, Clone, Copy, PartialEq, Eq, Structural)]
pub enum JobType {
    Vehicle,
    EtcScrape,
    EtcScrapeBatch,
}

/// The display text of a job type.
pub open spec fn job_type_text(t: JobType) -> Seq<char> {
    match t {
        JobType::Vehicle => "vehicle"@,
        JobType::EtcScrape => "etc_scrape"@,
        JobType::EtcScrapeBatch => "etc_scrape_batch"@,
    }
}

/// The debug text (variant name) of a job type.
pub open spec fn job_type_name(t: JobType) -> Seq<char> {
    match t {
        JobType::Vehicle => "Vehicle"@,
        JobType::EtcScrape => "EtcScrape"@,
        JobType::EtcScrapeBatch => "EtcScrapeBatch"@,
    }
}

impl JobType {
    /// The display text: `vehicle`, `etc_scrape` or `etc_scrape_batch`.
    pub fn to_string(&self) -> (s: String)
        ensures
            s@ == job_type_text(*self),
    {
        match self {
            JobType::Vehicle => String::from_str("vehicle"),
            JobType::EtcScrape => String::from_str("etc_scrape"),
            JobType::EtcScrapeBatch => String::from_str("etc_scrape_batch"),
        }
    }

    /// The variant name, as `{:?}` prints it.
    pub fn debug_name(&self) -> (s: String)
        ensures
            s@ == job_type_name(*self),
    {
        match self {
            JobType::Vehicle => String::from_str("Vehicle"),
            JobType::EtcScrape => String::from_str("EtcScrape"),
            JobType::EtcScrapeBatch => String::from_str("EtcScrapeBatch"),
        }
    }
}

/// Job priority enum
#[derive(Debug, Clone, Copy, PartialEq, Eq, Structural, PartialOrd, Ord)]
pub enum JobPriority {
    /// Run when idle
    Low,
    /// Normal priority
    Normal,
    /// Run immediately
    High,
}

impl Default for JobPriority {
    fn default() -> (p: Self)
        ensures
            p == JobPriority::Normal,
    {
        JobPriority::Normal
    }
}

/// The debug text (variant name) of a priority.
pub open spec fn priority_name(p: JobPriority) -> Seq<char> {
    match p {
        JobPriority::Low => "Low"@,
        JobPriority::Normal => "Normal"@,
        JobPriority::High => "High"@,
    }
}

impl JobPriority {
    /// Jobs of every priority but `Low` start as soon as they are created.
    pub fn starts_immediately(&self) -> (b: bool)
        ensures
            b == (*self != JobPriority::Low),
    {
        !matches!(self, JobPriority::Low)
    }

    /// The variant name, as `{:?}` prints it.
    pub fn debug_name(&self) -> (s: String)
        ensures
            s@ == priority_name(*self),
    {
        match self {
            JobPriority::Low => String::from_str("Low"),
            JobPriority::Normal => String::from_str("Normal"),
            JobPriority::High => String::from_str("High"),
        }
    }
}

/// Job status enum
#[derive(Debug, Clone, Copy, PartialEq, Eq, Structural)]
pub enum JobStatus {
    Pending,
    Queued,
    Running,
    Completed,
    Failed,
}

/// The display text of a status.
pub open spec fn status_text(s: JobStatus) -> Seq<char> {
    match s {
        JobStatus::Pending => "pending"@,
        JobStatus::Queued => "queued"@,
        JobStatus::Running => "running"@,
        JobStatus::Completed => "completed"@,
        JobStatus::Failed => "failed"@,
    }
}

/// The debug text (variant name) of a status.
pub open spec fn status_name(s: JobStatus) -> Seq<char> {
    match s {
        JobStatus::Pending => "Pending"@,
        JobStatus::Queued => "Queued"@,
        JobStatus::Running => "Running"@,
        JobStatus::Completed => "Completed"@,
        JobStatus::Failed => "Failed"@,
    }
}

impl JobStatus {
    /// The display text: `pending`, `queued`, `running`, `completed` or `failed`.
    pub fn to_string(&self) -> (s: String)
        ensures
            s@ == status_text(*self),
    {
        match self {
            JobStatus::Pending => String::from_str("pending"),
            JobStatus::Queued => String::from_str("queued"),
            JobStatus::Running => String::from_str("running"),
            JobStatus::Completed => String::from_str("completed"),
            JobStatus::Failed => String::from_str("failed"),
        }
    }

    /// The variant name, as `{:?}` prints it.
    pub fn debug_name(&self) -> (s: String)
        ensures
            s@ == status_name(*self),
    {
        match self {
            JobStatus::Pending => String::from_str("Pending"),
            JobStatus::Queued => String::from_str("Queued"),
            JobStatus::Running => String::from_str("Running"),
            JobStatus::Completed => String::from_str("Completed"),
            JobStatus::Failed => String::from_str("Failed"),
        }
    }
}

/// ETC scrape request data
#[derive(Debug)]
pub struct EtcScrapeRequest {
    pub user_id: String,
    pub password: String,
    pub download_path: String,
    pub headless: bool,
}

impl Clone for EtcScrapeRequest {
    fn clone(&self) -> (r: Self)
        ensures
            r == *self,
    {
        EtcScrapeRequest {
            user_id: self.user_id.clone(),
            password: self.password.clone(),
            download_path: self.download_path.clone(),
            headless: self.headless,
        }
    }
}

/// ETC scrape result data
#[derive(Debug)]
pub struct EtcScrapeResult {
    pub csv_path: String,
    pub csv_size: usize,
}

impl Clone for EtcScrapeResult {
    fn clone(&self) -> (r: Self)
        ensures
            r == *self,
    {
        EtcScrapeResult { csv_path: self.csv_path.clone(), csv_size: self.csv_size }
    }
}

/// Account info for batch request
#[derive(Debug)]
pub struct EtcAccountInfo {
    pub user_id: String,
    pub password: String,
    pub name: String,
}

impl Clone for EtcAccountInfo {
    fn clone(&self) -> (r: Self)
        ensures
            r == *self,
    {
        EtcAccountInfo {
            user_id: self.user_id.clone(),
            password: self.password.clone(),
            name: self.name.clone(),
        }
    }
}

/// The name an account is reported under: its name, or its user id when the
/// name is empty.
pub open spec fn account_display_name(a: EtcAccountInfo) -> String {
    if a.name@.len() == 0 {
        a.user_id
    } else {
        a.name
    }
}

impl EtcAccountInfo {
    /// The name the account is reported under.
    pub fn display_name(&self) -> (n: String)
        ensures
            n == account_display_name(*self),
    {
        if self.name.as_str().is_empty() {
            self.user_id.clone()
        } else {
            self.name.clone()
        }
    }
}

/// ETC batch scrape request data
#[derive(Debug)]
pub struct EtcBatchRequest {
    pub accounts: Vec<EtcAccountInfo>,
    pub download_path: String,
    pub headless: bool,
}

/// The value of an [`EtcBatchRequest`], with its accounts as a sequence.
pub ghost struct EtcBatchRequestModel {
    pub accounts: Seq<EtcAccountInfo>,
    pub download_path: String,
    pub headless: bool,
}

impl View for EtcBatchRequest {
    type V = EtcBatchRequestModel;

    open spec fn view(&self) -> EtcBatchRequestModel {
        EtcBatchRequestModel {
            accounts: self.accounts@,
            download_path: self.download_path,
            headless: self.headless,
        }
    }
}

/// A copy of a vector of items whose clones equal them.
fn clone_accounts(v: &Vec<EtcAccountInfo>) -> (r: Vec<EtcAccountInfo>)
    ensures
        r@ == v@,
{
    let mut r: Vec<EtcAccountInfo> = Vec::new();
    let mut i: usize = 0;
    while i < v.len()
        invariant
            i <= v.len(),
            r@ == v@.take(i as int),
        decreases v.len() - i,
    {
        r.push(v[i].clone());
        assert(v@.take(i + 1) =~= v@.take(i as int).push(v@[i as int]));
        i = i + 1;
    }
    assert(v@.take(v.len() as int) =~= v@);
    r
}

impl Clone for EtcBatchRequest {
    fn clone(&self) -> (r: Self)
        ensures
            r@ == self@,
    {
        EtcBatchRequest {
            accounts: clone_accounts(&self.accounts),
            download_path: self.download_path.clone(),
            headless: self.headless,
        }
    }
}

/// Result for a single account in a batch job
#[derive(Debug)]
pub struct AccountResult {
    pub user_id: String,
    pub name: String,
    pub status: JobStatus,
    pub csv_path: Option<String>,
    pub csv_size: Option<usize>,
    pub error: Option<String>,
}

impl Clone for AccountResult {
    fn clone(&self) -> (r: Self)
        ensures
            r == *self,
    {
        AccountResult {
            user_id: self.user_id.clone(),
            name: self.name.clone(),
            status: self.status,
            csv_path: self.csv_path.clone(),
            csv_size: self.csv_size,
            error: self.error.clone(),
        }
    }
}

/// A change of an account's result, as its setters make it.
#[derive(Debug)]
pub enum AccountChange {
    /// `set_running`
    Running,
    /// `set_completed(csv_path, csv_size)`
    Completed(String, usize),
    /// `set_failed(error)`
    Failed(String),
}

/// The result after one change.
pub open spec fn account_change(a: AccountResult, c: AccountChange) -> AccountResult {
    match c {
        AccountChange::Running => AccountResult { status: JobStatus::Running, ..a },
        AccountChange::Completed(p, n) => AccountResult {
            status: JobStatus::Completed,
            csv_path: Some(p),
            csv_size: Some(n),
            ..a
        },
        AccountChange::Failed(e) => AccountResult { status: JobStatus::Failed, error: Some(e), ..a },
    }
}

/// The result after a sequence of changes, in order.
pub open spec fn account_after(a: AccountResult, cs: Seq<AccountChange>) -> AccountResult
    decreases cs.len(),
{
    if cs.len() == 0 {
        a
    } else {
        account_change(account_after(a, cs.drop_last()), cs.last())
    }
}

/// The fresh result of an account.
pub open spec fn fresh_account(user_id: String, name: String) -> AccountResult {
    AccountResult {
        user_id,
        name,
        status: JobStatus::Pending,
        csv_path: None,
        csv_size: None,
        error: None,
    }
}

/// Whatever the setters do to a fresh account result, it keeps its user and
/// name; a completed account has its CSV path and size, a failed one its
/// error; it is pending exactly while no setter has run, and then nothing is
/// recorded.
pub proof fn law_account_result_states(user_id: String, name: String, cs: Seq<AccountChange>)
    ensures
        ({
            let r = account_after(fresh_account(user_id, name), cs);
            &&& r.user_id == user_id
            &&& r.name == name
            &&& r.status == JobStatus::Completed ==> r.csv_path is Some && r.csv_size is Some
            &&& r.status == JobStatus::Failed ==> r.error is Some
            &&& (r.status == JobStatus::Pending <==> cs.len() == 0)
            &&& cs.len() == 0 ==> r.csv_path is None && r.csv_size is None && r.error is None
        }),
    decreases cs.len(),
{
    if cs.len() > 0 {
        law_account_result_states(user_id, name, cs.drop_last());
    }
}

impl AccountResult {
    /// A pending result with nothing recorded yet.
    pub fn new(user_id: String, name: String) -> (r: Self)
        ensures
            r == fresh_account(user_id, name),
    {
        Self { user_id, name, status: JobStatus::Pending, csv_path: None, csv_size: None, error: None }
    }

    /// Marks the account as being scraped.
    pub fn set_running(&mut self)
        ensures
            *final(self) == (AccountResult { status: JobStatus::Running, ..*old(self) }),
            *final(self) == account_change(*old(self), AccountChange::Running),
    {
        self.status = JobStatus::Running;
    }

    /// Records a downloaded CSV file.
    pub fn set_completed(&mut self, csv_path: String, csv_size: usize)
        ensures
            *final(self) == (AccountResult {
                status: JobStatus::Completed,
                csv_path: Some(csv_path),
                csv_size: Some(csv_size),
                ..*old(self)
            }),
            *final(self) == account_change(*old(self), AccountChange::Completed(csv_path, csv_size)),
    {
        self.status = JobStatus::Completed;
        self.csv_path = Some(csv_path);
        self.csv_size = Some(csv_size);
    }

    /// Records a failure.
    pub fn set_failed(&mut self, error: String)
        ensures
            *final(self) == (AccountResult {
                status: JobStatus::Failed,
                error: Some(error),
                ..*old(self)
            }),
            *final(self) == account_change(*old(self), AccountChange::Failed(error)),
    {
        self.status = JobStatus::Failed;
        self.error = Some(error);
    }
}

/// ETC batch scrape result data
#[derive(Debug)]
pub struct EtcBatchResult {
    pub session_folder: String,
    pub accounts: Vec<AccountResult>,
    pub total_count: usize,
    pub success_count: usize,
    pub fail_count: usize,
}

/// The value of an [`EtcBatchResult`], with its accounts as a sequence.
pub ghost struct EtcBatchResultModel {
    pub session_folder: String,
    pub accounts: Seq<AccountResult>,
    pub total_count: usize,
    pub success_count: usize,
    pub fail_count: usize,
}

impl View for EtcBatchResult {
    type V = EtcBatchResultModel;

    open spec fn view(&self) -> EtcBatchResultModel {
        EtcBatchResultModel {
            session_folder: self.session_folder,
            accounts: self.accounts@,
            total_count: self.total_count,
            success_count: self.success_count,
            fail_count: self.fail_count,
        }
    }
}

fn clone_account_results(v: &Vec<AccountResult>) -> (r: Vec<AccountResult>)
    ensures
        r@ == v@,
{
    let mut r: Vec<AccountResult> = Vec::new();
    let mut i: usize = 0;
    while i < v.len()
        invariant
            i <= v.len(),
            r@ == v@.take(i as int),
        decreases v.len() - i,
    {
        r.push(v[i].clone());
        assert(v@.take(i + 1) =~= v@.take(i as int).push(v@[i as int]));
        i = i + 1;
    }
    assert(v@.take(v.len() as int) =~= v@);
    r
}

impl Clone for EtcBatchResult {
    fn clone(&self) -> (r: Self)
        ensures
            r@ == self@,
    {
        EtcBatchResult {
            session_folder: self.session_folder.clone(),
            accounts: clone_account_results(&self.accounts),
            total_count: self.total_count,
            success_count: self.success_count,
            fail_count: self.fail_count,
        }
    }
}

/// Job data structure
#[derive(Debug)]
pub struct Job {
    pub id: String,
    pub job_type: JobType,
    pub priority: JobPriority,
    pub status: JobStatus,
    pub created_at: Timestamp,
    pub started_at: Option<Timestamp>,
    pub completed_at: Option<Timestamp>,
    pub error: Option<String>,
    // Vehicle job specific
    pub vehicle_count: Option<i32>,
    pub hono_response: Option<HonoApiResponse>,
    // ETC scrape job specific
    pub etc_request: Option<EtcScrapeRequest>,
    pub etc_result: Option<EtcScrapeResult>,
    // ETC batch scrape job specific
    pub batch_request: Option<EtcBatchRequest>,
    pub batch_result: Option<EtcBatchResult>,
    /// Current account index (for batch jobs)
    pub current_account_index: Option<usize>,
}

/// The value of a [`Job`], with its batch parts as models.
pub ghost struct JobModel {
    pub id: String,
    pub job_type: JobType,
    pub priority: JobPriority,
    pub status: JobStatus,
    pub created_at: Timestamp,
    pub started_at: Option<Timestamp>,
    pub completed_at: Option<Timestamp>,
    pub error: Option<String>,
    pub vehicle_count: Option<i32>,
    pub hono_response: Option<HonoApiResponse>,
    pub etc_request: Option<EtcScrapeRequest>,
    pub etc_result: Option<EtcScrapeResult>,
    pub batch_request: Option<EtcBatchRequestModel>,
    pub batch_result: Option<EtcBatchResultModel>,
    pub current_account_index: Option<usize>,
}

/// The model of an optional batch request.
pub open spec fn batch_request_model(r: Option<EtcBatchRequest>) -> Option<EtcBatchRequestModel> {
    match r {
        Some(b) => Some(b@),
        None => None,
    }
}

/// The model of an optional batch result.
pub open spec fn batch_result_model(r: Option<EtcBatchResult>) -> Option<EtcBatchResultModel> {
    match r {
        Some(b) => Some(b@),
        None => None,
    }
}

impl View for Job {
    type V = JobModel;

    open spec fn view(&self) -> JobModel {
        JobModel {
            id: self.id,
            job_type: self.job_type,
            priority: self.priority,
            status: self.status,
            created_at: self.created_at,
            started_at: self.started_at,
            completed_at: self.completed_at,
            error: self.error,
            vehicle_count: self.vehicle_count,
            hono_response: self.hono_response,
            etc_request: self.etc_request,
            etc_result: self.etc_result,
            batch_request: batch_request_model(self.batch_request),
            batch_result: batch_result_model(self.batch_result),
            current_account_index: self.current_account_index,
        }
    }
}

impl Clone for Job {
    fn clone(&self) -> (r: Self)
        ensures
            r@ == self@,
    {
        Job {
            id: self.id.clone(),
            job_type: self.job_type,
            priority: self.priority,
            status: self.status,
            created_at: self.created_at,
            started_at: self.started_at,
            completed_at: self.completed_at,
            error: self.error.clone(),
            vehicle_count: self.vehicle_count,
            hono_response: match &self.hono_response {
                Some(h) => Some(h.clone()),
                None => None,
            },
            etc_request: match &self.etc_request {
                Some(r) => Some(r.clone()),
                None => None,
            },
            etc_result: match &self.etc_result {
                Some(r) => Some(r.clone()),
                None => None,
            },
            batch_request: match &self.batch_request {
                Some(r) => Some(r.clone()),
                None => None,
            },
            batch_result: match &self.batch_result {
                Some(r) => Some(r.clone()),
                None => None,
            },
            current_account_index: self.current_account_index,
        }
    }
}


// ---------------------------------------------------------------------------
// The job table
// ---------------------------------------------------------------------------

/// The jobs of a list, by id; a later entry with the same id replaces an
/// earlier one.
pub open spec fn jobs_by_id(s: Seq<JobModel>) -> Map<Seq<char>, JobModel>
    decreases s.len(),
{
    if s.len() == 0 {
        Map::empty()
    } else {
        jobs_by_id(s.drop_last()).insert(s.last().id@, s.last())
    }
}

/// No two entries share an id.
pub open spec fn distinct_ids(s: Seq<JobModel>) -> bool {
    forall|i: int, j: int| 0 <= i < j < s.len() ==> s[i].id@ != s[j].id@
}

/// The models of a list of jobs.
pub open spec fn job_models(s: Seq<Job>) -> Seq<JobModel> {
    s.map_values(|j: Job| j@)
}

proof fn lemma_jobs_by_id_contents(s: Seq<JobModel>)
    requires
        distinct_ids(s),
    ensures
        forall|i: int| 0 <= i < s.len() ==> #[trigger] jobs_by_id(s).contains_key(s[i].id@)
            && jobs_by_id(s)[s[i].id@] == s[i],
        forall|id: Seq<char>| #[trigger]
            jobs_by_id(s).contains_key(id) ==> exists|i: int| 0 <= i < s.len() && s[i].id@ == id,
    decreases s.len(),
{
    if s.len() > 0 {
        let t = s.drop_last();
        assert(distinct_ids(t));
        lemma_jobs_by_id_contents(t);
        assert forall|i: int| 0 <= i < s.len() implies #[trigger] jobs_by_id(s).contains_key(
            s[i].id@,
        ) && jobs_by_id(s)[s[i].id@] == s[i] by {
            if i < s.len() - 1 {
                assert(t[i] == s[i]);
                assert(s[i].id@ != s.last().id@);
                assert(jobs_by_id(t).contains_key(t[i].id@));
                assert(jobs_by_id(t)[t[i].id@] == t[i]);
            }
        }
        assert forall|id: Seq<char>| #[trigger]
            jobs_by_id(s).contains_key(id) implies exists|i: int|
            0 <= i < s.len() && s[i].id@ == id by {
            if id != s.last().id@ {
                assert(jobs_by_id(t).contains_key(id));
                let i = choose|i: int| 0 <= i < t.len() && t[i].id@ == id;
                assert(s[i] == t[i]);
            } else {
                assert(s[s.len() - 1].id@ == id);
            }
        }
    }
}

/// Every job of a table is filed under its own id.
pub proof fn lemma_jobs_by_id_keys(s: Seq<JobModel>)
    ensures
        forall|k: Seq<char>| #[trigger]
            jobs_by_id(s).contains_key(k) ==> jobs_by_id(s)[k].id@ == k,
    decreases s.len(),
{
    if s.len() > 0 {
        lemma_jobs_by_id_keys(s.drop_last());
    }
}

proof fn lemma_jobs_by_id_absent(s: Seq<JobModel>, id: Seq<char>)
    requires
        forall|i: int| 0 <= i < s.len() ==> s[i].id@ != id,
    ensures
        !jobs_by_id(s).contains_key(id),
    decreases s.len(),
{
    if s.len() > 0 {
        lemma_jobs_by_id_absent(s.drop_last(), id);
    }
}

proof fn lemma_jobs_by_id_update(s: Seq<JobModel>, k: int, x: JobModel)
    requires
        distinct_ids(s),
        0 <= k < s.len(),
        s[k].id@ == x.id@,
    ensures
        distinct_ids(s.update(k, x)),
        jobs_by_id(s.update(k, x)) == jobs_by_id(s).insert(x.id@, x),
    decreases s.len(),
{
    let u = s.update(k, x);
    assert(distinct_ids(u)) by {
        assert forall|i: int, j: int| 0 <= i < j < u.len() implies u[i].id@ != u[j].id@ by {
            assert(s[i].id@ != s[j].id@);
        }
    }
    if k == s.len() - 1 {
        assert(u.drop_last() =~= s.drop_last());
        assert(jobs_by_id(u) =~= jobs_by_id(s).insert(x.id@, x));
    } else {
        let t = s.drop_last();
        lemma_jobs_by_id_update(t, k, x);
        assert(u.drop_last() =~= t.update(k, x));
        assert(s.last().id@ != x.id@);
        assert(jobs_by_id(u) =~= jobs_by_id(s).insert(x.id@, x));
    }
}

proof fn lemma_jobs_by_id_push(s: Seq<JobModel>, x: JobModel)
    requires
        distinct_ids(s),
        forall|i: int| 0 <= i < s.len() ==> s[i].id@ != x.id@,
    ensures
        distinct_ids(s.push(x)),
        jobs_by_id(s.push(x)) == jobs_by_id(s).insert(x.id@, x),
{
    assert(s.push(x).drop_last() =~= s);
}

proof fn lemma_jobs_by_id_remove(s: Seq<JobModel>, k: int)
    requires
        distinct_ids(s),
        0 <= k < s.len(),
    ensures
        distinct_ids(s.remove(k)),
        jobs_by_id(s.remove(k)) == jobs_by_id(s).remove(s[k].id@),
    decreases s.len(),
{
    let r = s.remove(k);
    assert(distinct_ids(r)) by {
        assert forall|i: int, j: int| 0 <= i < j < r.len() implies r[i].id@ != r[j].id@ by {
            let si = if i < k { i } else { i + 1 };
            let sj = if j < k { j } else { j + 1 };
            assert(r[i] == s[si]);
            assert(r[j] == s[sj]);
        }
    }
    if k == s.len() - 1 {
        assert(r =~= s.drop_last());
        lemma_jobs_by_id_absent(s.drop_last(), s[k].id@);
        assert(jobs_by_id(r) =~= jobs_by_id(s).remove(s[k].id@));
    } else {
        let t = s.drop_last();
        lemma_jobs_by_id_remove(t, k);
        assert(r.drop_last() =~= t.remove(k));
        assert(r.last() == s.last());
        assert(s.last().id@ != s[k].id@);
        assert(jobs_by_id(r) =~= jobs_by_id(s).remove(s[k].id@));
    }
}

/// The position of the job `id` in `jobs`.
fn find_in(jobs: &Vec<Job>, id: &str) -> (r: Option<usize>)
    ensures
        match r {
            Some(k) => k < jobs@.len() && jobs@[k as int].id@ == id@,
            None => forall|k: int| 0 <= k < jobs@.len() ==> jobs@[k].id@ != id@,
        },
{
    let key = String::from_str(id);
    let mut k: usize = 0;
    while k < jobs.len()
        invariant
            k <= jobs@.len(),
            key@ == id@,
            forall|i: int| 0 <= i < k ==> jobs@[i].id@ != id@,
        decreases jobs@.len() - k,
    {
        if jobs[k].id == key {
            return Some(k);
        }
        k = k + 1;
    }
    None
}

/// Queued job entry
#[derive(Debug)]
struct QueuedJob {
    id: String,
    priority: JobPriority,
}

/// Job manager for handling background jobs
pub struct JobManager {
    jobs: Vec<Job>,
    queue: VecDeque<QueuedJob>,
    config: Config,
    running_count: usize,
    /// The vehicle job allowed to run; vehicle jobs run one at a time.
    vehicle_slot: Option<String>,
    /// Vehicle jobs waiting for the slot, first come first served.
    vehicle_waiting: VecDeque<String>,
}

/// A vehicle job that is running.
pub open spec fn runs_vehicle(m: JobModel) -> bool {
    m.job_type == JobType::Vehicle && m.status == JobStatus::Running
}

/// The text of an optional string.
pub open spec fn opt_text(o: Option<String>) -> Option<Seq<char>> {
    match o {
        Some(s) => Some(s@),
        None => None,
    }
}

/// Whether a worker may mark job `m`, filed under `id`, running: any job but
/// a vehicle job that does not hold the vehicle slot.
pub open spec fn may_run(m: JobModel, holder: Option<Seq<char>>, id: Seq<char>) -> bool {
    m.job_type != JobType::Vehicle || holder == Some(id)
}

/// Only the holder of the vehicle slot may be a running vehicle job.
pub open spec fn vehicle_runs_alone(jobs: Map<Seq<char>, JobModel>, holder: Option<Seq<char>>) -> bool {
    forall|k: Seq<char>| #[trigger] jobs.contains_key(k) && runs_vehicle(jobs[k]) ==> holder == Some(k)
}

/// A job ready for a worker, with what the worker needs.
#[derive(Debug)]
#[allow(inconsistent_fields)]
pub enum JobTask {
    /// Run an ETC scrape for `request`.
    Etc { job_id: String, request: EtcScrapeRequest },
    /// Run an ETC batch scrape, downloading into `session_folder`.
    EtcBatch { job_id: String, request: EtcBatchRequest, session_folder: String },
}

/// The task that runs the job, when it is an ETC job with its request (and,
/// for a batch, its session folder) recorded.
pub open spec fn task_for(task: Option<JobTask>, m: JobModel) -> bool {
    match m.job_type {
        JobType::EtcScrape => match m.etc_request {
            Some(req) => task == Some(JobTask::Etc { job_id: m.id, request: req }),
            None => task is None,
        },
        JobType::EtcScrapeBatch => match (m.batch_request, m.batch_result) {
            (Some(req), Some(res)) => match task {
                Some(JobTask::EtcBatch { job_id, request, session_folder }) => job_id == m.id
                    && request@ == req && session_folder == res.session_folder,
                _ => false,
            },
            _ => task is None,
        },
        JobType::Vehicle => task is None,
    }
}

/// The id of the job a task runs.
pub open spec fn task_id(t: JobTask) -> Seq<char> {
    match t {
        JobTask::Etc { job_id, .. } => job_id@,
        JobTask::EtcBatch { job_id, .. } => job_id@,
    }
}

/// The status a new job starts in: low-priority jobs wait in the queue.
pub open spec fn initial_status(p: JobPriority) -> JobStatus {
    if p == JobPriority::Low {
        JobStatus::Queued
    } else {
        JobStatus::Pending
    }
}

/// A fresh job record: nothing but its identity, kind, priority, status and
/// creation time.
pub open spec fn fresh_job(
    id: String,
    job_type: JobType,
    priority: JobPriority,
    status: JobStatus,
    created_at: Timestamp,
) -> JobModel {
    JobModel {
        id,
        job_type,
        priority,
        status,
        created_at,
        started_at: None,
        completed_at: None,
        error: None,
        vehicle_count: None,
        hono_response: None,
        etc_request: None,
        etc_result: None,
        batch_request: None,
        batch_result: None,
        current_account_index: None,
    }
}

/// The pending result of each account of a batch, named by its display name.
pub open spec fn initial_account_results(accounts: Seq<EtcAccountInfo>) -> Seq<AccountResult> {
    accounts.map_values(
        |a: EtcAccountInfo|
            AccountResult {
                user_id: a.user_id,
                name: account_display_name(a),
                status: JobStatus::Pending,
                csv_path: None,
                csv_size: None,
                error: None,
            },
    )
}

/// The session folder of a batch: the download path, a slash, and the JST
/// creation time as `YYYYMMDD_HHMMSS`.
pub open spec fn session_folder_text(download_path: Seq<char>, created: Timestamp) -> Seq<char> {
    download_path + "/"@ + local_time_text(created@.0, created@.1, JST_OFFSET_SECS, compact_pattern())
}

/// `m` is the record of a newly created batch job `id` for `request`.
pub open spec fn is_new_batch_job(m: JobModel, id: String, request: EtcBatchRequestModel, priority: JobPriority) -> bool {
    &&& m.batch_result is Some
    &&& m.batch_result->0.session_folder@ == session_folder_text(request.download_path@, m.created_at)
    &&& m == JobModel {
        batch_request: Some(request),
        batch_result: Some(
            EtcBatchResultModel {
                session_folder: m.batch_result->0.session_folder,
                accounts: initial_account_results(request.accounts),
                total_count: request.accounts.len() as usize,
                success_count: 0,
                fail_count: 0,
            },
        ),
        current_account_index: Some(0),
        ..fresh_job(id, JobType::EtcScrapeBatch, priority, initial_status(priority), m.created_at)
    }
}

/// What a vehicle scrape produced.
#[derive(Debug)]
pub struct VehicleRun {
    /// Number of vehicles extracted.
    pub vehicle_count: usize,
    /// Reply of rust-logi, when the data was sent there.
    pub hono_response: Option<HonoApiResponse>,
}

/// The outcome of scraping one account of a batch.
#[derive(Debug)]
pub enum AccountOutcome {
    /// A CSV file was downloaded.
    Downloaded { csv_path: String, csv_size: usize },
    /// The account has no usage data; counted as a success.
    NoUsageData(String),
    /// The scrape failed with this message.
    Failed(String),
}

/// Counts of the accounts of a batch processed so far.
#[derive(Debug, Clone, Copy, PartialEq, Eq, Structural)]
pub struct BatchProgress {
    pub success_count: usize,
    pub fail_count: usize,
}

impl BatchProgress {
    /// No account processed yet.
    pub fn new() -> (p: Self)
        ensures
            p.success_count == 0 && p.fail_count == 0,
    {
        BatchProgress { success_count: 0, fail_count: 0 }
    }
}

/// `after` is the recorded result of account `before` once `outcome` is in:
/// a download records its file, an account without usage data is completed
/// with `skipped: <message>` as its path and size 0, a failure records its
/// message.
pub open spec fn account_recorded(before: AccountResult, after: AccountResult, outcome: AccountOutcome) -> bool {
    match outcome {
        AccountOutcome::Downloaded { csv_path, csv_size } => after == AccountResult {
            status: JobStatus::Completed,
            csv_path: Some(csv_path),
            csv_size: Some(csv_size),
            ..before
        },
        AccountOutcome::NoUsageData(msg) => {
            &&& after.csv_path is Some
            &&& after.csv_path->0@ == skipped_text(msg@)
            &&& after == AccountResult {
                status: JobStatus::Completed,
                csv_path: after.csv_path,
                csv_size: Some(0),
                ..before
            }
        },
        AccountOutcome::Failed(e) => after == AccountResult {
            status: JobStatus::Failed,
            error: Some(e),
            ..before
        },
    }
}

/// The text recorded as the CSV path of an account without usage data.
pub open spec fn skipped_text(msg: Seq<char>) -> Seq<char> {
    "skipped: "@ + msg
}

/// The counts after one more account.
pub open spec fn progress_after(p: BatchProgress, outcome: AccountOutcome) -> BatchProgress {
    match outcome {
        AccountOutcome::Failed(_) => BatchProgress { fail_count: (p.fail_count + 1) as usize, ..p },
        _ => BatchProgress { success_count: (p.success_count + 1) as usize, ..p },
    }
}

/// Each recorded account adds one to exactly one of the two counts: to the
/// failures when it failed, to the successes otherwise (a download, or an
/// account without usage data).
pub proof fn law_progress_counts_each_account_once(p: BatchProgress, outcome: AccountOutcome)
    requires
        p.success_count < usize::MAX,
        p.fail_count < usize::MAX,
    ensures
        progress_after(p, outcome).success_count + progress_after(p, outcome).fail_count
            == p.success_count + p.fail_count + 1,
        (progress_after(p, outcome).fail_count == p.fail_count + 1) <==> outcome is Failed,
{
}

/// The number of accounts of a batch job, as recorded in its result (none
/// without one).
pub open spec fn batch_total(m: JobModel) -> usize {
    match m.batch_result {
        Some(r) => r.total_count,
        None => 0,
    }
}

/// The error recorded on a batch with failed accounts.
pub open spec fn batch_failure_text(fail_count: nat, total: nat) -> Seq<char> {
    decimal(fail_count) + " of "@ + decimal(total) + " accounts failed"@
}

impl JobManager {
    #[verifier::type_invariant]
    closed spec fn inv(self) -> bool {
        &&& distinct_ids(job_models(self.jobs@))
        &&& vehicle_runs_alone(jobs_by_id(job_models(self.jobs@)), opt_text(self.vehicle_slot))
        &&& self.vehicle_slot is None ==> self.vehicle_waiting@.len() == 0
    }

    /// The vehicle job holding the vehicle slot.
    pub closed spec fn vehicle_holder(&self) -> Option<Seq<char>> {
        opt_text(self.vehicle_slot)
    }

    /// The vehicle jobs waiting for the slot, in order of arrival.
    pub closed spec fn vehicle_line(&self) -> Seq<Seq<char>> {
        self.vehicle_waiting@.map_values(|s: String| s@)
    }

    /// The jobs, by id.
    pub closed spec fn jobs(&self) -> Map<Seq<char>, JobModel> {
        jobs_by_id(job_models(self.jobs@))
    }

    /// The ids of the queued jobs, oldest first.
    pub closed spec fn queued(&self) -> Seq<Seq<char>> {
        self.queue@.map_values(|q: QueuedJob| q.id@)
    }

    /// The number of jobs running.
    pub closed spec fn running(&self) -> nat {
        self.running_count as nat
    }

    /// The configuration the manager was made with.
    pub closed spec fn config_spec(&self) -> Config {
        self.config
    }

    /// Every job of the table is filed under its own id: the record found
    /// under `id` has that id.
    pub proof fn law_jobs_keyed_by_id(&self)
        ensures
            forall|k: Seq<char>| #[trigger] self.jobs().contains_key(k) ==> self.jobs()[k].id@ == k,
    {
        lemma_jobs_by_id_keys(job_models(self.jobs@));
    }

    /// Create a new job manager
    pub fn new(config: Config) -> (m: Self)
        ensures
            m.jobs() == Map::<Seq<char>, JobModel>::empty(),
            m.queued() == Seq::<Seq<char>>::empty(),
            m.running() == 0,
            m.config_spec() == config,
            m.vehicle_holder() is None,
            m.vehicle_line() == Seq::<Seq<char>>::empty(),
    {
        let m = JobManager {
            jobs: Vec::new(),
            queue: VecDeque::new(),
            config,
            running_count: 0,
            vehicle_slot: None,
            vehicle_waiting: VecDeque::new(),
        };
        assert(m.vehicle_waiting@.map_values(|s: String| s@) =~= Seq::<Seq<char>>::empty());
        assert(m.queue@.map_values(|q: QueuedJob| q.id@) =~= Seq::<Seq<char>>::empty());
        m
    }

    /// The configuration the manager was made with.
    pub fn config(&self) -> (c: &Config)
        ensures
            *c == self.config_spec(),
    {
        &self.config
    }

    /// Check if the system is idle (no jobs running)
    pub fn is_idle(&self) -> (b: bool)
        ensures
            b == (self.running() == 0),
    {
        self.running_count == 0
    }

    /// Get the count of running jobs
    pub fn running_job_count(&self) -> (n: usize)
        ensures
            n == self.running(),
    {
        self.running_count
    }

    /// Get queue length
    pub fn queue_length(&self) -> (n: usize)
        ensures
            n == self.queued().len(),
    {
        self.queue.len()
    }

    /// The position of the job `id`.
    fn find(&self, id: &str) -> (r: Option<usize>)
        ensures
            match r {
                Some(k) => k < self.jobs@.len() && self.jobs@[k as int].id@ == id@,
                None => forall|k: int| 0 <= k < self.jobs@.len() ==> self.jobs@[k].id@ != id@,
            },
    {
        find_in(&self.jobs, id)
    }

    proof fn lemma_find_lookup(&self, k: int)
        requires
            0 <= k < self.jobs@.len(),
            distinct_ids(job_models(self.jobs@)),
        ensures
            self.jobs().contains_key(self.jobs@[k].id@),
            self.jobs()[self.jobs@[k].id@] == self.jobs@[k]@,
    {
        let s = job_models(self.jobs@);
        lemma_jobs_by_id_contents(s);
        assert(s[k] == self.jobs@[k]@);
        assert(jobs_by_id(s).contains_key(s[k].id@) && jobs_by_id(s)[s[k].id@] == s[k]);
    }

    proof fn lemma_absent(&self, id: Seq<char>)
        requires
            forall|k: int| 0 <= k < self.jobs@.len() ==> self.jobs@[k].id@ != id,
        ensures
            !self.jobs().contains_key(id),
    {
        lemma_jobs_by_id_absent(job_models(self.jobs@), id);
    }

    /// Takes the job list out, leaving an empty one in its place.
    fn take_jobs(&mut self) -> (jobs: Vec<Job>)
        ensures
            jobs@ == old(self).jobs@,
            distinct_ids(job_models(jobs@)),
            vehicle_runs_alone(jobs_by_id(job_models(jobs@)), opt_text(old(self).vehicle_slot)),
            old(self).vehicle_slot is None ==> old(self).vehicle_waiting@.len() == 0,
            final(self).jobs@ == Seq::<Job>::empty(),
            final(self).queue@ == old(self).queue@,
            final(self).running_count == old(self).running_count,
            final(self).config == old(self).config,
            final(self).vehicle_slot == old(self).vehicle_slot,
            final(self).vehicle_waiting@ == old(self).vehicle_waiting@,
    {
        proof {
            use_type_invariant(&*self);
        }
        let mut jobs: Vec<Job> = Vec::new();
        std::mem::swap(&mut jobs, &mut self.jobs);
        jobs
    }

    /// Stores `job` in `jobs`, replacing a job with the same id.
    fn store_in(jobs: &mut Vec<Job>, job: Job)
        requires
            distinct_ids(job_models(old(jobs)@)),
        ensures
            distinct_ids(job_models(final(jobs)@)),
            jobs_by_id(job_models(final(jobs)@)) == jobs_by_id(job_models(old(jobs)@)).insert(
                job.id@,
                job@,
            ),
    {
        let ghost models = job_models(jobs@);
        match find_in(jobs, job.id.as_str()) {
            Some(k) => {
                proof {
                    lemma_jobs_by_id_update(models, k as int, job@);
                    assert(job_models(jobs@.update(k as int, job)) =~= models.update(k as int, job@));
                }
                jobs.set(k, job);
            },
            None => {
                proof {
                    lemma_jobs_by_id_push(models, job@);
                    assert(job_models(jobs@.push(job)) =~= models.push(job@));
                }
                jobs.push(job);
            },
        }
    }

    /// Stores `job`, replacing a job with the same id.
    fn store(&mut self, job: Job)
        requires
            runs_vehicle(job@) ==> old(self).vehicle_holder() == Some(job.id@),
        ensures
            final(self).jobs() == old(self).jobs().insert(job.id@, job@),
            final(self).queued() == old(self).queued(),
            final(self).running() == old(self).running(),
            final(self).config_spec() == old(self).config_spec(),
            final(self).vehicle_holder() == old(self).vehicle_holder(),
            final(self).vehicle_line() == old(self).vehicle_line(),
    {
        let mut jobs = self.take_jobs();
        Self::store_in(&mut jobs, job);
        self.jobs = jobs;
    }

    /// A new job id, not used by any job of the table: a drawn random id,
    /// or, when that id is taken, the first spare id not in use. Among the
    /// first `n + 1` spare ids, for `n` jobs, one is always free.
    fn fresh_job_id(&self) -> (id: String)
        ensures
            is_job_id_text(id@),
            !self.jobs().contains_key(id@),
    {
        let drawn = new_job_id();
        match self.find(drawn.as_str()) {
            None => {
                proof {
                    self.lemma_absent(drawn@);
                }
                return drawn;
            },
            Some(_) => {},
        }
        let len = self.jobs.len();
        let n = len as u128;
        let mut k: u128 = 0;
        let ghost mut hits: Set<int> = Set::empty();
        while k <= n
            invariant
                n == self.jobs@.len(),
                n <= usize::MAX,
                k <= n + 1,
                hits.finite(),
                hits.len() == k,
                forall|i: int| hits.contains(i) ==> 0 <= i < n,
                forall|i: int|
                    #![trigger hits.contains(i)]
                    hits.contains(i) ==> exists|j: nat| j < k && self.jobs@[i].id@ == #[trigger] spare_job_id(j),
            decreases n + 1 - k,
        {
            let cand = spare_job_id_of(k);
            match self.find(cand.as_str()) {
                None => {
                    proof {
                        self.lemma_absent(cand@);
                        lemma_spare_job_id_form(k as nat);
                    }
                    return cand;
                },
                Some(i) => {
                    proof {
                        if hits.contains(i as int) {
                            let j = choose|j: nat| j < k && self.jobs@[i as int].id@ == #[trigger] spare_job_id(j);
                            lemma_spare_job_id_injective(j, k as nat);
                        }
                        let old_hits = hits;
                        hits = hits.insert(i as int);
                        assert forall|x: int| #![trigger hits.contains(x)] hits.contains(x) implies exists|j: nat|
                            j < k + 1 && self.jobs@[x].id@ == #[trigger] spare_job_id(j) by {
                            if x == i as int {
                                assert(self.jobs@[x].id@ == spare_job_id(k as nat));
                            } else {
                                assert(old_hits.contains(x));
                            }
                        }
                    }
                    k = k + 1;
                },
            }
        }
        proof {
            lemma_int_range(0, n as int);
            assert(hits.subset_of(set_int_range(0, n as int)));
            lemma_len_subset(hits, set_int_range(0, n as int));
        }
        drawn
    }

    /// Get a job by ID
    pub fn get_job(&self, job_id: &str) -> (r: Option<Job>)
        ensures
            match r {
                Some(j) => self.jobs().contains_key(job_id@) && j@ == self.jobs()[job_id@],
                None => !self.jobs().contains_key(job_id@),
            },
    {
        match self.find(job_id) {
            Some(k) => {
                proof {
                    use_type_invariant(self);
                    self.lemma_find_lookup(k as int);
                }
                Some(self.jobs[k].clone())
            },
            None => {
                proof {
                    self.lemma_absent(job_id@);
                }
                None
            },
        }
    }

    /// Get all jobs, in no particular order: the list read by id is the job table.
    pub fn get_all_jobs(&self) -> (r: Vec<Job>)
        ensures
            distinct_ids(job_models(r@)),
            jobs_by_id(job_models(r@)) == self.jobs(),
    {
        proof {
            use_type_invariant(self);
        }
        let mut r: Vec<Job> = Vec::new();
        let mut i: usize = 0;
        while i < self.jobs.len()
            invariant
                i <= self.jobs@.len(),
                distinct_ids(job_models(self.jobs@)),
                job_models(r@) == job_models(self.jobs@).take(i as int),
            decreases self.jobs@.len() - i,
        {
            let j = self.jobs[i].clone();
            let ghost before = r@;
            let ghost jm = j@;
            r.push(j);
            assert(job_models(r@) =~= job_models(before).push(jm));
            assert(job_models(r@) =~= job_models(self.jobs@).take(i + 1));
            i = i + 1;
        }
        assert(job_models(self.jobs@).take(self.jobs@.len() as int) =~= job_models(self.jobs@));
        r
    }

    /// Get jobs by type: the list read by id is the part of the job table
    /// with that type.
    pub fn get_jobs_by_type(&self, job_type: JobType) -> (r: Vec<Job>)
        ensures
            distinct_ids(job_models(r@)),
            forall|k: int| 0 <= k < r@.len() ==> (#[trigger] r@[k]).job_type == job_type,
            jobs_by_id(job_models(r@)) == self.jobs().restrict(
                self.jobs().dom().filter(|id: Seq<char>| self.jobs()[id].job_type == job_type),
            ),
    {
        proof {
            use_type_invariant(self);
        }
        let ghost all = job_models(self.jobs@);
        let ghost keep = |m: JobModel| m.job_type == job_type;
        let mut r: Vec<Job> = Vec::new();
        let mut i: usize = 0;
        while i < self.jobs.len()
            invariant
                i <= self.jobs@.len(),
                all == job_models(self.jobs@),
                distinct_ids(all),
                keep == (|m: JobModel| m.job_type == job_type),
                job_models(r@) == all.take(i as int).filter(keep),
                forall|k: int| 0 <= k < r@.len() ==> (#[trigger] r@[k]).job_type == job_type,
            decreases self.jobs@.len() - i,
        {
            proof {
                assert(all.take(i + 1).drop_last() =~= all.take(i as int));
                reveal(Seq::filter);
            }
            if self.jobs[i].job_type == job_type {
                let j = self.jobs[i].clone();
                let ghost before = r@;
                let ghost jm = j@;
                r.push(j);
                assert(job_models(r@) =~= job_models(before).push(jm));
                assert(job_models(r@) =~= all.take(i as int).filter(keep).push(all[i as int]));
            }
            i = i + 1;
        }
        assert(all.take(self.jobs@.len() as int) =~= all);
        proof {
            lemma_filter_distinct_map(all, job_type);
        }
        r
    }
}

/// The form of a job id, a UUID in hyphenated lowercase text: 36
/// characters, hyphens at positions 8, 13, 18 and 23, hexadecimal digits
/// `0`-`9` and `a`-`f` elsewhere.
pub open spec fn is_job_id_text(id: Seq<char>) -> bool {
    &&& id.len() == 36
    &&& forall|i: int|
        0 <= i < 36 ==> if i == 8 || i == 13 || i == 18 || i == 23 {
            id[i] == '-'
        } else {
            ('0' <= #[trigger] id[i] <= '9') || ('a' <= id[i] <= 'f')
        }
}

/// A fresh job id: `uuid::Uuid::new_v4().to_string()`. The id is random, so
/// only its shape is promised: 36 characters, hyphens at positions 8, 13, 18
/// and 23, lowercase hexadecimal digits elsewhere (the hyphenated form the
/// crate's `Display` writes). Uniqueness is not promised.
#[verifier::external_body]
fn new_job_id() -> (id: String)
    ensures
        is_job_id_text(id@),
{
    uuid::Uuid::new_v4().to_string()
}

/// The character of decimal digit `d`.
spec fn digit_char(d: int) -> char {
    if d == 0 {
        '0'
    } else if d == 1 {
        '1'
    } else if d == 2 {
        '2'
    } else if d == 3 {
        '3'
    } else if d == 4 {
        '4'
    } else if d == 5 {
        '5'
    } else if d == 6 {
        '6'
    } else if d == 7 {
        '7'
    } else if d == 8 {
        '8'
    } else {
        '9'
    }
}

/// The last `m` decimal digits of `k`, zero-padded on the left.
spec fn fixed_digits(k: nat, m: nat) -> Seq<char>
    decreases m,
{
    if m == 0 {
        Seq::empty()
    } else {
        fixed_digits(k / 10, (m - 1) as nat).push(digit_char((k % 10) as int))
    }
}

spec fn pow10(m: nat) -> nat
    decreases m,
{
    if m == 0 {
        1
    } else {
        10 * pow10((m - 1) as nat)
    }
}

/// Character `i` of the spare id whose last twenty digits are `d`.
spec fn spare_char(d: Seq<char>, i: int) -> char {
    if i == 8 || i == 13 || i == 18 || i == 23 {
        '-'
    } else if i < 14 {
        '0'
    } else if i < 18 {
        d[i - 14]
    } else if i < 23 {
        d[i - 15]
    } else {
        d[i - 16]
    }
}

/// The `k`-th spare job id, taken when a drawn id is already in use:
/// `00000000-0000-` followed by `k` as twenty decimal digits in the
/// remaining groups.
spec fn spare_job_id(k: nat) -> Seq<char> {
    Seq::new(36, |i: int| spare_char(fixed_digits(k, 20), i))
}

proof fn lemma_fixed_digits_shape(k: nat, m: nat)
    ensures
        fixed_digits(k, m).len() == m,
        forall|j: int| 0 <= j < m ==> '0' <= #[trigger] fixed_digits(k, m)[j] <= '9',
    decreases m,
{
    if m > 0 {
        lemma_fixed_digits_shape(k / 10, (m - 1) as nat);
    }
}

proof fn lemma_fixed_digits_injective(a: nat, b: nat, m: nat)
    requires
        a < pow10(m),
        b < pow10(m),
        fixed_digits(a, m) == fixed_digits(b, m),
    ensures
        a == b,
    decreases m,
{
    if m > 0 {
        let fa = fixed_digits(a, m);
        let fb = fixed_digits(b, m);
        assert(fa.last() == fb.last());
        assert(a % 10 == b % 10);
        assert(fa.drop_last() =~= fixed_digits(a / 10, (m - 1) as nat));
        assert(fb.drop_last() =~= fixed_digits(b / 10, (m - 1) as nat));
        let p = pow10((m - 1) as nat);
        assert(a / 10 < p) by (nonlinear_arith)
            requires
                a < 10 * p,
        ;
        assert(b / 10 < p) by (nonlinear_arith)
            requires
                b < 10 * p,
        ;
        lemma_fixed_digits_injective(a / 10, b / 10, (m - 1) as nat);
        assert(a == 10 * (a / 10) + a % 10) by (nonlinear_arith);
        assert(b == 10 * (b / 10) + b % 10) by (nonlinear_arith);
    }
}

proof fn lemma_spare_job_id_form(k: nat)
    ensures
        is_job_id_text(spare_job_id(k)),
{
    lemma_fixed_digits_shape(k, 20);
}

proof fn lemma_spare_job_id_injective(a: nat, b: nat)
    requires
        a <= 0x1_0000_0000_0000_0000,
        b <= 0x1_0000_0000_0000_0000,
        spare_job_id(a) == spare_job_id(b),
    ensures
        a == b,
{
    reveal_with_fuel(pow10, 21);
    assert(pow10(20) == 100_000_000_000_000_000_000nat);
    let da = fixed_digits(a, 20);
    let db = fixed_digits(b, 20);
    lemma_fixed_digits_shape(a, 20);
    lemma_fixed_digits_shape(b, 20);
    assert forall|j: int| 0 <= j < 20 implies da[j] == db[j] by {
        let i = if j < 4 {
            j + 14
        } else if j < 8 {
            j + 15
        } else {
            j + 16
        };
        assert(spare_job_id(a)[i] == spare_char(da, i));
        assert(spare_job_id(b)[i] == spare_char(db, i));
        assert(spare_job_id(a)[i] == spare_job_id(b)[i]);
    }
    assert(da =~= db);
    lemma_fixed_digits_injective(a, b, 20);
}

/// The character of decimal digit `d`.
fn digit_char_of(d: u128) -> (c: char)
    requires
        d < 10,
    ensures
        c == digit_char(d as int),
{
    if d == 0 {
        '0'
    } else if d == 1 {
        '1'
    } else if d == 2 {
        '2'
    } else if d == 3 {
        '3'
    } else if d == 4 {
        '4'
    } else if d == 5 {
        '5'
    } else if d == 6 {
        '6'
    } else if d == 7 {
        '7'
    } else if d == 8 {
        '8'
    } else {
        '9'
    }
}

/// The last `m` decimal digits of `k`, zero-padded on the left.
fn fixed_digits_of(k: u128, m: usize) -> (v: Vec<char>)
    ensures
        v@ == fixed_digits(k as nat, m as nat),
    decreases m,
{
    if m == 0 {
        Vec::new()
    } else {
        let mut v = fixed_digits_of(k / 10, m - 1);
        v.push(digit_char_of(k % 10));
        v
    }
}

/// The `k`-th spare job id.
fn spare_job_id_of(k: u128) -> (s: String)
    ensures
        s@ == spare_job_id(k as nat),
{
    let d = fixed_digits_of(k, 20);
    proof {
        lemma_fixed_digits_shape(k as nat, 20);
    }
    let mut s = String::new();
    let mut i: usize = 0;
    while i < 36
        invariant
            i <= 36,
            d@ == fixed_digits(k as nat, 20),
            d@.len() == 20,
            s@ =~= Seq::new(i as nat, |j: int| spare_char(d@, j)),
        decreases 36 - i,
    {
        let c = if i == 8 || i == 13 || i == 18 || i == 23 {
            '-'
        } else if i < 14 {
            '0'
        } else if i < 18 {
            d[i - 14]
        } else if i < 23 {
            d[i - 15]
        } else {
            d[i - 16]
        };
        push_char(&mut s, c);
        i = i + 1;
    }
    s
}

/// A fresh job record.
fn fresh_job_record(
    id: String,
    job_type: JobType,
    priority: JobPriority,
    status: JobStatus,
    created_at: Timestamp,
) -> (j: Job)
    ensures
        j@ == fresh_job(id, job_type, priority, status, created_at),
{
    Job {
        id,
        job_type,
        priority,
        status,
        created_at,
        started_at: None,
        completed_at: None,
        error: None,
        vehicle_count: None,
        hono_response: None,
        etc_request: None,
        etc_result: None,
        batch_request: None,
        batch_result: None,
        current_account_index: None,
    }
}

/// The status a job of this priority starts in.
fn initial_status_of(priority: JobPriority) -> (s: JobStatus)
    ensures
        s == initial_status(priority),
{
    if priority == JobPriority::Low {
        JobStatus::Queued
    } else {
        JobStatus::Pending
    }
}

/// The pending results of a batch's accounts.
fn initial_results(accounts: &Vec<EtcAccountInfo>) -> (r: Vec<AccountResult>)
    ensures
        r@ == initial_account_results(accounts@),
{
    let mut r: Vec<AccountResult> = Vec::new();
    let mut i: usize = 0;
    while i < accounts.len()
        invariant
            i <= accounts@.len(),
            r@ == initial_account_results(accounts@.take(i as int)),
        decreases accounts@.len() - i,
    {
        let a = &accounts[i];
        r.push(AccountResult::new(a.user_id.clone(), a.display_name()));
        assert(initial_account_results(accounts@.take(i + 1)) =~= initial_account_results(
            accounts@.take(i as int),
        ).push(
            AccountResult {
                user_id: accounts@[i as int].user_id,
                name: account_display_name(accounts@[i as int]),
                status: JobStatus::Pending,
                csv_path: None,
                csv_size: None,
                error: None,
            },
        ));
        i = i + 1;
    }
    assert(accounts@.take(accounts@.len() as int) =~= accounts@);
    r
}

/// The record after one account's outcome.
fn record_account(a: AccountResult, outcome: AccountOutcome) -> (r: AccountResult)
    ensures
        account_recorded(a, r, outcome),
{
    let mut a = a;
    match outcome {
        AccountOutcome::Downloaded { csv_path, csv_size } => {
            a.set_completed(csv_path, csv_size);
        },
        AccountOutcome::NoUsageData(msg) => {
            let path = concat_str(String::from_str("skipped: "), msg.as_str());
            a.set_completed(path, 0);
        },
        AccountOutcome::Failed(e) => {
            a.set_failed(e);
        },
    }
    a
}

/// The counts after one more account outcome.
fn advance_progress(p: BatchProgress, outcome: &AccountOutcome) -> (r: BatchProgress)
    requires
        p.success_count < usize::MAX,
        p.fail_count < usize::MAX,
    ensures
        r == progress_after(p, *outcome),
{
    match outcome {
        AccountOutcome::Failed(_) => BatchProgress { fail_count: p.fail_count + 1, ..p },
        _ => BatchProgress { success_count: p.success_count + 1, ..p },
    }
}

/// The error text of a batch with failed accounts.
fn batch_failure_message(fail_count: usize, total: usize) -> (s: String)
    ensures
        s@ == batch_failure_text(fail_count as nat, total as nat),
{
    let s = decimal_string(fail_count as u64);
    let s = concat_str(s, " of ");
    let s = concat_str(s, decimal_string(total as u64).as_str());
    concat_str(s, " accounts failed")
}

impl JobManager {
    /// Takes the queue out, leaving an empty one in its place.
    fn take_queue(&mut self) -> (q: VecDeque<QueuedJob>)
        ensures
            q@ == old(self).queue@,
            final(self).queue@ == Seq::<QueuedJob>::empty(),
            final(self).jobs@ == old(self).jobs@,
            final(self).running_count == old(self).running_count,
            final(self).config == old(self).config,
            final(self).vehicle_slot == old(self).vehicle_slot,
            final(self).vehicle_waiting@ == old(self).vehicle_waiting@,
    {
        proof {
            use_type_invariant(&*self);
        }
        let mut q: VecDeque<QueuedJob> = VecDeque::new();
        std::mem::swap(&mut q, &mut self.queue);
        q
    }

    /// Appends `id` to the queue.
    fn enqueue(&mut self, id: String, priority: JobPriority)
        ensures
            final(self).queued() == old(self).queued().push(id@),
            final(self).jobs() == old(self).jobs(),
            final(self).running() == old(self).running(),
            final(self).config_spec() == old(self).config_spec(),
            final(self).vehicle_holder() == old(self).vehicle_holder(),
            final(self).vehicle_line() == old(self).vehicle_line(),
    {
        proof {
            use_type_invariant(&*self);
        }
        let mut q = self.take_queue();
        let ghost before = q@;
        q.push_back(QueuedJob { id, priority });
        assert(q@.map_values(|e: QueuedJob| e.id@) =~= before.map_values(|e: QueuedJob| e.id@).push(
            id@,
        ));
        self.queue = q;
    }

    /// Create a new vehicle job; the caller starts its worker. Returns the id.
    pub fn create_vehicle_job(&mut self) -> (id: String)
        ensures
            is_job_id_text(id@),
            !old(self).jobs().contains_key(id@),
            final(self).jobs() == old(self).jobs().insert(
                id@,
                fresh_job(
                    id,
                    JobType::Vehicle,
                    JobPriority::Normal,
                    JobStatus::Pending,
                    final(self).jobs()[id@].created_at,
                ),
            ),
            final(self).queued() == old(self).queued(),
            final(self).running() == old(self).running(),
            final(self).config_spec() == old(self).config_spec(),
            final(self).vehicle_holder() == old(self).vehicle_holder(),
            final(self).vehicle_line() == old(self).vehicle_line(),
    {
        let id = self.fresh_job_id();
        let created = now();
        let job = fresh_job_record(
            id.clone(),
            JobType::Vehicle,
            JobPriority::Normal,
            JobStatus::Pending,
            created,
        );
        self.store(job);
        id
    }

    /// Create a new job (legacy alias for create_vehicle_job)
    pub fn create_job(&mut self) -> (id: String)
        ensures
            is_job_id_text(id@),
            !old(self).jobs().contains_key(id@),
            final(self).jobs() == old(self).jobs().insert(
                id@,
                fresh_job(
                    id,
                    JobType::Vehicle,
                    JobPriority::Normal,
                    JobStatus::Pending,
                    final(self).jobs()[id@].created_at,
                ),
            ),
            final(self).queued() == old(self).queued(),
            final(self).running() == old(self).running(),
            final(self).config_spec() == old(self).config_spec(),
            final(self).vehicle_holder() == old(self).vehicle_holder(),
            final(self).vehicle_line() == old(self).vehicle_line(),
    {
        self.create_vehicle_job()
    }

    /// Create a new ETC scrape job. A low-priority job is queued (status
    /// `Queued`); any other starts at once (status `Pending`), its worker
    /// started by the caller. Returns the id.
    pub fn create_etc_job(&mut self, request: EtcScrapeRequest, priority: JobPriority) -> (id: String)
        ensures
            is_job_id_text(id@),
            !old(self).jobs().contains_key(id@),
            final(self).jobs() == old(self).jobs().insert(
                id@,
                JobModel {
                    etc_request: Some(request),
                    ..fresh_job(
                        id,
                        JobType::EtcScrape,
                        priority,
                        initial_status(priority),
                        final(self).jobs()[id@].created_at,
                    )
                },
            ),
            final(self).queued() == if priority == JobPriority::Low {
                old(self).queued().push(id@)
            } else {
                old(self).queued()
            },
            final(self).running() == old(self).running(),
            final(self).config_spec() == old(self).config_spec(),
            final(self).vehicle_holder() == old(self).vehicle_holder(),
            final(self).vehicle_line() == old(self).vehicle_line(),
    {
        let id = self.fresh_job_id();
        let created = now();
        let base = fresh_job_record(
            id.clone(),
            JobType::EtcScrape,
            priority,
            initial_status_of(priority),
            created,
        );
        let job = Job { etc_request: Some(request), ..base };
        self.store(job);
        if priority == JobPriority::Low {
            self.enqueue(id.clone(), priority);
        }
        id
    }

    /// Create a new ETC batch scrape job (multiple accounts): every account
    /// starts pending, and the downloads go to a session folder named after
    /// the JST creation time. Queued or started as for single ETC jobs.
    pub fn create_etc_batch_job(&mut self, request: EtcBatchRequest, priority: JobPriority) -> (id: String)
        ensures
            is_job_id_text(id@),
            !old(self).jobs().contains_key(id@),
            final(self).jobs().contains_key(id@),
            is_new_batch_job(final(self).jobs()[id@], id, request@, priority),
            four_digit_local_year(final(self).jobs()[id@].created_at@.0, JST_OFFSET_SECS)
                ==> is_session_name(
                local_time_text(
                    final(self).jobs()[id@].created_at@.0,
                    final(self).jobs()[id@].created_at@.1,
                    JST_OFFSET_SECS,
                    compact_pattern(),
                ),
            ),
            final(self).jobs() == old(self).jobs().insert(id@, final(self).jobs()[id@]),
            final(self).queued() == if priority == JobPriority::Low {
                old(self).queued().push(id@)
            } else {
                old(self).queued()
            },
            final(self).running() == old(self).running(),
            final(self).config_spec() == old(self).config_spec(),
            final(self).vehicle_holder() == old(self).vehicle_holder(),
            final(self).vehicle_line() == old(self).vehicle_line(),
    {
        let id = self.fresh_job_id();
        let created = now();
        let total_count = request.accounts.len();
        let accounts = initial_results(&request.accounts);
        let folder = concat_str(request.download_path.clone(), "/");
        let stamp = created.to_jst_compact();
        proof {
            if four_digit_local_year(created@.0, JST_OFFSET_SECS) {
                lemma_compact_is_session_name(stamp@);
            }
        }
        let folder = concat_str(folder, stamp.as_str());
        let base = fresh_job_record(
            id.clone(),
            JobType::EtcScrapeBatch,
            priority,
            initial_status_of(priority),
            created,
        );
        let job = Job {
            batch_request: Some(request),
            batch_result: Some(
                EtcBatchResult {
                    session_folder: folder,
                    accounts,
                    total_count,
                    success_count: 0,
                    fail_count: 0,
                },
            ),
            current_account_index: Some(0),
            ..base
        };
        let ghost jm = job@;
        self.store(job);
        assert(self.jobs()[id@] == jm);
        if priority == JobPriority::Low {
            self.enqueue(id.clone(), priority);
        }
        id
    }

    /// The task that runs the job `job_id`, when it is an ETC job whose
    /// request is recorded.
    pub fn job_task(&self, job_id: &str) -> (t: Option<JobTask>)
        ensures
            match self.jobs().get(job_id@) {
                Some(m) => task_for(t, m),
                None => t is None,
            },
            t matches Some(task) ==> task_id(task) == job_id@,
    {
        match self.find(job_id) {
            Some(k) => {
                proof {
                    use_type_invariant(self);
                    self.lemma_find_lookup(k as int);
                }
                task_of(&self.jobs[k])
            },
            None => {
                proof {
                    self.lemma_absent(job_id@);
                }
                None
            },
        }
    }

    /// Process queued low-priority jobs when idle: when no job runs, the
    /// oldest queued job leaves the queue, is marked pending and is returned
    /// as a task to start.
    pub fn process_idle_jobs(&mut self) -> (t: Option<JobTask>)
        ensures
            final(self).running() == old(self).running(),
            final(self).config_spec() == old(self).config_spec(),
            final(self).vehicle_holder() == old(self).vehicle_holder(),
            final(self).vehicle_line() == old(self).vehicle_line(),
            (old(self).running() != 0 || old(self).queued().len() == 0) ==> {
                &&& final(self).jobs() == old(self).jobs()
                &&& final(self).queued() == old(self).queued()
                &&& t is None
            },
            (old(self).running() == 0 && old(self).queued().len() > 0) ==> {
                let id = old(self).queued()[0];
                &&& final(self).queued() == old(self).queued().drop_first()
                &&& if old(self).jobs().contains_key(id) {
                    &&& final(self).jobs() == old(self).jobs().insert(
                        id,
                        JobModel { status: JobStatus::Pending, ..old(self).jobs()[id] },
                    )
                    &&& task_for(t, old(self).jobs()[id])
                    &&& (t matches Some(task) ==> task_id(task) == id)
                } else {
                    &&& final(self).jobs() == old(self).jobs()
                    &&& t is None
                }
            },
    {
        proof {
            use_type_invariant(&*self);
        }
        if self.running_count != 0 || self.queue.len() == 0 {
            return None;
        }
        let mut q = self.take_queue();
        let ghost before = q@;
        let front = match q.pop_front() {
            Some(f) => f,
            None => {
                self.queue = q;
                return None;
            },
        };
        assert(q@.map_values(|e: QueuedJob| e.id@) =~= before.map_values(|e: QueuedJob| e.id@).drop_first());
        self.queue = q;
        let task = self.job_task(front.id.as_str());
        match self.find(front.id.as_str()) {
            Some(k) => {
                proof {
                    use_type_invariant(&*self);
                    self.lemma_find_lookup(k as int);
                }
                let j = self.jobs[k].clone();
                let updated = Job { status: JobStatus::Pending, ..j };
                self.store(updated);
            },
            None => {
                proof {
                    self.lemma_absent(front.id@);
                }
            },
        }
        task
    }

    /// Whether the vehicle slot is held by `job_id`.
    fn holds_vehicle_slot(&self, job_id: &str) -> (b: bool)
        ensures
            b == (self.vehicle_holder() == Some(job_id@)),
    {
        let key = String::from_str(job_id);
        match &self.vehicle_slot {
            Some(h) => *h == key,
            None => false,
        }
    }

    /// A worker starts on `job_id`: one more job runs, and the job (if still
    /// recorded) is marked running with its start time. A vehicle job is
    /// marked running only while it holds the vehicle slot; otherwise its
    /// record stays as it is.
    pub fn begin_job(&mut self, job_id: &str)
        requires
            old(self).running() < usize::MAX,
        ensures
            final(self).running() == old(self).running() + 1,
            final(self).queued() == old(self).queued(),
            final(self).config_spec() == old(self).config_spec(),
            final(self).vehicle_holder() == old(self).vehicle_holder(),
            final(self).vehicle_line() == old(self).vehicle_line(),
            if old(self).jobs().contains_key(job_id@) && may_run(
                old(self).jobs()[job_id@],
                old(self).vehicle_holder(),
                job_id@,
            ) {
                &&& final(self).jobs().contains_key(job_id@)
                &&& final(self).jobs()[job_id@].started_at is Some
                &&& final(self).jobs() == old(self).jobs().insert(
                    job_id@,
                    JobModel {
                        status: JobStatus::Running,
                        started_at: final(self).jobs()[job_id@].started_at,
                        ..old(self).jobs()[job_id@]
                    },
                )
            } else {
                final(self).jobs() == old(self).jobs()
            },
    {
        let at = now();
        self.begin_job_at(job_id, at);
    }

    /// As `begin_job`, with `at` as the clock reading the record takes.
    pub fn begin_job_at(&mut self, job_id: &str, at: Timestamp)
        requires
            old(self).running() < usize::MAX,
        ensures
            final(self).jobs() == job_begun(old(self).jobs(), old(self).vehicle_holder(), job_id@, at),
            final(self).running() == old(self).running() + 1,
            final(self).queued() == old(self).queued(),
            final(self).config_spec() == old(self).config_spec(),
            final(self).vehicle_holder() == old(self).vehicle_holder(),
            final(self).vehicle_line() == old(self).vehicle_line(),
            if old(self).jobs().contains_key(job_id@) && may_run(
                old(self).jobs()[job_id@],
                old(self).vehicle_holder(),
                job_id@,
            ) {
                &&& final(self).jobs().contains_key(job_id@)
                &&& final(self).jobs() == old(self).jobs().insert(
                    job_id@,
                    JobModel {
                        status: JobStatus::Running,
                        started_at: Some(at),
                        ..old(self).jobs()[job_id@]
                    },
                )
            } else {
                final(self).jobs() == old(self).jobs()
            },
    {
        proof {
            use_type_invariant(&*self);
        }
        self.running_count = self.running_count + 1;
        match self.find(job_id) {
            Some(k) => {
                proof {
                    use_type_invariant(&*self);
                    self.lemma_find_lookup(k as int);
                }
                let j = self.jobs[k].clone();
                if j.job_type == JobType::Vehicle && !self.holds_vehicle_slot(job_id) {
                    return;
                }
                let updated = Job { status: JobStatus::Running, started_at: Some(at), ..j };
                self.store(updated);
            },
            None => {
                proof {
                    self.lemma_absent(job_id@);
                }
            },
        }
    }

    /// A worker is done with a job: one job fewer runs (never below zero).
    pub fn end_job(&mut self)
        ensures
            final(self).running() == if old(self).running() == 0 {
                0
            } else {
                old(self).running() - 1
            },
            final(self).jobs() == old(self).jobs(),
            final(self).queued() == old(self).queued(),
            final(self).config_spec() == old(self).config_spec(),
            final(self).vehicle_holder() == old(self).vehicle_holder(),
            final(self).vehicle_line() == old(self).vehicle_line(),
    {
        proof {
            use_type_invariant(&*self);
        }
        self.running_count = self.running_count.saturating_sub(1);
    }

    /// Records the end of a vehicle job: its completion time, and either its
    /// vehicle count and rust-logi reply (success) or its error (failure).
    pub fn finish_vehicle_job(&mut self, job_id: &str, outcome: Result<VehicleRun, String>)
        ensures
            final(self).running() == old(self).running(),
            final(self).queued() == old(self).queued(),
            final(self).config_spec() == old(self).config_spec(),
            final(self).vehicle_holder() == old(self).vehicle_holder(),
            final(self).vehicle_line() == old(self).vehicle_line(),
            if old(self).jobs().contains_key(job_id@) {
                let m = old(self).jobs()[job_id@];
                let done = final(self).jobs()[job_id@].completed_at;
                &&& final(self).jobs().contains_key(job_id@)
                &&& done is Some
                &&& final(self).jobs() == old(self).jobs().insert(
                    job_id@,
                    match outcome {
                        Ok(run) => JobModel {
                            status: JobStatus::Completed,
                            completed_at: done,
                            vehicle_count: Some(run.vehicle_count as i32),
                            hono_response: run.hono_response,
                            ..m
                        },
                        Err(e) => JobModel {
                            status: JobStatus::Failed,
                            completed_at: done,
                            error: Some(e),
                            ..m
                        },
                    },
                )
            } else {
                final(self).jobs() == old(self).jobs()
            },
    {
        let at = now();
        self.finish_vehicle_job_at(job_id, outcome, at);
    }

    /// As `finish_vehicle_job`, with `at` as the clock reading the record takes.
    pub fn finish_vehicle_job_at(&mut self, job_id: &str, outcome: Result<VehicleRun, String>, at: Timestamp)
        ensures
            final(self).jobs() == vehicle_job_finished(old(self).jobs(), job_id@, outcome, at),
            final(self).running() == old(self).running(),
            final(self).queued() == old(self).queued(),
            final(self).config_spec() == old(self).config_spec(),
            final(self).vehicle_holder() == old(self).vehicle_holder(),
            final(self).vehicle_line() == old(self).vehicle_line(),
            if old(self).jobs().contains_key(job_id@) {
                let m = old(self).jobs()[job_id@];
                let done = Some(at);
                &&& final(self).jobs().contains_key(job_id@)
                &&& final(self).jobs() == old(self).jobs().insert(
                    job_id@,
                    match outcome {
                        Ok(run) => JobModel {
                            status: JobStatus::Completed,
                            completed_at: done,
                            vehicle_count: Some(run.vehicle_count as i32),
                            hono_response: run.hono_response,
                            ..m
                        },
                        Err(e) => JobModel {
                            status: JobStatus::Failed,
                            completed_at: done,
                            error: Some(e),
                            ..m
                        },
                    },
                )
            } else {
                final(self).jobs() == old(self).jobs()
            },
    {
        match self.find(job_id) {
            Some(k) => {
                proof {
                    use_type_invariant(&*self);
                    self.lemma_find_lookup(k as int);
                }
                let j = self.jobs[k].clone();
                let done = Some(at);
                let updated = match outcome {
                    Ok(run) => Job {
                        status: JobStatus::Completed,
                        completed_at: done,
                        vehicle_count: Some(run.vehicle_count as i32),
                        hono_response: run.hono_response,
                        ..j
                    },
                    Err(e) => Job {
                        status: JobStatus::Failed,
                        completed_at: done,
                        error: Some(e),
                        ..j
                    },
                };
                self.store(updated);
            },
            None => {
                proof {
                    self.lemma_absent(job_id@);
                }
            },
        }
    }

    /// Records the end of an ETC job: its completion time, and either its
    /// result (success) or its error (failure).
    pub fn finish_etc_job(&mut self, job_id: &str, outcome: Result<EtcScrapeResult, String>)
        ensures
            final(self).running() == old(self).running(),
            final(self).queued() == old(self).queued(),
            final(self).config_spec() == old(self).config_spec(),
            final(self).vehicle_holder() == old(self).vehicle_holder(),
            final(self).vehicle_line() == old(self).vehicle_line(),
            if old(self).jobs().contains_key(job_id@) {
                let m = old(self).jobs()[job_id@];
                let done = final(self).jobs()[job_id@].completed_at;
                &&& final(self).jobs().contains_key(job_id@)
                &&& done is Some
                &&& final(self).jobs() == old(self).jobs().insert(
                    job_id@,
                    match outcome {
                        Ok(r) => JobModel {
                            status: JobStatus::Completed,
                            completed_at: done,
                            etc_result: Some(r),
                            ..m
                        },
                        Err(e) => JobModel {
                            status: JobStatus::Failed,
                            completed_at: done,
                            error: Some(e),
                            ..m
                        },
                    },
                )
            } else {
                final(self).jobs() == old(self).jobs()
            },
    {
        let at = now();
        self.finish_etc_job_at(job_id, outcome, at);
    }

    /// As `finish_etc_job`, with `at` as the clock reading the record takes.
    pub fn finish_etc_job_at(&mut self, job_id: &str, outcome: Result<EtcScrapeResult, String>, at: Timestamp)
        ensures
            final(self).jobs() == etc_job_finished(old(self).jobs(), job_id@, outcome, at),
            final(self).running() == old(self).running(),
            final(self).queued() == old(self).queued(),
            final(self).config_spec() == old(self).config_spec(),
            final(self).vehicle_holder() == old(self).vehicle_holder(),
            final(self).vehicle_line() == old(self).vehicle_line(),
            if old(self).jobs().contains_key(job_id@) {
                let m = old(self).jobs()[job_id@];
                let done = Some(at);
                &&& final(self).jobs().contains_key(job_id@)
                &&& final(self).jobs() == old(self).jobs().insert(
                    job_id@,
                    match outcome {
                        Ok(r) => JobModel {
                            status: JobStatus::Completed,
                            completed_at: done,
                            etc_result: Some(r),
                            ..m
                        },
                        Err(e) => JobModel {
                            status: JobStatus::Failed,
                            completed_at: done,
                            error: Some(e),
                            ..m
                        },
                    },
                )
            } else {
                final(self).jobs() == old(self).jobs()
            },
    {
        match self.find(job_id) {
            Some(k) => {
                proof {
                    use_type_invariant(&*self);
                    self.lemma_find_lookup(k as int);
                }
                let j = self.jobs[k].clone();
                let done = Some(at);
                let updated = match outcome {
                    Ok(r) => Job {
                        status: JobStatus::Completed,
                        completed_at: done,
                        etc_result: Some(r),
                        ..j
                    },
                    Err(e) => Job { status: JobStatus::Failed, completed_at: done, error: Some(e), ..j },
                };
                self.store(updated);
            },
            None => {
                proof {
                    self.lemma_absent(job_id@);
                }
            },
        }
    }

    /// Removes the job `job_id` (cleanup of finished jobs).
    pub fn remove_job(&mut self, job_id: &str)
        ensures
            final(self).jobs() == old(self).jobs().remove(job_id@),
            final(self).queued() == old(self).queued(),
            final(self).running() == old(self).running(),
            final(self).config_spec() == old(self).config_spec(),
            final(self).vehicle_holder() == old(self).vehicle_holder(),
            final(self).vehicle_line() == old(self).vehicle_line(),
    {
        let mut jobs = self.take_jobs();
        let ghost models = job_models(jobs@);
        match find_in(&jobs, job_id) {
            Some(k) => {
                proof {
                    lemma_jobs_by_id_remove(models, k as int);
                    assert(job_models(jobs@.remove(k as int)) =~= models.remove(k as int));
                }
                jobs.remove(k);
            },
            None => {
                proof {
                    lemma_jobs_by_id_absent(models, job_id@);
                    assert(jobs_by_id(models).remove(job_id@) =~= jobs_by_id(models));
                }
            },
        }
        self.jobs = jobs;
    }
}

impl JobManager {
    /// The vehicle job holding the vehicle slot, if any. Every running
    /// vehicle job is that job, so at most one vehicle job runs at a time.
    pub fn vehicle_slot_holder(&self) -> (r: Option<String>)
        ensures
            opt_text(r) == self.vehicle_holder(),
            vehicle_runs_alone(self.jobs(), self.vehicle_holder()),
            forall|k1: Seq<char>, k2: Seq<char>|
                #![trigger self.jobs().contains_key(k1), self.jobs().contains_key(k2)]
                self.jobs().contains_key(k1) && runs_vehicle(self.jobs()[k1]) && self.jobs().contains_key(
                    k2,
                ) && runs_vehicle(self.jobs()[k2]) ==> k1 == k2,
    {
        proof {
            use_type_invariant(self);
        }
        match &self.vehicle_slot {
            Some(h) => Some(h.clone()),
            None => None,
        }
    }

    /// Whether `job_id` is a running vehicle job.
    fn runs_vehicle_job(&self, job_id: &str) -> (b: bool)
        ensures
            b == (self.jobs().contains_key(job_id@) && runs_vehicle(self.jobs()[job_id@])),
    {
        match self.find(job_id) {
            Some(k) => {
                proof {
                    use_type_invariant(self);
                    self.lemma_find_lookup(k as int);
                }
                self.jobs[k].job_type == JobType::Vehicle && self.jobs[k].status == JobStatus::Running
            },
            None => {
                proof {
                    self.lemma_absent(job_id@);
                }
                false
            },
        }
    }

    /// Puts vehicle job `job_id` in line for the vehicle slot: vehicle jobs
    /// run one at a time, first come first served. When the slot is free the
    /// job takes it at once and is returned: its worker may start. Otherwise
    /// it waits behind the others.
    pub fn enqueue_vehicle_run(&mut self, job_id: String) -> (r: Option<String>)
        ensures
            final(self).jobs() == old(self).jobs(),
            final(self).queued() == old(self).queued(),
            final(self).running() == old(self).running(),
            final(self).config_spec() == old(self).config_spec(),
            match old(self).vehicle_holder() {
                None => {
                    &&& r matches Some(h) && h@ == job_id@
                    &&& final(self).vehicle_holder() == Some(job_id@)
                    &&& final(self).vehicle_line() == old(self).vehicle_line()
                },
                Some(_) => {
                    &&& r is None
                    &&& final(self).vehicle_holder() == old(self).vehicle_holder()
                    &&& final(self).vehicle_line() == old(self).vehicle_line().push(job_id@)
                },
            },
    {
        proof {
            use_type_invariant(&*self);
        }
        if self.vehicle_slot.is_none() {
            self.vehicle_slot = Some(job_id.clone());
            Some(job_id)
        } else {
            let mut line: VecDeque<String> = VecDeque::new();
            std::mem::swap(&mut line, &mut self.vehicle_waiting);
            let ghost before = line@;
            line.push_back(job_id);
            assert(line@.map_values(|s: String| s@) =~= before.map_values(|s: String| s@).push(
                job_id@,
            ));
            self.vehicle_waiting = line;
            None
        }
    }

    /// Vehicle job `job_id` is done and gives up the vehicle slot: the first
    /// job in line takes it and is returned, so that its worker may start.
    /// Nothing changes when `job_id` does not hold the slot or is still
    /// marked running.
    pub fn finish_vehicle_run(&mut self, job_id: &str) -> (r: Option<String>)
        ensures
            final(self).jobs() == old(self).jobs(),
            final(self).queued() == old(self).queued(),
            final(self).running() == old(self).running(),
            final(self).config_spec() == old(self).config_spec(),
            if old(self).vehicle_holder() == Some(job_id@) && !(old(self).jobs().contains_key(job_id@)
                && runs_vehicle(old(self).jobs()[job_id@])) {
                if old(self).vehicle_line().len() > 0 {
                    &&& r matches Some(h) && h@ == old(self).vehicle_line()[0]
                    &&& final(self).vehicle_holder() == Some(old(self).vehicle_line()[0])
                    &&& final(self).vehicle_line() == old(self).vehicle_line().drop_first()
                } else {
                    &&& r is None
                    &&& final(self).vehicle_holder() is None
                    &&& final(self).vehicle_line() == old(self).vehicle_line()
                }
            } else {
                &&& r is None
                &&& final(self).vehicle_holder() == old(self).vehicle_holder()
                &&& final(self).vehicle_line() == old(self).vehicle_line()
            },
    {
        proof {
            use_type_invariant(&*self);
        }
        if !self.holds_vehicle_slot(job_id) || self.runs_vehicle_job(job_id) {
            return None;
        }
        if self.vehicle_waiting.len() == 0 {
            self.vehicle_slot = None;
            return None;
        }
        let mut line: VecDeque<String> = VecDeque::new();
        std::mem::swap(&mut line, &mut self.vehicle_waiting);
        let ghost before = line@;
        let next = match line.pop_front() {
            Some(n) => n,
            None => {
                self.vehicle_waiting = line;
                return None;
            },
        };
        assert(line@.map_values(|s: String| s@) =~= before.map_values(|s: String| s@).drop_first());
        self.vehicle_slot = Some(next.clone());
        self.vehicle_waiting = line;
        Some(next)
    }
}

/// The jobs after a worker starts job `id` with clock reading `at`: a job
/// that may run (see `may_run`) becomes running, started at `at`; nothing
/// else changes.
pub open spec fn job_begun(
    jobs: Map<Seq<char>, JobModel>,
    holder: Option<Seq<char>>,
    id: Seq<char>,
    at: Timestamp,
) -> Map<Seq<char>, JobModel> {
    if jobs.contains_key(id) && may_run(jobs[id], holder, id) {
        jobs.insert(id, JobModel { status: JobStatus::Running, started_at: Some(at), ..jobs[id] })
    } else {
        jobs
    }
}

/// The jobs after ETC job `id` ends with `outcome` at clock reading `at`.
pub open spec fn etc_job_finished(
    jobs: Map<Seq<char>, JobModel>,
    id: Seq<char>,
    outcome: Result<EtcScrapeResult, String>,
    at: Timestamp,
) -> Map<Seq<char>, JobModel> {
    if jobs.contains_key(id) {
        jobs.insert(
            id,
            match outcome {
                Ok(r) => JobModel {
                    status: JobStatus::Completed,
                    completed_at: Some(at),
                    etc_result: Some(r),
                    ..jobs[id]
                },
                Err(e) => JobModel {
                    status: JobStatus::Failed,
                    completed_at: Some(at),
                    error: Some(e),
                    ..jobs[id]
                },
            },
        )
    } else {
        jobs
    }
}

/// The jobs after vehicle job `id` ends with `outcome` at clock reading `at`.
pub open spec fn vehicle_job_finished(
    jobs: Map<Seq<char>, JobModel>,
    id: Seq<char>,
    outcome: Result<VehicleRun, String>,
    at: Timestamp,
) -> Map<Seq<char>, JobModel> {
    if jobs.contains_key(id) {
        jobs.insert(
            id,
            match outcome {
                Ok(run) => JobModel {
                    status: JobStatus::Completed,
                    completed_at: Some(at),
                    vehicle_count: Some(run.vehicle_count as i32),
                    hono_response: run.hono_response,
                    ..jobs[id]
                },
                Err(e) => JobModel {
                    status: JobStatus::Failed,
                    completed_at: Some(at),
                    error: Some(e),
                    ..jobs[id]
                },
            },
        )
    } else {
        jobs
    }
}

/// A job created under an id that the table does not hold yet (as every
/// creating method guarantees) replaces no job: every job there before is
/// still there, unchanged, the new job is there too, and the table holds one
/// job more.
pub proof fn law_new_job_replaces_none(jobs: Map<Seq<char>, JobModel>, id: Seq<char>, m: JobModel)
    requires
        !jobs.contains_key(id),
    ensures
        forall|k: Seq<char>| #[trigger]
            jobs.contains_key(k) ==> jobs.insert(id, m).contains_key(k) && jobs.insert(id, m)[k]
                == jobs[k],
        jobs.insert(id, m).contains_key(id) && jobs.insert(id, m)[id] == m,
        jobs.dom().finite() ==> jobs.insert(id, m).dom().len() == jobs.dom().len() + 1,
{
    assert(jobs.insert(id, m).dom() =~= jobs.dom().insert(id));
}

/// Two jobs created one after the other get different ids, and the table
/// then holds both next to every job it held before.
pub proof fn law_two_new_jobs_differ(
    jobs: Map<Seq<char>, JobModel>,
    id1: Seq<char>,
    m1: JobModel,
    id2: Seq<char>,
    m2: JobModel,
)
    requires
        !jobs.contains_key(id1),
        !jobs.insert(id1, m1).contains_key(id2),
    ensures
        id1 != id2,
        jobs.insert(id1, m1).insert(id2, m2)[id1] == m1,
        jobs.insert(id1, m1).insert(id2, m2)[id2] == m2,
        forall|k: Seq<char>| #[trigger]
            jobs.contains_key(k) ==> jobs.insert(id1, m1).insert(id2, m2).contains_key(k) && jobs.insert(
                id1,
                m1,
            ).insert(id2, m2)[k] == jobs[k],
        jobs.dom().finite() ==> jobs.insert(id1, m1).insert(id2, m2).dom().len() == jobs.dom().len() + 2,
{
    law_new_job_replaces_none(jobs, id1, m1);
    law_new_job_replaces_none(jobs.insert(id1, m1), id2, m2);
}

/// An ETC job that a worker starts at clock reading `t1` and that ends at
/// reading `t2` records `t1` as its start and `t2` as its completion, keeps
/// its creation time, and ends completed with its result or failed with its
/// error. Its times are in order whenever the readings are.
pub proof fn law_etc_job_times_are_the_readings(
    jobs: Map<Seq<char>, JobModel>,
    holder: Option<Seq<char>>,
    id: Seq<char>,
    t1: Timestamp,
    t2: Timestamp,
    outcome: Result<EtcScrapeResult, String>,
)
    requires
        jobs.contains_key(id),
        may_run(jobs[id], holder, id),
    ensures
        ({
            let f = etc_job_finished(job_begun(jobs, holder, id, t1), id, outcome, t2)[id];
            &&& f.created_at == jobs[id].created_at
            &&& f.started_at == Some(t1)
            &&& f.completed_at == Some(t2)
            &&& f.status == if outcome is Ok {
                JobStatus::Completed
            } else {
                JobStatus::Failed
            }
            &&& (!later_than(jobs[id].created_at@, t1@) && !later_than(t1@, t2@)) ==> {
                &&& !later_than(f.created_at@, f.started_at->0@)
                &&& !later_than(f.started_at->0@, f.completed_at->0@)
            }
        }),
{
}

/// A vehicle job that a worker starts at clock reading `t1` while it holds
/// the vehicle slot and that ends at reading `t2` records `t1` as its start
/// and `t2` as its completion, keeps its creation time, and ends completed
/// with its vehicle count or failed with its error.
pub proof fn law_vehicle_job_times_are_the_readings(
    jobs: Map<Seq<char>, JobModel>,
    id: Seq<char>,
    t1: Timestamp,
    t2: Timestamp,
    outcome: Result<VehicleRun, String>,
)
    requires
        jobs.contains_key(id),
    ensures
        ({
            let f = vehicle_job_finished(job_begun(jobs, Some(id), id, t1), id, outcome, t2)[id];
            &&& f.created_at == jobs[id].created_at
            &&& f.started_at == Some(t1)
            &&& f.completed_at == Some(t2)
            &&& (outcome matches Ok(run) ==> f.status == JobStatus::Completed && f.vehicle_count == Some(
                run.vehicle_count as i32,
            ))
            &&& (outcome is Err ==> f.status == JobStatus::Failed)
        }),
{
}

/// The batch result with account `index` marked running (when there is one).
pub open spec fn with_account_running(br: Option<EtcBatchResultModel>, index: usize) -> Option<EtcBatchResultModel> {
    match br {
        Some(r) => if index < r.accounts.len() {
            Some(
                EtcBatchResultModel {
                    accounts: r.accounts.update(
                        index as int,
                        AccountResult { status: JobStatus::Running, ..r.accounts[index as int] },
                    ),
                    ..r
                },
            )
        } else {
            Some(r)
        },
        None => None,
    }
}

/// `nr` is batch result `r` after the outcome of account `index` and with the
/// counts `p`.
pub open spec fn batch_recorded(
    r: EtcBatchResultModel,
    nr: EtcBatchResultModel,
    index: usize,
    outcome: AccountOutcome,
    p: BatchProgress,
) -> bool {
    &&& nr == EtcBatchResultModel {
        accounts: if index < r.accounts.len() {
            r.accounts.update(index as int, nr.accounts[index as int])
        } else {
            r.accounts
        },
        success_count: p.success_count,
        fail_count: p.fail_count,
        ..r
    }
    &&& index < r.accounts.len() ==> account_recorded(
        r.accounts[index as int],
        nr.accounts[index as int],
        outcome,
    )
}

/// The jobs after batch job `job_id` moves on to account `index`: its
/// current account is `index`, and that account (when there is one) is
/// marked running.
pub open spec fn account_begun(jobs: Map<Seq<char>, JobModel>, job_id: Seq<char>, index: usize) -> Map<
    Seq<char>,
    JobModel,
> {
    if jobs.contains_key(job_id) {
        let m = jobs[job_id];
        jobs.insert(
            job_id,
            JobModel {
                current_account_index: Some(index),
                batch_result: with_account_running(m.batch_result, index),
                ..m
            },
        )
    } else {
        jobs
    }
}

/// `after` and `p1` are the jobs and counts once the outcome of account
/// `index` of batch job `job_id` is in: when the job has a batch result, the
/// account's record (if the account is there) and the batch counts change,
/// and the counts advance by the outcome exactly when the account is there.
pub open spec fn outcome_recorded(
    before: Map<Seq<char>, JobModel>,
    after: Map<Seq<char>, JobModel>,
    job_id: Seq<char>,
    index: usize,
    outcome: AccountOutcome,
    p0: BatchProgress,
    p1: BatchProgress,
) -> bool {
    &&& p1 == if before.contains_key(job_id) && before[job_id].batch_result is Some && index
        < before[job_id].batch_result->0.accounts.len() {
        progress_after(p0, outcome)
    } else {
        p0
    }
    &&& if before.contains_key(job_id) && before[job_id].batch_result is Some {
        let m = before[job_id];
        &&& after.contains_key(job_id)
        &&& after[job_id].batch_result is Some
        &&& batch_recorded(m.batch_result->0, after[job_id].batch_result->0, index, outcome, p1)
        &&& after == before.insert(job_id, JobModel { batch_result: after[job_id].batch_result, ..m })
    } else {
        after == before
    }
}

impl JobManager {
    /// The record of job `job_id` with position `k` in the list.
    fn job_at(&self, k: usize) -> (j: Job)
        requires
            k < self.jobs@.len(),
        ensures
            j@ == self.jobs@[k as int]@,
            self.jobs().contains_key(j.id@),
            self.jobs()[j.id@] == j@,
    {
        proof {
            use_type_invariant(self);
            self.lemma_find_lookup(k as int);
        }
        self.jobs[k].clone()
    }

    /// The batch job `job_id` moves on to account `index`, which is marked
    /// running.
    pub fn begin_batch_account(&mut self, job_id: &str, index: usize)
        ensures
            final(self).running() == old(self).running(),
            final(self).queued() == old(self).queued(),
            final(self).config_spec() == old(self).config_spec(),
            final(self).vehicle_holder() == old(self).vehicle_holder(),
            final(self).vehicle_line() == old(self).vehicle_line(),
            final(self).jobs() == account_begun(old(self).jobs(), job_id@, index),
    {
        match self.find(job_id) {
            Some(k) => {
                let j = self.job_at(k);
                let batch_result = match j.batch_result {
                    Some(r) => {
                        let mut r = r;
                        if index < r.accounts.len() {
                            let mut a = r.accounts[index].clone();
                            a.set_running();
                            r.accounts.set(index, a);
                        }
                        Some(r)
                    },
                    None => None,
                };
                let updated = Job { current_account_index: Some(index), batch_result, ..j };
                proof {
                    use_type_invariant(&*self);
                }
                self.store(updated);
            },
            None => {
                proof {
                    self.lemma_absent(job_id@);
                }
            },
        }
    }

    /// Records the outcome of account `index` of batch job `job_id`: the
    /// account's record and the batch counts change when the account is
    /// there; the batch's counts then follow `progress`.
    pub fn record_batch_account(
        &mut self,
        job_id: &str,
        index: usize,
        outcome: AccountOutcome,
        progress: &mut BatchProgress,
    )
        requires
            old(progress).success_count < usize::MAX,
            old(progress).fail_count < usize::MAX,
        ensures
            final(self).running() == old(self).running(),
            final(self).queued() == old(self).queued(),
            final(self).config_spec() == old(self).config_spec(),
            final(self).vehicle_holder() == old(self).vehicle_holder(),
            final(self).vehicle_line() == old(self).vehicle_line(),
            outcome_recorded(
                old(self).jobs(),
                final(self).jobs(),
                job_id@,
                index,
                outcome,
                *old(progress),
                *final(progress),
            ),
    {
        match self.find(job_id) {
            Some(k) => {
                let j = self.job_at(k);
                match j.batch_result {
                    Some(r) => {
                        let mut r = r;
                        let ghost r0 = r@;
                        if index < r.accounts.len() {
                            let before = r.accounts[index].clone();
                            let p = advance_progress(*progress, &outcome);
                            let after = record_account(before, outcome);
                            r.accounts.set(index, after);
                            *progress = p;
                        }
                        r.success_count = progress.success_count;
                        r.fail_count = progress.fail_count;
                        let ghost r1 = r@;
                        assert(batch_recorded(r0, r1, index, outcome, *progress)) by {
                            if index < r0.accounts.len() {
                                assert(r1.accounts =~= r0.accounts.update(index as int, r1.accounts[index as int]));
                            }
                        }
                        let updated = Job { batch_result: Some(r), ..j };
                        proof {
                            use_type_invariant(&*self);
                        }
                        self.store(updated);
                    },
                    None => {},
                }
            },
            None => {
                proof {
                    self.lemma_absent(job_id@);
                }
            },
        }
    }

    /// Finalizes batch job `job_id` after its accounts: completion time
    /// recorded, no current account; failed with `"<n> of <total> accounts
    /// failed"` when any account failed, where `<total>` is the batch's
    /// account count, completed otherwise.
    pub fn finish_batch_job(&mut self, job_id: &str, progress: BatchProgress)
        ensures
            final(self).running() == old(self).running(),
            final(self).queued() == old(self).queued(),
            final(self).config_spec() == old(self).config_spec(),
            final(self).vehicle_holder() == old(self).vehicle_holder(),
            final(self).vehicle_line() == old(self).vehicle_line(),
            if old(self).jobs().contains_key(job_id@) {
                let m = old(self).jobs()[job_id@];
                let f = final(self).jobs()[job_id@];
                &&& final(self).jobs().contains_key(job_id@)
                &&& f.completed_at is Some
                &&& (progress.fail_count > 0 ==> f.error is Some && f.error->0@ == batch_failure_text(
                    progress.fail_count as nat,
                    batch_total(m) as nat,
                ))
                &&& final(self).jobs() == old(self).jobs().insert(
                    job_id@,
                    JobModel {
                        status: if progress.fail_count > 0 {
                            JobStatus::Failed
                        } else {
                            JobStatus::Completed
                        },
                        completed_at: f.completed_at,
                        current_account_index: None,
                        error: if progress.fail_count > 0 {
                            f.error
                        } else {
                            m.error
                        },
                        ..m
                    },
                )
            } else {
                final(self).jobs() == old(self).jobs()
            },
    {
        let at = now();
        self.finish_batch_job_at(job_id, progress, at);
    }

    /// As `finish_batch_job`, with `at` as the clock reading the record takes.
    pub fn finish_batch_job_at(&mut self, job_id: &str, progress: BatchProgress, at: Timestamp)
        ensures
            final(self).running() == old(self).running(),
            final(self).queued() == old(self).queued(),
            final(self).config_spec() == old(self).config_spec(),
            final(self).vehicle_holder() == old(self).vehicle_holder(),
            final(self).vehicle_line() == old(self).vehicle_line(),
            if old(self).jobs().contains_key(job_id@) {
                let m = old(self).jobs()[job_id@];
                let f = final(self).jobs()[job_id@];
                &&& final(self).jobs().contains_key(job_id@)
                &&& f.completed_at is Some
                &&& (progress.fail_count > 0 ==> f.error is Some && f.error->0@ == batch_failure_text(
                    progress.fail_count as nat,
                    batch_total(m) as nat,
                ))
                &&& final(self).jobs() == old(self).jobs().insert(
                    job_id@,
                    JobModel {
                        status: if progress.fail_count > 0 {
                            JobStatus::Failed
                        } else {
                            JobStatus::Completed
                        },
                        completed_at: Some(at),
                        current_account_index: None,
                        error: if progress.fail_count > 0 {
                            f.error
                        } else {
                            m.error
                        },
                        ..m
                    },
                )
            } else {
                final(self).jobs() == old(self).jobs()
            },
    {
        match self.find(job_id) {
            Some(k) => {
                let j = self.job_at(k);
                let total = match &j.batch_result {
                    Some(r) => r.total_count,
                    None => 0,
                };
                let done = Some(at);
                let updated = if progress.fail_count > 0 {
                    Job {
                        completed_at: done,
                        current_account_index: None,
                        status: JobStatus::Failed,
                        error: Some(batch_failure_message(progress.fail_count, total)),
                        ..j
                    }
                } else {
                    Job {
                        completed_at: done,
                        current_account_index: None,
                        status: JobStatus::Completed,
                        ..j
                    }
                };
                self.store(updated);
            },
            None => {
                proof {
                    self.lemma_absent(job_id@);
                }
            },
        }
    }
}

/// A request to the run of a batch: hand out the next account, or report the
/// outcome of the account in progress.
pub enum RunStep {
    /// Ask for the next account.
    Next,
    /// Report the outcome of the account in progress.
    Record,
}

/// A batch run's progress, as the number of accounts handed out and whether
/// the last of them is still in progress, after a request for the next
/// account.
pub open spec fn run_next(s: (nat, bool), total: nat) -> (nat, bool) {
    if !s.1 && s.0 < total {
        (s.0 + 1, true)
    } else {
        s
    }
}

/// The account a request for the next one hands out: the next in order,
/// when none is in progress and some are left.
pub open spec fn run_hands_out(s: (nat, bool), total: nat) -> Option<nat> {
    if !s.1 && s.0 < total {
        Some(s.0)
    } else {
        None
    }
}

/// The run once the account in progress has reported.
pub open spec fn run_record(s: (nat, bool)) -> (nat, bool) {
    (s.0, false)
}

/// A run of `total` accounts after `steps`, from its start: its progress,
/// and the accounts handed out, in the order they were handed out.
pub open spec fn run_trace(total: nat, steps: Seq<RunStep>) -> ((nat, bool), Seq<nat>)
    decreases steps.len(),
{
    if steps.len() == 0 {
        ((0, false), Seq::empty())
    } else {
        let (s, out) = run_trace(total, steps.drop_last());
        match steps.last() {
            RunStep::Next => (
                run_next(s, total),
                match run_hands_out(s, total) {
                    Some(i) => out.push(i),
                    None => out,
                },
            ),
            RunStep::Record => (run_record(s), out),
        }
    }
}

/// Over any sequence of requests and reports, the accounts of a batch are
/// handed out one at a time and in order: first account 0, then 1, then 2,
/// each once, none past the last; while one is in progress no other is handed
/// out, and the one in progress is the last handed out.
pub proof fn law_batch_accounts_in_order(total: nat, steps: Seq<RunStep>)
    ensures
        run_trace(total, steps).1 == Seq::new(run_trace(total, steps).0.0, |i: int| i as nat),
        run_trace(total, steps).0.0 <= total,
        run_trace(total, steps).0.1 ==> run_trace(total, steps).0.0 >= 1,
        run_trace(total, steps).0.1 ==> run_hands_out(run_trace(total, steps).0, total) is None,
    decreases steps.len(),
{
    if steps.len() > 0 {
        law_batch_accounts_in_order(total, steps.drop_last());
        let (s, out) = run_trace(total, steps.drop_last());
        match run_hands_out(s, total) {
            Some(i) => {
                assert(out.push(i) =~= Seq::new(s.0 + 1, |i: int| i as nat));
            },
            None => {},
        }
    }
}

/// The run of a batch job over its accounts, in order.
pub struct BatchRun {
    job_id: String,
    accounts: Vec<EtcAccountInfo>,
    started: usize,
    in_flight: bool,
    progress: BatchProgress,
}

impl BatchRun {
    #[verifier::type_invariant]
    closed spec fn inv(self) -> bool {
        &&& self.started <= self.accounts@.len()
        &&& self.in_flight ==> self.started >= 1
        &&& self.progress.success_count + self.progress.fail_count <= self.started - if self.in_flight {
            1int
        } else {
            0int
        }
    }

    /// The batch job being run.
    pub closed spec fn job(&self) -> Seq<char> {
        self.job_id@
    }

    /// The accounts, in the order they are run.
    pub closed spec fn account_list(&self) -> Seq<EtcAccountInfo> {
        self.accounts@
    }

    /// How many accounts were handed out, and whether the last is in progress.
    pub closed spec fn state(&self) -> (nat, bool) {
        (self.started as nat, self.in_flight)
    }

    /// The counts of the accounts recorded so far.
    pub closed spec fn progress_spec(&self) -> BatchProgress {
        self.progress
    }

    /// A run of batch job `job_id` over `accounts`, none handed out yet.
    pub fn new(job_id: String, accounts: Vec<EtcAccountInfo>) -> (r: Self)
        ensures
            r.job() == job_id@,
            r.account_list() == accounts@,
            r.state() == (0nat, false),
            r.progress_spec() == (BatchProgress { success_count: 0, fail_count: 0 }),
    {
        BatchRun { job_id, accounts, started: 0, in_flight: false, progress: BatchProgress::new() }
    }

    /// The batch job being run.
    pub fn job_id(&self) -> (id: &String)
        ensures
            id@ == self.job(),
    {
        &self.job_id
    }

    /// The counts of the accounts recorded so far.
    pub fn progress(&self) -> (p: BatchProgress)
        ensures
            p == self.progress_spec(),
    {
        self.progress
    }
}

impl JobManager {
    /// Hands out the next account of `run`, in order, and marks it running in
    /// the batch job; nothing when an account is still in progress or all
    /// were handed out. Returns the account's index and its details.
    pub fn next_batch_account(&mut self, run: &mut BatchRun) -> (r: Option<(usize, EtcAccountInfo)>)
        ensures
            final(run).state() == run_next(old(run).state(), old(run).account_list().len()),
            final(run).job() == old(run).job(),
            final(run).account_list() == old(run).account_list(),
            final(run).progress_spec() == old(run).progress_spec(),
            final(self).running() == old(self).running(),
            final(self).queued() == old(self).queued(),
            final(self).config_spec() == old(self).config_spec(),
            final(self).vehicle_holder() == old(self).vehicle_holder(),
            final(self).vehicle_line() == old(self).vehicle_line(),
            match run_hands_out(old(run).state(), old(run).account_list().len()) {
                Some(i) => {
                    &&& r matches Some((k, a))
                    &&& k == i
                    &&& a == old(run).account_list()[i as int]
                    &&& final(self).jobs() == account_begun(old(self).jobs(), old(run).job(), k)
                },
                None => r is None && final(self).jobs() == old(self).jobs(),
            },
    {
        proof {
            use_type_invariant(&*run);
        }
        if run.in_flight || run.started >= run.accounts.len() {
            return None;
        }
        let index = run.started;
        let account = run.accounts[index].clone();
        self.begin_batch_account(run.job_id.as_str(), index);
        run.started = index + 1;
        run.in_flight = true;
        Some((index, account))
    }

    /// Records the outcome of the account of `run` in progress in the batch
    /// job and in the run's counts; nothing when no account is in progress.
    pub fn record_batch_outcome(&mut self, run: &mut BatchRun, outcome: AccountOutcome)
        ensures
            final(run).state() == run_record(old(run).state()),
            final(run).job() == old(run).job(),
            final(run).account_list() == old(run).account_list(),
            final(self).running() == old(self).running(),
            final(self).queued() == old(self).queued(),
            final(self).config_spec() == old(self).config_spec(),
            final(self).vehicle_holder() == old(self).vehicle_holder(),
            final(self).vehicle_line() == old(self).vehicle_line(),
            if old(run).state().1 {
                outcome_recorded(
                    old(self).jobs(),
                    final(self).jobs(),
                    old(run).job(),
                    (old(run).state().0 - 1) as usize,
                    outcome,
                    old(run).progress_spec(),
                    final(run).progress_spec(),
                )
            } else {
                &&& final(self).jobs() == old(self).jobs()
                &&& final(run).progress_spec() == old(run).progress_spec()
            },
    {
        proof {
            use_type_invariant(&*run);
        }
        if !run.in_flight {
            return;
        }
        let index = run.started - 1;
        let mut p = run.progress;
        self.record_batch_account(run.job_id.as_str(), index, outcome, &mut p);
        run.in_flight = false;
        run.progress = p;
    }
}

/// The task that runs a recorded job.
fn task_of(j: &Job) -> (t: Option<JobTask>)
    ensures
        task_for(t, j@),
{
    match j.job_type {
        JobType::EtcScrape => match &j.etc_request {
            Some(req) => Some(JobTask::Etc { job_id: j.id.clone(), request: req.clone() }),
            None => None,
        },
        JobType::EtcScrapeBatch => match (&j.batch_request, &j.batch_result) {
            (Some(req), Some(res)) => Some(
                JobTask::EtcBatch {
                    job_id: j.id.clone(),
                    request: req.clone(),
                    session_folder: res.session_folder.clone(),
                },
            ),
            _ => None,
        },
        JobType::Vehicle => None,
    }
}

proof fn lemma_filter_distinct_map(s: Seq<JobModel>, t: JobType)
    requires
        distinct_ids(s),
    ensures
        distinct_ids(s.filter(|m: JobModel| m.job_type == t)),
        jobs_by_id(s.filter(|m: JobModel| m.job_type == t)) == jobs_by_id(s).restrict(
            jobs_by_id(s).dom().filter(|id: Seq<char>| jobs_by_id(s)[id].job_type == t),
        ),
    decreases s.len(),
{
    let keep = |m: JobModel| m.job_type == t;
    reveal(Seq::filter);
    if s.len() == 0 {
        assert(jobs_by_id(s.filter(keep)) =~= jobs_by_id(s).restrict(
            jobs_by_id(s).dom().filter(|id: Seq<char>| jobs_by_id(s)[id].job_type == t),
        ));
    } else {
        let u = s.drop_last();
        assert(distinct_ids(u));
        lemma_filter_distinct_map(u, t);
        lemma_jobs_by_id_contents(s);
        lemma_jobs_by_id_contents(u);
        let fu = u.filter(keep);
        assert forall|i: int| 0 <= i < fu.len() implies fu[i].id@ != s.last().id@ by {
            assert(fu.contains(fu[i]));
            u.lemma_filter_contains_rev(keep, fu[i]);
            assert(u.contains(fu[i]));
            let k = choose|k: int| 0 <= k < u.len() && u[k] == fu[i];
            assert(s[k] == u[k]);
        }
        if keep(s.last()) {
            assert(s.filter(keep) =~= fu.push(s.last()));
            lemma_jobs_by_id_push(fu, s.last());
        } else {
            assert(s.filter(keep) =~= fu);
        }
        lemma_jobs_by_id_absent(u, s.last().id@);
        assert(jobs_by_id(s.filter(keep)) =~= jobs_by_id(s).restrict(
            jobs_by_id(s).dom().filter(|id: Seq<char>| jobs_by_id(s)[id].job_type == t),
        ));
    }
}

} // verus!
