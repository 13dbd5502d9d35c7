//! Rules of the HTTP API: parameter checks, path safety for the ETC session
//! files, listings and the texts of the replies.
use vstd::prelude::*;
use vstd::relations::sorted_by;
use vstd::utf8::encode_utf8;

use crate::clock::compact_shape;
use crate::browser::renderer::{renderer_error_status, renderer_error_text, RendererError};
use crate::text::{
    chars_of, concat_str, contains_char, contains_double_dot, decimal, decimal_string,
    eq_ignore_ascii_case, has_double_dot, last_index, last_index_of, name_order,
    range_eq_ignore_ascii_case, sort_by_name,
};

verus! {

// ========== Names and paths ==========
/// A session folder name: 15 bytes of UTF-8 with `_` as its ninth character,
/// the shape of `YYYYMMDD_HHMMSS`.
pub open spec fn is_session_name(s: Seq<char>) -> bool {
    encode_utf8(s).len() == 15 && s.len() > 8 && s[8] == '_'
}

/// A path component that could leave its folder: it holds `..`, `/` or `\`.
pub open spec fn is_unsafe_component(s: Seq<char>) -> bool {
    has_double_dot(s) || s.contains('/') || s.contains('\\')
}

/// A file name whose extension (the text after its last dot, when that dot
/// is not the first character) is `csv` in any letter case, as
/// `Path::extension` and `eq_ignore_ascii_case` judge it.
pub open spec fn has_csv_extension(s: Seq<char>) -> bool {
    let p = last_index_of(s, '.');
    p > 0 && eq_ignore_ascii_case(s.skip(p + 1), "csv"@)
}

/// A file name that lower-cases to something ending in `.csv`.
pub open spec fn ends_with_csv(s: Seq<char>) -> bool {
    s.len() >= 4 && eq_ignore_ascii_case(s.skip(s.len() - 4), ".csv"@)
}

/// A text of ASCII characters takes one byte per character in UTF-8.
pub proof fn lemma_ascii_utf8_len(s: Seq<char>)
    requires
        forall|i: int| 0 <= i < s.len() ==> (#[trigger] s[i] as u32) < 0x80,
    ensures
        encode_utf8(s).len() == s.len(),
    decreases s.len(),
{
    if s.len() > 0 {
        assert(s[0] as u32 <= 0x7F);
        lemma_ascii_utf8_len(s.drop_first());
    }
}

/// A `YYYYMMDD_HHMMSS` text is a session folder name.
pub proof fn lemma_compact_is_session_name(t: Seq<char>)
    requires
        compact_shape(t),
    ensures
        is_session_name(t),
{
    assert forall|i: int| 0 <= i < t.len() implies (#[trigger] t[i] as u32) < 0x80 by {
        if i != 8 {
            assert('0' <= t[i] <= '9');
        }
    }
    lemma_ascii_utf8_len(t);
}

/// Whether `name` has the shape of a session folder name.
pub fn session_name_ok(name: &str) -> (b: bool)
    ensures
        b == is_session_name(name@),
{
    name.as_bytes().len() == 15 && name.unicode_len() > 8 && name.get_char(8) == '_'
}

/// Whether `s` could leave its folder.
pub fn unsafe_component(s: &str) -> (b: bool)
    ensures
        b == is_unsafe_component(s@),
{
    let v = chars_of(s);
    contains_double_dot(&v) || contains_char(&v, '/') || contains_char(&v, '\\')
}

/// Whether a file name has the extension `csv`.
pub fn csv_extension(name: &str) -> (b: bool)
    ensures
        b == has_csv_extension(name@),
{
    let v = chars_of(name);
    let csv = chars_of("csv");
    let found = last_index(&v, '.');
    match found {
        Some(p) => {
            assert(p < v@.len());
            assert(v@.len() == v.len());
            assert(p + 1 <= v.len());
            if p == 0 {
                return false;
            }
            let r = range_eq_ignore_ascii_case(&v, p + 1, v.len(), &csv);
            assert(v@.subrange(p + 1, v@.len() as int) =~= v@.skip(p + 1));
            r
        },
        None => false,
    }
}

/// The number of names with the extension `csv`.
pub open spec fn csv_count_of(names: Seq<String>) -> nat
    decreases names.len(),
{
    if names.len() == 0 {
        0
    } else {
        csv_count_of(names.drop_last()) + if has_csv_extension(names.last()@) {
            1nat
        } else {
            0nat
        }
    }
}

proof fn lemma_csv_count_bounded(names: Seq<String>)
    ensures
        csv_count_of(names) <= names.len(),
    decreases names.len(),
{
    if names.len() > 0 {
        lemma_csv_count_bounded(names.drop_last());
    }
}

/// How many of the file names of a session folder have the extension `csv`.
pub fn count_csv_files(names: &Vec<String>) -> (n: u64)
    ensures
        n == csv_count_of(names@),
{
    let mut n: u64 = 0;
    let mut i: usize = 0;
    while i < names.len()
        invariant
            i <= names@.len(),
            n == csv_count_of(names@.take(i as int)),
        decreases names@.len() - i,
    {
        proof {
            lemma_csv_count_bounded(names@.take(i as int));
            assert(names@.take(i + 1).drop_last() =~= names@.take(i as int));
        }
        if csv_extension(names[i].as_str()) {
            n = n + 1;
        }
        i = i + 1;
    }
    assert(names@.take(names@.len() as int) =~= names@);
    n
}

/// Whether a file name ends in `.csv` in any letter case.
pub fn csv_file_name(name: &str) -> (b: bool)
    ensures
        b == ends_with_csv(name@),
{
    let v = chars_of(name);
    let suffix = chars_of(".csv");
    if v.len() < 4 {
        return false;
    }
    let r = range_eq_ignore_ascii_case(&v, v.len() - 4, v.len(), &suffix);
    assert(v@.subrange(v@.len() - 4, v@.len() as int) =~= v@.skip(v@.len() - 4));
    r
}

// ========== Error replies ==========
/// An error answer: HTTP status and message.
#[derive(Debug)]
pub struct ErrorReply {
    pub status: u16,
    pub error: String,
}

/// Checks the session id of a file listing.
pub fn check_session_files_request(session_id: &str) -> (r: Result<(), ErrorReply>)
    ensures
        !is_session_name(session_id@) ==> (r matches Err(e) && e.status == 400 && e.error@
            == "Invalid session ID format. Expected YYYYMMDD_HHMMSS"@),
        is_session_name(session_id@) && is_unsafe_component(session_id@) ==> (r matches Err(e)
            && e.status == 400 && e.error@ == "Invalid session ID"@),
        is_session_name(session_id@) && !is_unsafe_component(session_id@) ==> r is Ok,
{
    if !session_name_ok(session_id) {
        return Err(
            ErrorReply {
                status: 400,
                error: String::from_str("Invalid session ID format. Expected YYYYMMDD_HHMMSS"),
            },
        );
    }
    if unsafe_component(session_id) {
        return Err(ErrorReply { status: 400, error: String::from_str("Invalid session ID") });
    }
    Ok(())
}

/// Checks a file download: a well-formed session id, no path escape in
/// either part, and a CSV file name.
pub fn check_download_request(session_id: &str, filename: &str) -> (r: Result<(), ErrorReply>)
    ensures
        !is_session_name(session_id@) ==> (r matches Err(e) && e.status == 400 && e.error@
            == "Invalid session ID format"@),
        is_session_name(session_id@) && (is_unsafe_component(session_id@) || is_unsafe_component(
            filename@,
        )) ==> (r matches Err(e) && e.status == 400 && e.error@ == "Invalid path"@),
        is_session_name(session_id@) && !is_unsafe_component(session_id@) && !is_unsafe_component(
            filename@,
        ) && !ends_with_csv(filename@) ==> (r matches Err(e) && e.status == 400 && e.error@
            == "Only CSV files can be downloaded"@),
        r is Ok <==> is_session_name(session_id@) && !is_unsafe_component(session_id@)
            && !is_unsafe_component(filename@) && ends_with_csv(filename@),
{
    if !session_name_ok(session_id) {
        return Err(ErrorReply { status: 400, error: String::from_str("Invalid session ID format") });
    }
    if unsafe_component(session_id) || unsafe_component(filename) {
        return Err(ErrorReply { status: 400, error: String::from_str("Invalid path") });
    }
    if !csv_file_name(filename) {
        return Err(
            ErrorReply { status: 400, error: String::from_str("Only CSV files can be downloaded") },
        );
    }
    Ok(())
}

/// The session id of a query: present and non-empty, or refused with 400
/// and `Session ID is required`.
pub fn required_session_id(param: Option<String>) -> (r: Result<String, String>)
    ensures
        match param {
            Some(id) => if id@.len() > 0 {
                r == Ok::<String, String>(id)
            } else {
                r matches Err(m) && m@ == "Session ID is required"@
            },
            None => r matches Err(m) && m@ == "Session ID is required"@,
        },
{
    match param {
        Some(id) => {
            if id.as_str().is_empty() {
                Err(String::from_str("Session ID is required"))
            } else {
                Ok(id)
            }
        },
        None => Err(String::from_str("Session ID is required")),
    }
}

/// The answer to a failed session clear: the error's status and
/// `Failed to clear session: <error>`.
pub fn clear_session_failure(e: &RendererError) -> (r: ErrorReply)
    ensures
        r.status == renderer_error_status(*e),
        r.error@ == "Failed to clear session: "@ + renderer_error_text(*e),
{
    ErrorReply {
        status: e.http_status_code(),
        error: concat_str(String::from_str("Failed to clear session: "), e.message().as_str()),
    }
}

/// The answer for an unknown job.
pub fn job_not_found(job_id: &str) -> (r: ErrorReply)
    ensures
        r.status == 404,
        r.error@ == "Job not found: "@ + job_id@,
{
    ErrorReply { status: 404, error: concat_str(String::from_str("Job not found: "), job_id) }
}

/// The answer for a session folder that does not exist.
pub fn session_not_found(session_id: &str) -> (r: ErrorReply)
    ensures
        r.status == 404,
        r.error@ == "Session not found: "@ + session_id@,
{
    ErrorReply { status: 404, error: concat_str(String::from_str("Session not found: "), session_id) }
}

/// The answer for a file that does not exist.
pub fn file_not_found(filename: &str) -> (r: ErrorReply)
    ensures
        r.status == 404,
        r.error@ == "File not found: "@ + filename@,
{
    ErrorReply { status: 404, error: concat_str(String::from_str("File not found: "), filename) }
}

/// The answer when the file system refuses a read: status 500 and `what`
/// followed by the error's text.
pub fn read_failure(what: &str, error: &str) -> (r: ErrorReply)
    ensures
        r.status == 500,
        r.error@ == what@ + ": "@ + error@,
{
    let e = concat_str(String::from_str(what), ": ");
    ErrorReply { status: 500, error: concat_str(e, error) }
}

/// The `Content-Disposition` of a downloaded file.
pub fn attachment_disposition(filename: &str) -> (s: String)
    ensures
        s@ == "attachment; filename=\""@ + filename@ + "\""@,
{
    let s = concat_str(String::from_str("attachment; filename=\""), filename);
    concat_str(s, "\"")
}

// ========== Listings ==========
/// A directory entry of the download folder.
#[derive(Debug)]
pub struct SessionDirEntry {
    pub name: String,
    pub is_dir: bool,
    /// Number of CSV files inside (when it is a directory).
    pub csv_count: u64,
}

/// A directory entry of a session folder.
#[derive(Debug)]
pub struct SessionFileEntry {
    pub name: String,
    pub is_file: bool,
    pub size: u64,
}

/// The sessions of a listing: directories with session names, as `(name,
/// CSV count)`.
pub open spec fn session_rows(entries: Seq<SessionDirEntry>) -> Seq<(String, u64)> {
    entries.filter(|e: SessionDirEntry| is_session_name(e.name@) && e.is_dir).map_values(
        |e: SessionDirEntry| (e.name, e.csv_count),
    )
}

/// The CSV files of a session folder, as `(name, size)`.
pub open spec fn file_rows(entries: Seq<SessionFileEntry>) -> Seq<(String, u64)> {
    entries.filter(|e: SessionFileEntry| e.is_file && has_csv_extension(e.name@)).map_values(
        |e: SessionFileEntry| (e.name, e.size),
    )
}

/// The session folders of a listing, newest (greatest name) first.
pub fn list_sessions(entries: Vec<SessionDirEntry>) -> (r: Vec<(String, u64)>)
    ensures
        sorted_by(r@, name_order(true)),
        r@.to_multiset() == session_rows(entries@).to_multiset(),
{
    let ghost input = entries@;
    let ghost keep = |e: SessionDirEntry| is_session_name(e.name@) && e.is_dir;
    let ghost row = |e: SessionDirEntry| (e.name, e.csv_count);
    let mut rows: Vec<(String, u64)> = Vec::new();
    let mut rest = entries;
    while rest.len() > 0
        invariant
            rest@.len() <= input.len(),
            rest@ == input.skip(input.len() - rest@.len()),
            keep == (|e: SessionDirEntry| is_session_name(e.name@) && e.is_dir),
            row == (|e: SessionDirEntry| (e.name, e.csv_count)),
            rows@ == input.take(input.len() - rest@.len()).filter(keep).map_values(row),
        decreases rest@.len(),
    {
        let ghost k = input.len() - rest@.len();
        let e = rest.remove(0);
        assert(e == input[k]);
        assert(rest@ =~= input.skip(k + 1));
        assert(input.take(k + 1).drop_last() =~= input.take(k));
        proof {
            reveal(Seq::filter);
        }
        let ok = session_name_ok(e.name.as_str()) && e.is_dir;
        if ok {
            rows.push((e.name, e.csv_count));
            assert(rows@ =~= input.take(k + 1).filter(keep).map_values(row));
        } else {
            assert(input.take(k + 1).filter(keep) == input.take(k).filter(keep));
        }
    }
    assert(input.take(input.len() as int) =~= input);
    sort_by_name(rows, true)
}

/// The CSV files of a session folder, by name.
pub fn list_session_files(entries: Vec<SessionFileEntry>) -> (r: Vec<(String, u64)>)
    ensures
        sorted_by(r@, name_order(false)),
        r@.to_multiset() == file_rows(entries@).to_multiset(),
{
    let ghost input = entries@;
    let ghost keep = |e: SessionFileEntry| e.is_file && has_csv_extension(e.name@);
    let ghost row = |e: SessionFileEntry| (e.name, e.size);
    let mut rows: Vec<(String, u64)> = Vec::new();
    let mut rest = entries;
    while rest.len() > 0
        invariant
            rest@.len() <= input.len(),
            rest@ == input.skip(input.len() - rest@.len()),
            keep == (|e: SessionFileEntry| e.is_file && has_csv_extension(e.name@)),
            row == (|e: SessionFileEntry| (e.name, e.size)),
            rows@ == input.take(input.len() - rest@.len()).filter(keep).map_values(row),
        decreases rest@.len(),
    {
        let ghost k = input.len() - rest@.len();
        let e = rest.remove(0);
        assert(e == input[k]);
        assert(rest@ =~= input.skip(k + 1));
        assert(input.take(k + 1).drop_last() =~= input.take(k));
        proof {
            reveal(Seq::filter);
        }
        let ok = e.is_file && csv_extension(e.name.as_str());
        if ok {
            rows.push((e.name, e.size));
            assert(rows@ =~= input.take(k + 1).filter(keep).map_values(row));
        } else {
            assert(input.take(k + 1).filter(keep) == input.take(k).filter(keep));
        }
    }
    assert(input.take(input.len() as int) =~= input);
    sort_by_name(rows, false)
}

// ========== Reply texts ==========
/// The reply to a job creation.
#[derive(Debug)]
pub struct JobCreatedReply {
    pub job_id: String,
    pub status: String,
    pub message: String,
}

/// The hint that ends every creation message.
pub open spec fn status_hint() -> Seq<char> {
    " Use /v1/job/{id} to check status."@
}

/// The note of the queue endpoints.
pub open spec fn idle_note() -> Seq<char> {
    " Will run when system is idle."@
}

/// The reply to `GET /v1/vehicle/data`.
pub fn vehicle_job_reply(job_id: String) -> (r: JobCreatedReply)
    ensures
        r.job_id == job_id,
        r.status@ == "pending"@,
        r.message@ == "Job created successfully."@ + status_hint(),
{
    let m = concat_str(String::from_str("Job created successfully."), " Use /v1/job/{id} to check status.");
    JobCreatedReply { job_id, status: String::from_str("pending"), message: m }
}

/// The reply to the ETC scrape endpoints.
pub fn etc_job_reply(job_id: String, queued: bool) -> (r: JobCreatedReply)
    ensures
        r.job_id == job_id,
        r.status@ == if queued {
            "queued"@
        } else {
            "pending"@
        },
        r.message@ == if queued {
            "ETC scrape job queued."@ + idle_note() + status_hint()
        } else {
            "ETC scrape job created."@ + status_hint()
        },
{
    if queued {
        let m = concat_str(String::from_str("ETC scrape job queued."), " Will run when system is idle.");
        let m = concat_str(m, " Use /v1/job/{id} to check status.");
        JobCreatedReply { job_id, status: String::from_str("queued"), message: m }
    } else {
        let m = concat_str(String::from_str("ETC scrape job created."), " Use /v1/job/{id} to check status.");
        JobCreatedReply { job_id, status: String::from_str("pending"), message: m }
    }
}

/// The message of the ETC batch endpoints.
pub open spec fn batch_reply_message(count: nat, queued: bool, from_env: bool) -> Seq<char> {
    "ETC batch scrape job "@ + (if queued {
        "queued"@
    } else {
        "created"@
    }) + " for "@ + decimal(count) + " accounts"@ + (if from_env {
        " from env."@
    } else {
        "."@
    }) + (if queued {
        idle_note()
    } else {
        Seq::empty()
    }) + status_hint()
}

/// The reply to the ETC batch endpoints for `count` accounts.
pub fn batch_job_reply(job_id: String, count: usize, queued: bool, from_env: bool) -> (r: JobCreatedReply)
    ensures
        r.job_id == job_id,
        r.status@ == if queued {
            "queued"@
        } else {
            "pending"@
        },
        r.message@ == batch_reply_message(count as nat, queued, from_env),
{
    let m = String::from_str("ETC batch scrape job ");
    let m = concat_str(m, if queued { "queued" } else { "created" });
    let m = concat_str(m, " for ");
    let m = concat_str(m, decimal_string(count as u64).as_str());
    let m = concat_str(m, " accounts");
    let m = concat_str(m, if from_env { " from env." } else { "." });
    let m = if queued {
        concat_str(m, " Will run when system is idle.")
    } else {
        m
    };
    let m = concat_str(m, " Use /v1/job/{id} to check status.");
    JobCreatedReply {
        job_id,
        status: if queued { String::from_str("queued") } else { String::from_str("pending") },
        message: m,
    }
}

/// The job request of an environment batch body: the body's download path
/// and headless flag when given, else the default path and headless mode.
pub fn env_batch_request(
    accounts: Vec<crate::jobs::EtcAccountInfo>,
    download_path: Option<String>,
    headless: Option<bool>,
    default_path: String,
) -> (r: crate::jobs::EtcBatchRequest)
    ensures
        r.accounts@ == accounts@,
        r.download_path == match download_path {
            Some(p) => p,
            None => default_path,
        },
        r.headless == match headless {
            Some(h) => h,
            None => true,
        },
{
    crate::jobs::EtcBatchRequest {
        accounts,
        download_path: match download_path {
            Some(p) => p,
            None => default_path,
        },
        headless: match headless {
            Some(h) => h,
            None => true,
        },
    }
}

} // verus!
