//! gRPC-Web JSON mode: the method table and the framing rules that let a
//! browser send `application/grpc-web+json` instead of Protobuf.
//!
//! The layer recognizes JSON requests, unwraps their payload, and re-frames
//! the service's answer as JSON; the conversion between JSON values and the
//! generated Protobuf messages happens at the transport edge.
use base64::Engine;
use vstd::prelude::*;

use crate::grpc_web_client::{
    be32, be32_at, data_frame, frame, grpc_web_response, law_frame_head_reads_back,
    law_response_read_back, law_status_response_read_back, lemma_encode_utf8_len, plain_message,
    push_frame, status_only_trailer, status_trailer,
};
use crate::text::signed_decimal;
use crate::server::grpc_json::{
    AccountResult, EtcBatchEnvRequest, EtcBatchRequest, EtcScrapeRequest, Job,
};
use crate::text::{chars_of, concat_str, starts_with_str};

verus! {

/// Where a gRPC path leads.
#[derive(Debug)]
pub struct HandlerInfo {
    pub service: String,
    pub method: String,
    pub is_streaming: bool,
}

impl Clone for HandlerInfo {
    fn clone(&self) -> (r: Self)
        ensures
            r == *self,
    {
        HandlerInfo {
            service: self.service.clone(),
            method: self.method.clone(),
            is_streaming: self.is_streaming,
        }
    }
}

/// The methods served in JSON mode: `(service, method, streaming)`.
pub open spec fn json_methods() -> Seq<(Seq<char>, Seq<char>, bool)> {
    seq![
        ("BrowserRenderService"@, "GetVehicleData"@, false),
        ("BrowserRenderService"@, "CheckSession"@, false),
        ("BrowserRenderService"@, "ClearSession"@, false),
        ("BrowserRenderService"@, "HealthCheck"@, false),
        ("EtcScraperService"@, "EtcScrape"@, false),
        ("EtcScraperService"@, "EtcScrapeQueue"@, false),
        ("EtcScraperService"@, "EtcScrapeBatch"@, false),
        ("EtcScraperService"@, "EtcScrapeBatchQueue"@, false),
        ("EtcScraperService"@, "EtcScrapeBatchEnv"@, false),
        ("EtcScraperService"@, "EtcScrapeBatchEnvQueue"@, false),
        ("EtcScraperService"@, "GetJob"@, false),
        ("EtcScraperService"@, "ListJobs"@, false),
        ("EtcScraperService"@, "GetQueueStatus"@, false),
        ("EtcScraperService"@, "ListSessions"@, false),
        ("EtcScraperService"@, "ListSessionFiles"@, false),
        ("EtcScraperService"@, "DownloadFile"@, true),
    ]
}

/// The gRPC path of a method: `/browser_render.v1.<service>/<method>`.
pub open spec fn method_path(service: Seq<char>, method: Seq<char>) -> Seq<char> {
    "/browser_render.v1."@ + service + "/"@ + method
}

/// `h` describes entry `e` of the method table.
pub open spec fn describes(h: HandlerInfo, e: (Seq<char>, Seq<char>, bool)) -> bool {
    h.service@ == e.0 && h.method@ == e.1 && h.is_streaming == e.2
}

/// gRPC-Web JSON Layer: the table of methods it converts.
#[derive(Debug)]
pub struct GrpcWebJsonLayer {
    handlers: Vec<(String, HandlerInfo)>,
}

/// The table holds, in order, one entry per method, keyed by its path.
pub open spec fn is_method_table(t: Seq<(String, HandlerInfo)>) -> bool {
    &&& t.len() == json_methods().len()
    &&& forall|i: int|
        0 <= i < t.len() ==> #[trigger] t[i].0@ == method_path(json_methods()[i].0, json_methods()[i].1)
            && describes(t[i].1, json_methods()[i])
}

impl GrpcWebJsonLayer {
    /// The table of this layer.
    pub closed spec fn table(&self) -> Seq<(String, HandlerInfo)> {
        self.handlers@
    }

    /// A layer that converts every method of the two services.
    pub fn new() -> (l: Self)
        ensures
            is_method_table(l.table()),
    {
        let mut handlers: Vec<(String, HandlerInfo)> = Vec::new();
        add_handler(&mut handlers, "BrowserRenderService", "GetVehicleData", false);
        add_handler(&mut handlers, "BrowserRenderService", "CheckSession", false);
        add_handler(&mut handlers, "BrowserRenderService", "ClearSession", false);
        add_handler(&mut handlers, "BrowserRenderService", "HealthCheck", false);
        add_handler(&mut handlers, "EtcScraperService", "EtcScrape", false);
        add_handler(&mut handlers, "EtcScraperService", "EtcScrapeQueue", false);
        add_handler(&mut handlers, "EtcScraperService", "EtcScrapeBatch", false);
        add_handler(&mut handlers, "EtcScraperService", "EtcScrapeBatchQueue", false);
        add_handler(&mut handlers, "EtcScraperService", "EtcScrapeBatchEnv", false);
        add_handler(&mut handlers, "EtcScraperService", "EtcScrapeBatchEnvQueue", false);
        add_handler(&mut handlers, "EtcScraperService", "GetJob", false);
        add_handler(&mut handlers, "EtcScraperService", "ListJobs", false);
        add_handler(&mut handlers, "EtcScraperService", "GetQueueStatus", false);
        add_handler(&mut handlers, "EtcScraperService", "ListSessions", false);
        add_handler(&mut handlers, "EtcScraperService", "ListSessionFiles", false);
        add_handler(&mut handlers, "EtcScraperService", "DownloadFile", true);
        let l = GrpcWebJsonLayer { handlers };
        assert(l.table().len() == json_methods().len());
        l
    }

    /// The handler of `path`: the first table entry with that path.
    pub fn handler(&self, path: &str) -> (r: Option<HandlerInfo>)
        ensures
            match r {
                Some(h) => exists|i: int|
                    0 <= i < self.table().len() && (#[trigger] self.table()[i]).0@ == path@ && h
                        == self.table()[i].1,
                None => forall|i: int|
                    0 <= i < self.table().len() ==> (#[trigger] self.table()[i]).0@ != path@,
            },
    {
        let key = String::from_str(path);
        let mut i: usize = 0;
        while i < self.handlers.len()
            invariant
                i <= self.handlers@.len(),
                key@ == path@,
                forall|k: int| 0 <= k < i ==> (#[trigger] self.handlers@[k]).0@ != path@,
            decreases self.handlers@.len() - i,
        {
            if self.handlers[i].0 == key {
                let h = self.handlers[i].1.clone();
                assert(self.table()[i as int].0@ == path@);
                assert(h == self.table()[i as int].1);
                return Some(h);
            }
            i = i + 1;
        }
        None
    }

    /// Wraps a service so that its JSON-mode requests are converted.
    pub fn layer<S>(&self, inner: S) -> (s: GrpcWebJsonService<S>)
        ensures
            s.inner == inner,
            s.layer.table() == self.table(),
    {
        GrpcWebJsonService { inner, layer: self.clone_table() }
    }

    fn clone_table(&self) -> (l: GrpcWebJsonLayer)
        ensures
            l.table() == self.table(),
    {
        let mut handlers: Vec<(String, HandlerInfo)> = Vec::new();
        let mut i: usize = 0;
        while i < self.handlers.len()
            invariant
                i <= self.handlers@.len(),
                handlers@ == self.handlers@.take(i as int),
            decreases self.handlers@.len() - i,
        {
            let e = (self.handlers[i].0.clone(), self.handlers[i].1.clone());
            handlers.push(e);
            assert(handlers@ =~= self.handlers@.take(i + 1));
            i = i + 1;
        }
        assert(self.handlers@.take(self.handlers@.len() as int) =~= self.handlers@);
        GrpcWebJsonLayer { handlers }
    }
}

impl Default for GrpcWebJsonLayer {
    fn default() -> (l: Self)
        ensures
            is_method_table(l.table()),
    {
        Self::new()
    }
}

fn add_handler(handlers: &mut Vec<(String, HandlerInfo)>, service: &str, method: &str, streaming: bool)
    ensures
        final(handlers)@.len() == old(handlers)@.len() + 1,
        forall|i: int| 0 <= i < old(handlers)@.len() ==> final(handlers)@[i] == old(handlers)@[i],
        final(handlers)@.last().0@ == method_path(service@, method@),
        describes(final(handlers)@.last().1, (service@, method@, streaming)),
{
    let path = concat_str(String::from_str("/browser_render.v1."), service);
    let path = concat_str(path, "/");
    let path = concat_str(path, method);
    handlers.push(
        (
            path,
            HandlerInfo {
                service: String::from_str(service),
                method: String::from_str(method),
                is_streaming: streaming,
            },
        ),
    );
}

/// gRPC-Web JSON Service wrapper
#[derive(Debug)]
pub struct GrpcWebJsonService<S> {
    pub inner: S,
    pub layer: GrpcWebJsonLayer,
}

// ========== Request side ==========
/// A content type of JSON mode.
pub open spec fn is_json_mode(ct: Seq<char>) -> bool {
    (ct.len() >= "application/grpc-web+json"@.len() && ct.take("application/grpc-web+json"@.len() as int)
        == "application/grpc-web+json"@) || (ct.len() >= "application/grpc-web-text+json"@.len()
        && ct.take("application/grpc-web-text+json"@.len() as int)
        == "application/grpc-web-text+json"@)
}

/// Whether a request's content type selects JSON mode.
pub fn is_grpc_web_json(content_type: &str) -> (b: bool)
    ensures
        b == is_json_mode(content_type@),
{
    let v = chars_of(content_type);
    starts_with_str(&v, "application/grpc-web+json") || starts_with_str(
        &v,
        "application/grpc-web-text+json",
    )
}

/// The JSON payload of a request body: when the body is longer than a frame
/// header and starts with a data-frame flag (0 or 1) whose announced length
/// fits, the framed bytes; otherwise the whole body.
pub open spec fn json_payload(body: Seq<u8>) -> Seq<u8> {
    if body.len() > 5 && (body[0] == 0 || body[0] == 1) && 5 + be32_at(body, 1) <= body.len() {
        body.subrange(5, (5 + be32_at(body, 1)) as int)
    } else {
        body
    }
}

fn copy_range(b: &[u8], lo: usize, hi: usize) -> (r: Vec<u8>)
    requires
        lo <= hi <= b@.len(),
    ensures
        r@ == b@.subrange(lo as int, hi as int),
{
    let mut r: Vec<u8> = Vec::new();
    let mut i = lo;
    while i < hi
        invariant
            lo <= i <= hi <= b@.len(),
            r@ == b@.subrange(lo as int, i as int),
        decreases hi - i,
    {
        r.push(b[i]);
        assert(b@.subrange(lo as int, i + 1) =~= b@.subrange(lo as int, i as int).push(b@[i as int]));
        i = i + 1;
    }
    r
}

fn read_len(b: &[u8], i: usize) -> (n: u64)
    requires
        i + 4 <= b@.len(),
    ensures
        n as nat == be32_at(b@, i as int),
{
    let b0 = b[i] as u64;
    let b1 = b[i + 1] as u64;
    let b2 = b[i + 2] as u64;
    let b3 = b[i + 3] as u64;
    assert(b0 * 0x100_0000 + b1 * 0x1_0000 + b2 * 0x100 + b3 <= 0xffff_ffff) by (nonlinear_arith)
        requires
            b0 < 256,
            b1 < 256,
            b2 < 256,
            b3 < 256,
    ;
    b0 * 0x100_0000 + b1 * 0x1_0000 + b2 * 0x100 + b3
}

/// The JSON payload of a request body.
pub fn extract_json_payload(body: &[u8]) -> (r: Vec<u8>)
    ensures
        r@ == json_payload(body@),
{
    let n = body.len();
    if n > 5 && (body[0] == 0 || body[0] == 1) {
        let len = read_len(body, 1);
        if len <= (n - 5) as u64 {
            return copy_range(body, 5, 5 + len as usize);
        }
    }
    copy_range(body, 0, n)
}

/// A body that counts as empty JSON: no bytes, `{}` or `null`.
pub open spec fn is_empty_json(body: Seq<u8>) -> bool {
    body.len() == 0 || body == seq![0x7bu8, 0x7du8] || body == seq![
        0x6eu8,
        0x75u8,
        0x6cu8,
        0x6cu8,
    ]
}

/// Whether a JSON body counts as empty.
pub fn empty_json_body(body: &[u8]) -> (b: bool)
    ensures
        b == is_empty_json(body@),
{
    let n = body.len();
    if n == 0 {
        return true;
    }
    if n == 2 && body[0] == 0x7b && body[1] == 0x7d {
        assert(body@ =~= seq![0x7bu8, 0x7du8]);
        return true;
    }
    if n == 4 && body[0] == 0x6e && body[1] == 0x75 && body[2] == 0x6c && body[3] == 0x6c {
        assert(body@ =~= seq![0x6eu8, 0x75u8, 0x6cu8, 0x6cu8]);
        return true;
    }
    if n == 2 {
        assert(body@ != seq![0x7bu8, 0x7du8] ==> body@[0] != 0x7b || body@[1] != 0x7d);
    }
    if n == 4 {
        assert(body@ != seq![0x6eu8, 0x75u8, 0x6cu8, 0x6cu8] ==> body@[0] != 0x6e || body@[1] != 0x75
            || body@[2] != 0x6c || body@[3] != 0x6c);
    }
    false
}

/// Where the layer sends a request.
#[derive(Debug)]
pub enum JsonRoute {
    /// Not JSON mode: handed to the service unchanged.
    PassThrough,
    /// JSON mode for a path the layer does not serve: refused with this message.
    Unknown(String),
    /// JSON mode for a served method.
    Method(HandlerInfo),
}

impl GrpcWebJsonLayer {
    /// Routes a request by its content type and path: requests that are not
    /// JSON mode pass through; JSON-mode requests go to the method the path
    /// names, or are refused with `Unknown method: <path>`.
    pub fn route(&self, content_type: &str, path: &str) -> (r: JsonRoute)
        ensures
            !is_json_mode(content_type@) ==> r is PassThrough,
            is_json_mode(content_type@) ==> match r {
                JsonRoute::Method(h) => exists|i: int|
                    0 <= i < self.table().len() && (#[trigger] self.table()[i]).0@ == path@ && h
                        == self.table()[i].1,
                JsonRoute::Unknown(m) => m@ == "Unknown method: "@ + path@ && forall|i: int|
                    0 <= i < self.table().len() ==> (#[trigger] self.table()[i]).0@ != path@,
                JsonRoute::PassThrough => false,
            },
    {
        if !is_grpc_web_json(content_type) {
            return JsonRoute::PassThrough;
        }
        match self.handler(path) {
            Some(h) => JsonRoute::Method(h),
            None => JsonRoute::Unknown(unknown_method_message(path)),
        }
    }
}

/// The message of a request whose JSON could not be converted.
pub fn invalid_json_message(error: &str) -> (m: String)
    ensures
        m@ == "Invalid JSON: "@ + error@,
{
    concat_str(String::from_str("Invalid JSON: "), error)
}

/// The error of a JSON body that does not parse.
pub fn json_parse_error(error: &str) -> (m: String)
    ensures
        m@ == "JSON parse error: "@ + error@,
{
    concat_str(String::from_str("JSON parse error: "), error)
}

/// The message of a response that could not be converted to JSON.
pub fn conversion_failure_message(error: &str) -> (m: String)
    ensures
        m@ == "Failed to convert response: "@ + error@,
{
    concat_str(String::from_str("Failed to convert response: "), error)
}

/// The methods whose request may be empty: their default request is sent.
pub open spec fn allows_empty_request(method: Seq<char>) -> bool {
    method == "HealthCheck"@ || method == "ListJobs"@ || method == "GetQueueStatus"@ || method
        == "ListSessions"@ || method == "EtcScrapeBatchEnv"@ || method == "EtcScrapeBatchEnvQueue"@
}

fn text_eq(v: &Vec<char>, t: &str) -> (b: bool)
    ensures
        b == (v@ == t@),
{
    let w = chars_of(t);
    crate::config::chars_equal(v, &w)
}

/// Whether `method` may be called with an empty body; when it may not, the
/// message of the refusal.
pub fn empty_request_rule(method: &str) -> (r: Result<(), String>)
    ensures
        allows_empty_request(method@) ==> r is Ok,
        !allows_empty_request(method@) ==> (r matches Err(m) && m@
            == "Empty body not allowed for method: "@ + method@),
{
    let v = chars_of(method);
    if text_eq(&v, "HealthCheck") || text_eq(&v, "ListJobs") || text_eq(&v, "GetQueueStatus")
        || text_eq(&v, "ListSessions") || text_eq(&v, "EtcScrapeBatchEnv") || text_eq(
        &v,
        "EtcScrapeBatchEnvQueue",
    ) {
        Ok(())
    } else {
        Err(concat_str(String::from_str("Empty body not allowed for method: "), method))
    }
}

/// The message for a method the layer does not know.
pub fn unknown_method_message(method: &str) -> (m: String)
    ensures
        m@ == "Unknown method: "@ + method@,
{
    concat_str(String::from_str("Unknown method: "), method)
}

// ========== JSON request bodies ==========
/// JSON body of `EtcScrape` / `EtcScrapeQueue`; every field may be missing.
#[derive(Debug)]
pub struct EtcScrapeJson {
    pub user_id: Option<String>,
    pub password: Option<String>,
    pub download_path: Option<String>,
    pub headless: Option<bool>,
}

/// JSON account of a batch body.
#[derive(Debug)]
pub struct EtcAccountJson {
    pub user_id: Option<String>,
    pub password: Option<String>,
    pub name: Option<String>,
}

/// JSON body of `EtcScrapeBatch` / `EtcScrapeBatchQueue`.
#[derive(Debug)]
pub struct EtcBatchJson {
    pub accounts: Option<Vec<EtcAccountJson>>,
    pub download_path: Option<String>,
    pub headless: Option<bool>,
}

/// JSON body of `EtcScrapeBatchEnv` / `EtcScrapeBatchEnvQueue`.
#[derive(Debug)]
pub struct EtcBatchEnvJson {
    pub download_path: Option<String>,
    pub headless: Option<bool>,
}

/// The text of an optional field, empty when missing.
pub open spec fn field_text(s: Option<String>) -> Seq<char> {
    match s {
        Some(t) => t@,
        None => Seq::empty(),
    }
}

fn field_string(s: Option<String>) -> (r: String)
    ensures
        r@ == field_text(s),
{
    match s {
        Some(t) => t,
        None => String::new(),
    }
}

/// The request of an `EtcScrape` JSON body: missing strings empty, headless
/// unless told otherwise.
pub fn etc_scrape_from_json(j: EtcScrapeJson) -> (r: EtcScrapeRequest)
    ensures
        r.user_id@ == field_text(j.user_id),
        r.password@ == field_text(j.password),
        r.download_path@ == field_text(j.download_path),
        r.headless == match j.headless {
            Some(h) => h,
            None => true,
        },
{
    EtcScrapeRequest {
        user_id: field_string(j.user_id),
        password: field_string(j.password),
        download_path: field_string(j.download_path),
        headless: match j.headless {
            Some(h) => h,
            None => true,
        },
    }
}

/// The request of an `EtcScrapeBatch` JSON body: a missing account list is
/// empty, missing strings are empty, headless unless told otherwise.
pub fn etc_batch_from_json(j: EtcBatchJson) -> (r: EtcBatchRequest)
    ensures
        r.accounts@.len() == match j.accounts {
            Some(a) => a@.len(),
            None => 0,
        },
        forall|i: int|
            0 <= i < r.accounts@.len() ==> {
                let a = j.accounts->0@[i];
                &&& (#[trigger] r.accounts@[i]).user_id@ == field_text(a.user_id)
                &&& r.accounts@[i].password@ == field_text(a.password)
                &&& r.accounts@[i].name@ == field_text(a.name)
            },
        r.download_path@ == field_text(j.download_path),
        r.headless == match j.headless {
            Some(h) => h,
            None => true,
        },
{
    let EtcBatchJson { accounts, download_path, headless } = j;
    let input = match accounts {
        Some(a) => a,
        None => Vec::new(),
    };
    let ghost all = input@;
    let mut out: Vec<crate::server::grpc_json::EtcAccountInfo> = Vec::new();
    let mut rest = input;
    while rest.len() > 0
        invariant
            rest@.len() <= all.len(),
            rest@ == all.skip(all.len() - rest@.len()),
            out@.len() == all.len() - rest@.len(),
            forall|i: int|
                0 <= i < out@.len() ==> {
                    &&& (#[trigger] out@[i]).user_id@ == field_text(all[i].user_id)
                    &&& out@[i].password@ == field_text(all[i].password)
                    &&& out@[i].name@ == field_text(all[i].name)
                },
        decreases rest@.len(),
    {
        let ghost k = all.len() - rest@.len();
        let a = rest.remove(0);
        assert(a == all[k]);
        assert(rest@ =~= all.skip(k + 1));
        out.push(
            crate::server::grpc_json::EtcAccountInfo {
                user_id: field_string(a.user_id),
                password: field_string(a.password),
                name: field_string(a.name),
            },
        );
    }
    EtcBatchRequest {
        accounts: out,
        download_path: field_string(download_path),
        headless: match headless {
            Some(h) => h,
            None => true,
        },
    }
}

/// The request of an `EtcScrapeBatchEnv` JSON body: `headless_set` records
/// whether the body named `headless`.
pub fn etc_batch_env_from_json(j: EtcBatchEnvJson) -> (r: EtcBatchEnvRequest)
    ensures
        r.download_path@ == field_text(j.download_path),
        r.headless == match j.headless {
            Some(h) => h,
            None => true,
        },
        r.headless_set == j.headless is Some,
{
    EtcBatchEnvRequest {
        download_path: field_string(j.download_path),
        headless_set: j.headless.is_some(),
        headless: match j.headless {
            Some(h) => h,
            None => true,
        },
    }
}

// ========== Response side ==========
/// The shape of a unary response body.
#[derive(Debug)]
pub enum ResponseShape {
    /// Shorter than a frame header: answered with an empty JSON object.
    Empty,
    /// A complete data frame first: its payload, and the bytes after it.
    Data { payload: Vec<u8>, rest: Vec<u8> },
    /// Anything else: passed through.
    Raw,
}

/// Classifies a unary response body.
pub fn classify_response(resp: &[u8]) -> (r: ResponseShape)
    ensures
        resp@.len() < 5 ==> r is Empty,
        resp@.len() >= 5 && resp@[0] == 0 && 5 + be32_at(resp@, 1) <= resp@.len() ==> (r matches ResponseShape::Data { payload, rest } && payload@ == resp@.subrange(5, (5 + be32_at(resp@, 1)) as int) && rest@
            == resp@.skip((5 + be32_at(resp@, 1)) as int)),
        resp@.len() >= 5 && !(resp@[0] == 0 && 5 + be32_at(resp@, 1) <= resp@.len()) ==> r is Raw,
{
    let n = resp.len();
    if n < 5 {
        return ResponseShape::Empty;
    }
    let len = read_len(resp, 1);
    if resp[0] == 0 && len <= (n - 5) as u64 {
        let end = 5 + len as usize;
        let payload = copy_range(resp, 5, end);
        let rest = copy_range(resp, end, n);
        assert(resp@.subrange(end as int, n as int) =~= resp@.skip(end as int));
        ResponseShape::Data { payload, rest }
    } else {
        ResponseShape::Raw
    }
}

/// An answer in JSON mode: `json` in a data frame, then a trailer frame
/// carrying `trailer` (each length field holding its length modulo 2^32).
pub open spec fn json_answer(json: Seq<u8>, trailer: Seq<char>) -> Seq<u8> {
    seq![0u8] + be32(json.len() % 0x1_0000_0000) + json + seq![0x80u8] + be32(
        vstd::utf8::encode_utf8(trailer).len() % 0x1_0000_0000,
    ) + vstd::utf8::encode_utf8(trailer)
}

/// The trailer text of a successful call.
pub open spec fn ok_trailer_text() -> Seq<char> {
    "grpc-status:0\r\n"@
}

/// A JSON data frame for `json`, followed by `rest` when there is any, else
/// by a trailer frame that reports success.
pub fn json_data_response(json: &[u8], rest: &[u8]) -> (r: Vec<u8>)
    ensures
        rest@.len() > 0 ==> r@ == seq![0u8] + be32(json@.len() % 0x1_0000_0000) + json@ + rest@,
        rest@.len() == 0 ==> r@ == json_answer(json@, ok_trailer_text()),
{
    let mut r: Vec<u8> = Vec::new();
    push_frame(&mut r, 0u8, json);
    if rest.len() > 0 {
        let ghost before = r@;
        let mut i: usize = 0;
        while i < rest.len()
            invariant
                i <= rest@.len(),
                r@ == before + rest@.take(i as int),
            decreases rest@.len() - i,
        {
            r.push(rest[i]);
            assert(rest@.take(i + 1) =~= rest@.take(i as int).push(rest@[i as int]));
            i = i + 1;
        }
        assert(rest@.take(rest@.len() as int) =~= rest@);
    } else {
        let t = "grpc-status:0\r\n".as_bytes();
        push_frame(&mut r, 0x80u8, t);
    }
    r
}

/// `{"error":<message as a JSON string>}`, as `serde_json` writes the object.
pub open spec fn error_json_text(message: Seq<char>) -> Seq<char> {
    "{\"error\":"@ + json_string_text(message) + "}"@
}

/// A lowercase hexadecimal digit.
pub open spec fn hex_digit(d: nat) -> char {
    if d < 10 {
        ((48 + d) as u32) as char
    } else {
        ((87 + d) as u32) as char
    }
}

/// How `serde_json` writes one character inside a string: `"` and `\` and
/// the control characters below U+0020 escaped (the short forms `\b`, `\t`,
/// `\n`, `\f`, `\r` where they exist, else `\u00` and two lowercase hex
/// digits), every other character as it is.
pub open spec fn json_char_text(c: char) -> Seq<char> {
    let u = c as u32;
    if c == '"' {
        seq!['\\', '"']
    } else if c == '\\' {
        seq!['\\', '\\']
    } else if u == 0x08 {
        seq!['\\', 'b']
    } else if u == 0x09 {
        seq!['\\', 't']
    } else if u == 0x0A {
        seq!['\\', 'n']
    } else if u == 0x0C {
        seq!['\\', 'f']
    } else if u == 0x0D {
        seq!['\\', 'r']
    } else if u < 0x20 {
        seq!['\\', 'u', '0', '0', hex_digit((u / 16) as nat), hex_digit((u % 16) as nat)]
    } else {
        seq![c]
    }
}

/// The characters of a text as `serde_json` writes them inside a string.
pub open spec fn json_escaped(s: Seq<char>) -> Seq<char>
    decreases s.len(),
{
    if s.len() == 0 {
        Seq::empty()
    } else {
        json_escaped(s.drop_last()) + json_char_text(s.last())
    }
}

/// The JSON string literal `serde_json` writes for a text: the escaped text
/// between double quotes.
pub open spec fn json_string_text(s: Seq<char>) -> Seq<char> {
    seq!['"'] + json_escaped(s) + seq!['"']
}

/// `serde_json::to_string` of a string slice: its JSON string literal, with
/// the escapes of `format_escaped_str_contents` and its `ESCAPE` table.
/// Serializing a `str` cannot fail.
#[verifier::external_body]
fn json_string_literal(s: &str) -> (r: String)
    ensures
        r@ == json_string_text(s@),
{
    serde_json::to_string(s).unwrap_or_default()
}

/// The trailer text of an error: status 2 with the message.
pub open spec fn error_trailer_text(message: Seq<char>) -> Seq<char> {
    "grpc-status:2\r\ngrpc-message:"@ + message + "\r\n"@
}

/// The body of an error answer: a JSON data frame `{"error": message}` and a
/// trailer frame with status 2 and the message.
pub fn error_response_body(message: &str) -> (r: Vec<u8>)
    ensures
        r@ == json_answer(
            vstd::utf8::encode_utf8(error_json_text(message@)),
            error_trailer_text(message@),
        ),
{
    let json = concat_str(String::from_str("{\"error\":"), json_string_literal(message).as_str());
    let json = concat_str(json, "}");
    let trailer = concat_str(String::from_str("grpc-status:2\r\ngrpc-message:"), message);
    let trailer = concat_str(trailer, "\r\n");
    let mut r: Vec<u8> = Vec::new();
    push_frame(&mut r, 0u8, json.as_str().as_bytes());
    push_frame(&mut r, 0x80u8, trailer.as_str().as_bytes());
    r
}

/// The body answered when the service's response is too short: `{}` and a
/// success trailer.
pub fn empty_json_response_body() -> (r: Vec<u8>)
    ensures
        r@ == json_answer(vstd::utf8::encode_utf8("{}"@), ok_trailer_text()),
{
    let mut r: Vec<u8> = Vec::new();
    push_frame(&mut r, 0u8, "{}".as_bytes());
    push_frame(&mut r, 0x80u8, "grpc-status:0\r\n".as_bytes());
    r
}

// ========== Streaming ==========
/// What the head of a streaming buffer holds.
#[derive(Debug)]
pub enum StreamStep {
    /// No complete frame yet.
    NeedMore,
    /// A trailer frame of `len` bytes (header included), forwarded as is.
    Trailer(usize),
    /// A data frame of `len` bytes (header included) with its payload.
    Data(usize, Vec<u8>),
    /// A frame of another kind, `len` bytes, dropped.
    Skip(usize),
}

/// Reads the first frame of a streaming buffer.
pub fn next_stream_step(buffer: &[u8]) -> (r: StreamStep)
    ensures
        buffer@.len() < 5 || buffer@.len() < 5 + be32_at(buffer@, 1) ==> r is NeedMore,
        buffer@.len() >= 5 && buffer@.len() >= 5 + be32_at(buffer@, 1) ==> {
            let len = 5 + be32_at(buffer@, 1);
            if buffer@[0] == 0x80 {
                r == StreamStep::Trailer(len as usize)
            } else if buffer@[0] == 0 {
                r matches StreamStep::Data(n, p) && n == len && p@ == buffer@.subrange(5, len as int)
            } else {
                r == StreamStep::Skip(len as usize)
            }
        },
{
    let n = buffer.len();
    if n < 5 {
        return StreamStep::NeedMore;
    }
    let len = read_len(buffer, 1);
    if len > (n - 5) as u64 {
        return StreamStep::NeedMore;
    }
    let total = 5 + len as usize;
    if buffer[0] == 0x80 {
        StreamStep::Trailer(total)
    } else if buffer[0] == 0 {
        StreamStep::Data(total, copy_range(buffer, 5, total))
    } else {
        StreamStep::Skip(total)
    }
}

/// A trailer frame carrying `text` (its length field holding the length of
/// the text's UTF-8 bytes modulo 2^32).
pub open spec fn frame_text_trailer(text: Seq<char>) -> Seq<u8> {
    seq![0x80u8] + be32(vstd::utf8::encode_utf8(text).len() % 0x1_0000_0000) + vstd::utf8::encode_utf8(
        text,
    )
}

/// The trailer frame that ends a stream: success, or status 2 with
/// `Stream error` after a body error.
pub fn stream_end_trailer(failed: bool) -> (r: Vec<u8>)
    ensures
        !failed ==> r@ == frame_text_trailer(ok_trailer_text()),
        failed ==> r@ == frame_text_trailer("grpc-status:2\r\ngrpc-message:Stream error\r\n"@),
{
    let mut r: Vec<u8> = Vec::new();
    if failed {
        push_frame(&mut r, 0x80u8, "grpc-status:2\r\ngrpc-message:Stream error\r\n".as_bytes());
    } else {
        push_frame(&mut r, 0x80u8, "grpc-status:0\r\n".as_bytes());
    }
    r
}

/// Response headers carried over to a JSON-mode answer: the CORS headers,
/// whose names start with `access-control`.
pub open spec fn is_cors_header_name(name: Seq<char>) -> bool {
    name.len() >= "access-control"@.len() && name.take("access-control"@.len() as int)
        == "access-control"@
}

/// Whether a response header is a CORS header.
pub fn is_cors_header(name: &str) -> (b: bool)
    ensures
        b == is_cors_header_name(name@),
{
    let v = chars_of(name);
    starts_with_str(&v, "access-control")
}

/// What ends a stream: when no trailer frame has been forwarded yet, a
/// closing trailer (status 0 at the end of the body, status 2 with `Stream
/// error` after a body error); otherwise nothing.
pub fn stream_finish(failed: bool, sent_trailer: bool) -> (r: Option<Vec<u8>>)
    ensures
        sent_trailer ==> r is None,
        !sent_trailer ==> (r matches Some(t) && t@ == (if failed {
            frame_text_trailer("grpc-status:2\r\ngrpc-message:Stream error\r\n"@)
        } else {
            frame_text_trailer(ok_trailer_text())
        })),
{
    if sent_trailer {
        None
    } else {
        Some(stream_end_trailer(failed))
    }
}

// ========== Job JSON ==========
/// A job as JSON mode shows it: empty texts and zero numbers left out.
#[derive(Debug)]
pub struct JobJson {
    pub id: String,
    pub job_type: String,
    pub priority: String,
    pub status: String,
    pub created_at: String,
    pub started_at: Option<String>,
    pub completed_at: Option<String>,
    pub error: Option<String>,
    pub etc_result: Option<EtcScrapeResultJson>,
    pub batch_result: Option<EtcBatchResultJson>,
    pub current_account_index: Option<i32>,
}

#[derive(Debug)]
pub struct EtcScrapeResultJson {
    pub csv_path: String,
    pub csv_size: i32,
}

#[derive(Debug)]
pub struct EtcBatchResultJson {
    pub session_folder: String,
    pub accounts: Vec<AccountResultJson>,
    pub total_count: i32,
    pub success_count: i32,
    pub fail_count: i32,
}

#[derive(Debug)]
pub struct AccountResultJson {
    pub user_id: String,
    pub name: Option<String>,
    pub status: String,
    pub csv_path: Option<String>,
    pub csv_size: Option<i32>,
    pub error: Option<String>,
}

/// A text left out when empty.
pub open spec fn nonempty(s: String) -> Option<String> {
    if s@.len() == 0 {
        None
    } else {
        Some(s)
    }
}

/// A number left out when zero.
pub open spec fn nonzero(n: i32) -> Option<i32> {
    if n == 0 {
        None
    } else {
        Some(n)
    }
}

fn nonempty_string(s: String) -> (r: Option<String>)
    ensures
        r == nonempty(s),
{
    if s.as_str().is_empty() {
        None
    } else {
        Some(s)
    }
}

fn nonzero_number(n: i32) -> (r: Option<i32>)
    ensures
        r == nonzero(n),
{
    if n == 0 {
        None
    } else {
        Some(n)
    }
}

/// `j` is account `a` in JSON mode.
pub open spec fn account_json_of(j: AccountResultJson, a: AccountResult) -> bool {
    j == AccountResultJson {
        user_id: a.user_id,
        name: nonempty(a.name),
        status: a.status,
        csv_path: nonempty(a.csv_path),
        csv_size: nonzero(a.csv_size),
        error: nonempty(a.error),
    }
}

/// The job in JSON mode: empty texts and zero numbers become absent values.
pub fn job_proto_to_json(job: Job) -> (r: JobJson)
    ensures
        r.id == job.id,
        r.job_type == job.job_type,
        r.priority == job.priority,
        r.status == job.status,
        r.created_at == job.created_at,
        r.started_at == nonempty(job.started_at),
        r.completed_at == nonempty(job.completed_at),
        r.error == nonempty(job.error),
        match (r.etc_result, job.etc_result) {
            (Some(a), Some(b)) => a.csv_path == b.csv_path && a.csv_size == b.csv_size,
            (None, None) => true,
            _ => false,
        },
        match (r.batch_result, job.batch_result) {
            (Some(a), Some(b)) => {
                &&& a.session_folder == b.session_folder
                &&& a.total_count == b.total_count
                &&& a.success_count == b.success_count
                &&& a.fail_count == b.fail_count
                &&& a.accounts@.len() == b.accounts@.len()
                &&& forall|i: int|
                    0 <= i < a.accounts@.len() ==> account_json_of(
                        #[trigger] a.accounts@[i],
                        b.accounts@[i],
                    )
            },
            (None, None) => true,
            _ => false,
        },
        r.current_account_index == nonzero(job.current_account_index),
{
    let Job {
        id,
        job_type,
        priority,
        status,
        created_at,
        started_at,
        completed_at,
        error,
        etc_result,
        batch_result,
        current_account_index,
    } = job;
    let etc = match etc_result {
        Some(r) => Some(EtcScrapeResultJson { csv_path: r.csv_path, csv_size: r.csv_size }),
        None => None,
    };
    let batch = match batch_result {
        Some(b) => {
            let crate::server::grpc_json::EtcBatchResult {
                session_folder,
                accounts,
                total_count,
                success_count,
                fail_count,
            } = b;
            let ghost all = accounts@;
            let mut out: Vec<AccountResultJson> = Vec::new();
            let mut rest = accounts;
            while rest.len() > 0
                invariant
                    rest@.len() <= all.len(),
                    rest@ == all.skip(all.len() - rest@.len()),
                    out@.len() == all.len() - rest@.len(),
                    forall|i: int| 0 <= i < out@.len() ==> account_json_of(#[trigger] out@[i], all[i]),
                decreases rest@.len(),
            {
                let ghost k = all.len() - rest@.len();
                let a = rest.remove(0);
                assert(a == all[k]);
                assert(rest@ =~= all.skip(k + 1));
                out.push(
                    AccountResultJson {
                        user_id: a.user_id,
                        name: nonempty_string(a.name),
                        status: a.status,
                        csv_path: nonempty_string(a.csv_path),
                        csv_size: nonzero_number(a.csv_size),
                        error: nonempty_string(a.error),
                    },
                );
            }
            Some(
                EtcBatchResultJson {
                    session_folder,
                    accounts: out,
                    total_count,
                    success_count,
                    fail_count,
                },
            )
        },
        None => None,
    };
    JobJson {
        id,
        job_type,
        priority,
        status,
        created_at,
        started_at: nonempty_string(started_at),
        completed_at: nonempty_string(completed_at),
        error: nonempty_string(error),
        etc_result: etc,
        batch_result: batch,
        current_account_index: nonzero_number(current_account_index),
    }
}

// ========== Download chunks ==========
/// A chunk of a file download, as the service streams it.
#[derive(Debug)]
pub struct DownloadFileChunk {
    pub data: Vec<u8>,
    pub offset: i64,
    pub total_size: i64,
    pub is_last: bool,
}

/// A chunk in JSON mode: its bytes in standard Base64.
#[derive(Debug)]
pub struct DownloadFileChunkJson {
    pub data: String,
    pub offset: i64,
    pub total_size: i64,
    pub is_last: bool,
}

/// The character of a six-bit value in the standard Base64 alphabet
/// (`A`-`Z`, `a`-`z`, `0`-`9`, `+`, `/`).
pub open spec fn base64_char(v: nat) -> char {
    if v < 26 {
        ((65 + v) as u32) as char
    } else if v < 52 {
        ((71 + v) as u32) as char
    } else if v < 62 {
        ((v - 4) as u32) as char
    } else if v == 62 {
        '+'
    } else {
        '/'
    }
}

/// Standard Base64 with padding: each group of three bytes becomes four
/// characters; a final group of one or two bytes becomes two or three
/// characters followed by `=` padding to four.
pub open spec fn base64_standard(data: Seq<u8>) -> Seq<char>
    decreases data.len(),
{
    if data.len() == 0 {
        Seq::empty()
    } else if data.len() == 1 {
        let a = data[0] as nat;
        seq![base64_char(a / 4), base64_char((a % 4) * 16), '=', '=']
    } else if data.len() == 2 {
        let a = data[0] as nat;
        let b = data[1] as nat;
        seq![base64_char(a / 4), base64_char((a % 4) * 16 + b / 16), base64_char((b % 16) * 4), '=']
    } else {
        let a = data[0] as nat;
        let b = data[1] as nat;
        let c = data[2] as nat;
        seq![
            base64_char(a / 4),
            base64_char((a % 4) * 16 + b / 16),
            base64_char((b % 16) * 4 + c / 64),
            base64_char(c % 64),
        ] + base64_standard(data.skip(3))
    }
}

/// `base64::engine::general_purpose::STANDARD.encode(data)`: the `STANDARD`
/// engine uses the standard alphabet and pads with `=`.
#[verifier::external_body]
fn base64_encode(data: &[u8]) -> (s: String)
    ensures
        s@ == base64_standard(data@),
{
    base64::engine::general_purpose::STANDARD.encode(data)
}

/// The chunk in JSON mode.
pub fn download_chunk_to_json(chunk: &DownloadFileChunk) -> (r: DownloadFileChunkJson)
    ensures
        r.data@ == base64_standard(chunk.data@),
        r.offset == chunk.offset,
        r.total_size == chunk.total_size,
        r.is_last == chunk.is_last,
{
    DownloadFileChunkJson {
        data: base64_encode(chunk.data.as_slice()),
        offset: chunk.offset,
        total_size: chunk.total_size,
        is_last: chunk.is_last,
    }
}

// ========== Laws ==========
/// Unwrapping a framed JSON request gives back the JSON that was framed, for
/// a payload of at least one byte (a frame with an empty payload is no longer
/// than its header and is taken as the body itself).
pub proof fn law_json_payload_unframes(payload: Seq<u8>)
    requires
        0 < payload.len() < 0x1_0000_0000,
    ensures
        json_payload(data_frame(payload)) == payload,
{
    law_frame_head_reads_back(0u8, payload, Seq::empty());
    assert(data_frame(payload) + Seq::<u8>::empty() =~= data_frame(payload));
}

/// A successful JSON answer reads back, through the gRPC-Web client, as its
/// JSON, status 0 and no message.
pub proof fn law_success_answer_read_back(json: Seq<u8>)
    requires
        json.len() < 0x1_0000_0000,
    ensures
        grpc_web_response(json_answer(json, ok_trailer_text())) == Ok::<
            (Seq<u8>, i32, Seq<char>),
            Seq<char>,
        >((json, 0i32, Seq::empty())),
{
    lemma_ok_trailer();
    lemma_encode_utf8_len(ok_trailer_text());
    lemma_answer_frames(json, ok_trailer_text());
    law_status_response_read_back(json, 0i32);
}

proof fn lemma_ok_trailer()
    ensures
        ok_trailer_text() == status_only_trailer(0i32),
        ok_trailer_text().len() == 15,
{
    reveal_strlit("grpc-status:0\r\n");
    reveal_strlit("grpc-status:");
    reveal_strlit("\r\n");
    assert(signed_decimal(0) =~= seq!['0']);
    assert(ok_trailer_text() =~= status_only_trailer(0i32));
}

/// An error answer reads back, through the gRPC-Web client, as its JSON,
/// status 2 and the error message (a single line without surrounding white
/// space, which the trailer carries unchanged).
pub proof fn law_error_answer_read_back(json: Seq<u8>, message: Seq<char>)
    requires
        json.len() < 0x1_0000_0000,
        message.len() < 0x1000_0000,
        plain_message(message),
    ensures
        grpc_web_response(json_answer(json, error_trailer_text(message))) == Ok::<
            (Seq<u8>, i32, Seq<char>),
            Seq<char>,
        >((json, 2i32, message)),
{
    let t = error_trailer_text(message);
    lemma_error_trailer(message);
    lemma_encode_utf8_len(t);
    lemma_answer_frames(json, t);
    law_response_read_back(json, 2i32, message);
}

proof fn lemma_error_trailer(message: Seq<char>)
    ensures
        error_trailer_text(message) == status_trailer(2i32, message),
        error_trailer_text(message).len() == message.len() + 30,
{
    reveal_strlit("grpc-status:2\r\ngrpc-message:");
    reveal_strlit("grpc-status:");
    reveal_strlit("grpc-message:");
    reveal_strlit("\r\n");
    assert(signed_decimal(2) =~= seq!['2']);
    assert(error_trailer_text(message) =~= status_trailer(2i32, message));
}

proof fn lemma_answer_frames(json: Seq<u8>, trailer: Seq<char>)
    requires
        json.len() < 0x1_0000_0000,
        vstd::utf8::encode_utf8(trailer).len() < 0x1_0000_0000,
    ensures
        json_answer(json, trailer) == data_frame(json) + frame(
            0x80u8,
            vstd::utf8::encode_utf8(trailer),
        ),
{
    let p = vstd::utf8::encode_utf8(trailer);
    assert(json.len() % 0x1_0000_0000 == json.len());
    assert(p.len() % 0x1_0000_0000 == p.len());
    assert(json_answer(json, trailer) =~= data_frame(json) + frame(0x80u8, p));
}

} // verus!
