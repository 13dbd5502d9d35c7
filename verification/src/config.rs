//! Service configuration: log settings, duration strings and the rules that
//! turn raw environment values into a [`Config`].
use vstd::prelude::*;

use crate::text::{
    chars_of, decimal, eq_ignore_ascii_case, is_digit, is_white_space, lemma_decimal_digits,
    lemma_parse_u64_decimal, parse_u64, parse_u64_range, range_eq_ignore_ascii_case, trim,
    trim_bounds, trim_end, trim_start,
};

verus! {

/// Log output format
#[derive(Debug, Clone, Copy, PartialEq, Eq, Structural)]
pub enum LogFormat {
    Text,
    Json,
}

impl Default for LogFormat {
    fn default() -> (r: Self)
        ensures
            r == LogFormat::Text,
    {
        LogFormat::Text
    }
}

/// `s.to_lowercase() == word` for an all-lowercase ASCII `word`. Unicode
/// lower-casing yields an ASCII letter only from that letter in either case
/// (the Kelvin sign, the one exception, maps to `k`, which none of the words
/// used here contain), so this is ASCII case-insensitive equality.
pub open spec fn lowercases_to(s: Seq<char>, word: Seq<char>) -> bool {
    eq_ignore_ascii_case(s, word)
}

impl LogFormat {
    /// `"json"` in any letter case selects JSON; anything else selects text.
    pub fn from_str(s: &str) -> (r: Self)
        ensures
            r == (if lowercases_to(s@, "json"@) {
                LogFormat::Json
            } else {
                LogFormat::Text
            }),
    {
        let v = chars_of(s);
        let json = chars_of("json");
        if range_eq_ignore_ascii_case(&v, 0, v.len(), &json) {
            proof {
                assert(v@.subrange(0, v@.len() as int) =~= v@);
            }
            LogFormat::Json
        } else {
            proof {
                assert(v@.subrange(0, v@.len() as int) =~= v@);
            }
            LogFormat::Text
        }
    }
}

/// Log file rotation strategy
#[derive(Debug, Clone, Copy, PartialEq, Eq, Structural)]
pub enum LogRotation {
    Daily,
    Hourly,
    Never,
}

impl Default for LogRotation {
    fn default() -> (r: Self)
        ensures
            r == LogRotation::Daily,
    {
        LogRotation::Daily
    }
}

impl LogRotation {
    /// `"hourly"` and `"never"` (any letter case) select those strategies;
    /// anything else selects daily rotation.
    pub fn from_str(s: &str) -> (r: Self)
        ensures
            r == (if lowercases_to(s@, "hourly"@) {
                LogRotation::Hourly
            } else if lowercases_to(s@, "never"@) {
                LogRotation::Never
            } else {
                LogRotation::Daily
            }),
    {
        let v = chars_of(s);
        proof {
            assert(v@.subrange(0, v@.len() as int) =~= v@);
        }
        let hourly = chars_of("hourly");
        let never = chars_of("never");
        if range_eq_ignore_ascii_case(&v, 0, v.len(), &hourly) {
            LogRotation::Hourly
        } else if range_eq_ignore_ascii_case(&v, 0, v.len(), &never) {
            LogRotation::Never
        } else {
            LogRotation::Daily
        }
    }
}

// ---------------------------------------------------------------------------
// Durations
// ---------------------------------------------------------------------------

/// A span of time: whole seconds plus a sub-second part in nanoseconds.
#[derive(Debug, Clone, Copy, PartialEq, Eq, Structural)]
pub struct Duration {
    secs: u64,
    nanos: u32,
}

impl View for Duration {
    /// `(whole seconds, nanoseconds below one second)`
    type V = (u64, u32);

    closed spec fn view(&self) -> (u64, u32) {
        (self.secs, self.nanos)
    }
}

impl Duration {
    #[verifier::type_invariant]
    closed spec fn inv(self) -> bool {
        self.nanos < 1_000_000_000
    }

    /// A duration of `secs` whole seconds.
    pub fn from_secs(secs: u64) -> (d: Duration)
        ensures
            d@ == (secs, 0u32),
    {
        Duration { secs, nanos: 0 }
    }

    /// A duration of `millis` milliseconds.
    pub fn from_millis(millis: u64) -> (d: Duration)
        ensures
            d@ == ((millis / 1000) as u64, ((millis % 1000) * 1_000_000) as u32),
    {
        Duration { secs: millis / 1000, nanos: ((millis % 1000) as u32) * 1_000_000 }
    }

    /// The whole seconds of the span.
    pub fn as_secs(&self) -> (s: u64)
        ensures
            s == self@.0,
    {
        self.secs
    }

    /// The nanoseconds beyond the whole seconds.
    pub fn subsec_nanos(&self) -> (n: u32)
        ensures
            n == self@.1,
            n < 1_000_000_000,
    {
        proof {
            use_type_invariant(self);
        }
        self.nanos
    }
}

/// The unit suffix of a duration string.
#[derive(Debug, Clone, Copy, PartialEq, Eq, Structural)]
pub enum DurationUnit {
    Millis,
    Seconds,
    Minutes,
    Hours,
}

/// Splits a (trimmed) duration string into its number text and unit:
/// `ms` is tried before `s`, then `m`, then `h`.
pub open spec fn split_unit(t: Seq<char>) -> Option<(Seq<char>, DurationUnit)> {
    let n = t.len();
    if n >= 2 && t[n - 2] == 'm' && t[n - 1] == 's' {
        Some((t.take(n - 2), DurationUnit::Millis))
    } else if n >= 1 && t[n - 1] == 's' {
        Some((t.take(n - 1), DurationUnit::Seconds))
    } else if n >= 1 && t[n - 1] == 'm' {
        Some((t.take(n - 1), DurationUnit::Minutes))
    } else if n >= 1 && t[n - 1] == 'h' {
        Some((t.take(n - 1), DurationUnit::Hours))
    } else {
        None
    }
}

/// What a duration string says: its unit and its number, when the trimmed
/// text is a `u64` numeral followed by one of the unit suffixes.
pub open spec fn duration_text(s: Seq<char>) -> Option<(DurationUnit, u64)> {
    let t = trim(s);
    if t.len() == 0 {
        None
    } else {
        match split_unit(t) {
            Some((num, unit)) => match parse_u64(num) {
                Some(n) => Some((unit, n)),
                None => None,
            },
            None => None,
        }
    }
}

/// The number of seconds in one unit, for the units counted in seconds.
pub open spec fn unit_seconds(u: DurationUnit) -> nat {
    match u {
        DurationUnit::Millis => 0,
        DurationUnit::Seconds => 1,
        DurationUnit::Minutes => 60,
        DurationUnit::Hours => 3600,
    }
}

/// The duration `n` units long.
pub open spec fn unit_duration(u: DurationUnit, n: u64) -> (u64, u32) {
    match u {
        DurationUnit::Millis => ((n / 1000) as u64, ((n % 1000) * 1_000_000) as u32),
        _ => ((n * unit_seconds(u)) as u64, 0u32),
    }
}

/// The suffix that names a unit.
pub open spec fn unit_suffix(u: DurationUnit) -> Seq<char> {
    match u {
        DurationUnit::Millis => "ms"@,
        DurationUnit::Seconds => "s"@,
        DurationUnit::Minutes => "m"@,
        DurationUnit::Hours => "h"@,
    }
}

/// A number written in decimal and followed by a unit suffix is read back as
/// that number of that unit: `"60s"`, `"10m"`, `"1h"` and `"500ms"` say what
/// they look like.
pub proof fn law_duration_string_roundtrip(n: u64, u: DurationUnit)
    ensures
        duration_text(decimal(n as nat) + unit_suffix(u)) == Some((u, n)),
{
    reveal_strlit("ms");
    reveal_strlit("s");
    reveal_strlit("m");
    reveal_strlit("h");
    lemma_decimal_digits(n as nat);
    lemma_parse_u64_decimal(n);
    let d = decimal(n as nat);
    let t = d + unit_suffix(u);
    assert(is_digit(d[0]));
    assert(t[0] == d[0]);
    assert(!is_white_space(t[0]));
    assert(trim_start(t) == t);
    assert(!is_white_space(t.last()));
    assert(trim_end(t) == t);
    assert(trim(t) == t);
    let k = t.len();
    assert(is_digit(d[d.len() - 1]));
    match u {
        DurationUnit::Millis => {
            assert(t[k - 2] == 'm' && t[k - 1] == 's');
            assert(t.take(k - 2) =~= d);
        },
        DurationUnit::Seconds => {
            assert(t[k - 2] == d[d.len() - 1]);
            assert(t.take(k - 1) =~= d);
        },
        DurationUnit::Minutes => {
            assert(t.take(k - 1) =~= d);
        },
        DurationUnit::Hours => {
            assert(t.take(k - 1) =~= d);
        },
    }
}

/// The seconds of a duration string do not fit in 64 bits.
pub open spec fn duration_overflows(s: Seq<char>) -> bool {
    match duration_text(s) {
        Some((u, n)) => u != DurationUnit::Millis && n * unit_seconds(u) > u64::MAX,
        None => false,
    }
}

/// Whether the seconds of a duration string overflow 64 bits; the parser
/// refuses such strings.
pub fn duration_string_overflows(s: &str) -> (b: bool)
    ensures
        b == duration_overflows(s@),
{
    match duration_text_exec(s) {
        Some((u, n)) => match u {
            DurationUnit::Millis => false,
            DurationUnit::Seconds => false,
            DurationUnit::Minutes => n > u64::MAX / 60,
            DurationUnit::Hours => n > u64::MAX / 3600,
        },
        None => false,
    }
}

/// The unit and number of a duration string.
fn duration_text_exec(s: &str) -> (r: Option<(DurationUnit, u64)>)
    ensures
        r == duration_text(s@),
{
    let v = chars_of(s);
    let (a, b) = trim_bounds(&v, 0, v.len());
    proof {
        assert(v@.subrange(0, v@.len() as int) =~= v@);
    }
    let ghost t = v@.subrange(a as int, b as int);
    if a == b {
        return None;
    }
    let n = b - a;
    let (end, unit) = if n >= 2 && v[b - 2] == 'm' && v[b - 1] == 's' {
        (b - 2, DurationUnit::Millis)
    } else if v[b - 1] == 's' {
        (b - 1, DurationUnit::Seconds)
    } else if v[b - 1] == 'm' {
        (b - 1, DurationUnit::Minutes)
    } else if v[b - 1] == 'h' {
        (b - 1, DurationUnit::Hours)
    } else {
        assert(t[t.len() - 1] == v@[b - 1]);
        return None;
    };
    proof {
        assert(t[t.len() - 1] == v@[b - 1]);
        if n >= 2 {
            assert(t[t.len() - 2] == v@[b - 2]);
        }
        assert(v@.subrange(a as int, end as int) =~= t.take(end - a));
    }
    match parse_u64_range(&v, a, end) {
        Some(num) => Some((unit, num)),
        None => None,
    }
}

/// Parses a duration string like `"60s"`, `"10m"`, `"1h"` or `"500ms"`;
/// surrounding white space is ignored. `None` when the text is no such string.
pub fn parse_duration_string(s: &str) -> (r: Option<Duration>)
    requires
        !duration_overflows(s@),
    ensures
        match duration_text(s@) {
            Some((u, n)) => r is Some && r->0@ == unit_duration(u, n),
            None => r is None,
        },
{
    match duration_text_exec(s) {
        Some((u, n)) => match u {
            DurationUnit::Millis => Some(Duration::from_millis(n)),
            DurationUnit::Seconds => Some(Duration::from_secs(n)),
            DurationUnit::Minutes => Some(Duration::from_secs(n * 60)),
            DurationUnit::Hours => Some(Duration::from_secs(n * 3600)),
        },
        None => None,
    }
}

/// The duration an environment value denotes: a duration string, else a
/// number of milliseconds, else the default. An absent value gives the default.
pub open spec fn duration_setting_view(value: Option<Seq<char>>, default: (u64, u32)) -> (
    u64,
    u32,
) {
    match value {
        None => default,
        Some(v) => match duration_text(v) {
            Some((u, n)) => unit_duration(u, n),
            None => match parse_u64(v) {
                Some(ms) => unit_duration(DurationUnit::Millis, ms),
                None => default,
            },
        },
    }
}

/// The view of an optional string.
pub open spec fn opt_view(o: Option<String>) -> Option<Seq<char>> {
    match o {
        Some(s) => Some(s@),
        None => None,
    }
}

/// Duration of an environment value (`get_env_duration`'s rule).
pub fn duration_setting(value: &Option<String>, default: Duration) -> (d: Duration)
    requires
        value matches Some(v) ==> !duration_overflows(v@),
    ensures
        d@ == duration_setting_view(opt_view(*value), default@),
{
    match value {
        None => default,
        Some(v) => {
            match parse_duration_string(v.as_str()) {
                Some(d) => d,
                None => {
                    let c = chars_of(v.as_str());
                    proof {
                        assert(c@.subrange(0, c@.len() as int) =~= c@);
                    }
                    match parse_u64_range(&c, 0, c.len()) {
                        Some(ms) => Duration::from_millis(ms),
                        None => default,
                    }
                },
            }
        },
    }
}

/// `bool::from_str`: exactly `"true"` or `"false"`.
pub open spec fn parse_bool(s: Seq<char>) -> Option<bool> {
    if s == "true"@ {
        Some(true)
    } else if s == "false"@ {
        Some(false)
    } else {
        None
    }
}

/// Boolean of an environment value (`get_env_bool`'s rule): the value when it
/// is `true` or `false`, else the default.
pub fn bool_setting(value: &Option<String>, default: bool) -> (b: bool)
    ensures
        b == match opt_view(*value) {
            Some(v) => match parse_bool(v) {
                Some(x) => x,
                None => default,
            },
            None => default,
        },
{
    match value {
        None => default,
        Some(v) => {
            let c = chars_of(v.as_str());
            let t = chars_of("true");
            let f = chars_of("false");
            if chars_equal(&c, &t) {
                true
            } else if chars_equal(&c, &f) {
                false
            } else {
                default
            }
        },
    }
}

/// Exact equality of two character vectors.
pub fn chars_equal(a: &Vec<char>, b: &Vec<char>) -> (r: bool)
    ensures
        r == (a@ == b@),
{
    if a.len() != b.len() {
        return false;
    }
    let mut i: usize = 0;
    while i < a.len()
        invariant
            a.len() == b.len(),
            i <= a.len(),
            forall|k: int| 0 <= k < i ==> a@[k] == b@[k],
        decreases a.len() - i,
    {
        if a[i] != b[i] {
            return false;
        }
        i = i + 1;
    }
    assert(a@ =~= b@);
    true
}

/// A string setting: the value when present, else the default.
pub open spec fn string_setting(value: Option<String>, default: Seq<char>) -> Seq<char> {
    match value {
        Some(v) => v@,
        None => default,
    }
}

fn string_or(value: &Option<String>, default: &str) -> (s: String)
    ensures
        s@ == string_setting(*value, default@),
{
    match value {
        Some(v) => v.clone(),
        None => String::from_str(default),
    }
}

/// The raw environment values the configuration is built from; `None` where a
/// variable is not set.
#[derive(Debug, Clone)]
pub struct EnvValues {
    pub grpc_port: Option<String>,
    pub http_port: Option<String>,
    pub user_name: Option<String>,
    pub comp_id: Option<String>,
    pub user_pass: Option<String>,
    pub browser_headless: Option<String>,
    pub browser_timeout: Option<String>,
    pub browser_debug: Option<String>,
    pub vehicle_job_timeout: Option<String>,
    pub sqlite_path: Option<String>,
    pub session_ttl: Option<String>,
    pub cookie_ttl: Option<String>,
    pub rust_logi_url: Option<String>,
    pub rust_logi_organization_id: Option<String>,
    pub log_format: Option<String>,
    pub log_file: Option<String>,
    pub log_dir: Option<String>,
    pub log_rotation: Option<String>,
}

/// No duration value overflows.
pub open spec fn env_durations_fit(e: EnvValues) -> bool {
    &&& (e.browser_timeout matches Some(v) ==> !duration_overflows(v@))
    &&& (e.vehicle_job_timeout matches Some(v) ==> !duration_overflows(v@))
    &&& (e.session_ttl matches Some(v) ==> !duration_overflows(v@))
    &&& (e.cookie_ttl matches Some(v) ==> !duration_overflows(v@))
}

/// The boolean an optional environment value denotes.
pub open spec fn bool_setting_view(value: Option<String>, default: bool) -> bool {
    match opt_view(value) {
        Some(v) => match parse_bool(v) {
            Some(x) => x,
            None => default,
        },
        None => default,
    }
}

/// Application configuration loaded from environment variables
#[derive(Debug, Clone)]
pub struct Config {
    // Server settings
    pub grpc_port: String,
    pub http_port: String,
    // Auth credentials
    pub user_name: String,
    pub comp_id: String,
    pub user_pass: String,
    // Browser settings
    pub browser_headless: bool,
    pub browser_timeout: Duration,
    pub browser_debug: bool,
    // Job timeout settings
    pub vehicle_job_timeout: Duration,
    // Database
    pub sqlite_path: String,
    // Session settings
    pub session_ttl: Duration,
    pub cookie_ttl: Duration,
    // rust-logi API settings
    pub rust_logi_url: String,
    pub rust_logi_organization_id: String,
    // Logging settings
    pub log_format: LogFormat,
    pub log_file: Option<String>,
    pub log_dir: String,
    pub log_rotation: LogRotation,
}

impl Config {
    /// Builds the configuration from raw environment values, applying the
    /// documented defaults (ports 50051 and 8080, a 60 s browser timeout, a
    /// 240 s vehicle job timeout, a 10 minute session TTL, a 24 hour cookie
    /// TTL, text logs rotated daily under `./logs`).
    pub fn from_env_values(e: &EnvValues) -> (c: Config)
        requires
            env_durations_fit(*e),
        ensures
            c.grpc_port@ == string_setting(e.grpc_port, "50051"@),
            c.http_port@ == string_setting(e.http_port, "8080"@),
            c.user_name@ == string_setting(e.user_name, ""@),
            c.comp_id@ == string_setting(e.comp_id, ""@),
            c.user_pass@ == string_setting(e.user_pass, ""@),
            c.browser_headless == bool_setting_view(e.browser_headless, true),
            c.browser_timeout@ == duration_setting_view(opt_view(e.browser_timeout), (60u64, 0u32)),
            c.browser_debug == bool_setting_view(e.browser_debug, false),
            c.vehicle_job_timeout@ == duration_setting_view(
                opt_view(e.vehicle_job_timeout),
                (240u64, 0u32),
            ),
            c.sqlite_path@ == string_setting(e.sqlite_path, "./data/browser_render.db"@),
            c.session_ttl@ == duration_setting_view(opt_view(e.session_ttl), (600u64, 0u32)),
            c.cookie_ttl@ == duration_setting_view(opt_view(e.cookie_ttl), (86400u64, 0u32)),
            c.rust_logi_url@ == string_setting(e.rust_logi_url, ""@),
            c.rust_logi_organization_id@ == string_setting(e.rust_logi_organization_id, ""@),
            c.log_format == (if lowercases_to(string_setting(e.log_format, "text"@), "json"@) {
                LogFormat::Json
            } else {
                LogFormat::Text
            }),
            c.log_file == e.log_file,
            c.log_dir@ == string_setting(e.log_dir, "./logs"@),
            c.log_rotation == (if lowercases_to(string_setting(e.log_rotation, "daily"@), "hourly"@) {
                LogRotation::Hourly
            } else if lowercases_to(string_setting(e.log_rotation, "daily"@), "never"@) {
                LogRotation::Never
            } else {
                LogRotation::Daily
            }),
    {
        let log_format = string_or(&e.log_format, "text");
        let log_rotation = string_or(&e.log_rotation, "daily");
        Config {
            grpc_port: string_or(&e.grpc_port, "50051"),
            http_port: string_or(&e.http_port, "8080"),
            user_name: string_or(&e.user_name, ""),
            comp_id: string_or(&e.comp_id, ""),
            user_pass: string_or(&e.user_pass, ""),
            browser_headless: bool_setting(&e.browser_headless, true),
            browser_timeout: duration_setting(&e.browser_timeout, Duration::from_secs(60)),
            browser_debug: bool_setting(&e.browser_debug, false),
            vehicle_job_timeout: duration_setting(&e.vehicle_job_timeout, Duration::from_secs(240)),
            sqlite_path: string_or(&e.sqlite_path, "./data/browser_render.db"),
            session_ttl: duration_setting(&e.session_ttl, Duration::from_secs(600)),
            cookie_ttl: duration_setting(&e.cookie_ttl, Duration::from_secs(86400)),
            rust_logi_url: string_or(&e.rust_logi_url, ""),
            rust_logi_organization_id: string_or(&e.rust_logi_organization_id, ""),
            log_format: LogFormat::from_str(log_format.as_str()),
            log_file: e.log_file.clone(),
            log_dir: string_or(&e.log_dir, "./logs"),
            log_rotation: LogRotation::from_str(log_rotation.as_str()),
        }
    }

    /// The authentication credentials are incomplete (any of them empty).
    pub fn credentials_missing(&self) -> (b: bool)
        ensures
            b == (self.user_name@.len() == 0 || self.comp_id@.len() == 0
                || self.user_pass@.len() == 0),
    {
        self.user_name.as_str().is_empty() || self.comp_id.as_str().is_empty()
            || self.user_pass.as_str().is_empty()
    }
}

/// The command-line settings that override the environment.
#[derive(Debug)]
pub struct CliOverrides {
    pub grpc_port: Option<String>,
    pub http_port: Option<String>,
    pub db_path: Option<String>,
    pub headless: bool,
    pub debug: bool,
    pub log_format: String,
    pub log_file: Option<String>,
    pub log_dir: String,
    pub log_rotation: String,
}

/// An optional override: the new value when given, else the old one.
pub open spec fn overridden(old: String, new: Option<String>) -> String {
    match new {
        Some(v) => v,
        None => old,
    }
}

fn override_with(old: String, new: Option<String>) -> (r: String)
    ensures
        r == overridden(old, new),
{
    match new {
        Some(v) => v,
        None => old,
    }
}

impl Config {
    /// The configuration with the command-line settings applied: ports and
    /// database path when given, the browser flags, the log format and
    /// rotation (parsed as `from_str` does), the log file when given, and the
    /// log directory.
    pub fn with_overrides(self, o: CliOverrides) -> (c: Config)
        ensures
            c.grpc_port == overridden(self.grpc_port, o.grpc_port),
            c.http_port == overridden(self.http_port, o.http_port),
            c.sqlite_path == overridden(self.sqlite_path, o.db_path),
            c.browser_headless == o.headless,
            c.browser_debug == o.debug,
            c.log_format == (if lowercases_to(o.log_format@, "json"@) {
                LogFormat::Json
            } else {
                LogFormat::Text
            }),
            c.log_file == match o.log_file {
                Some(f) => Some(f),
                None => self.log_file,
            },
            c.log_dir == o.log_dir,
            c.log_rotation == (if lowercases_to(o.log_rotation@, "hourly"@) {
                LogRotation::Hourly
            } else if lowercases_to(o.log_rotation@, "never"@) {
                LogRotation::Never
            } else {
                LogRotation::Daily
            }),
            c.user_name == self.user_name,
            c.comp_id == self.comp_id,
            c.user_pass == self.user_pass,
            c.browser_timeout == self.browser_timeout,
            c.vehicle_job_timeout == self.vehicle_job_timeout,
            c.session_ttl == self.session_ttl,
            c.cookie_ttl == self.cookie_ttl,
            c.rust_logi_url == self.rust_logi_url,
            c.rust_logi_organization_id == self.rust_logi_organization_id,
    {
        let log_format = LogFormat::from_str(o.log_format.as_str());
        let log_rotation = LogRotation::from_str(o.log_rotation.as_str());
        Config {
            grpc_port: override_with(self.grpc_port, o.grpc_port),
            http_port: override_with(self.http_port, o.http_port),
            sqlite_path: override_with(self.sqlite_path, o.db_path),
            browser_headless: o.headless,
            browser_debug: o.debug,
            log_format,
            log_file: match o.log_file {
                Some(f) => Some(f),
                None => self.log_file,
            },
            log_dir: o.log_dir,
            log_rotation,
            ..self
        }
    }

    /// The warnings loading the configuration reports, in order: missing
    /// credentials, a missing rust-logi URL, a missing rust-logi organization.
    pub fn warnings(&self) -> (w: Vec<String>)
        ensures
            w@.map_values(|s: String| s@) == (if self.user_name@.len() == 0 || self.comp_id@.len() == 0
                || self.user_pass@.len() == 0 {
                seq!["Authentication credentials not set in environment variables"@]
            } else {
                Seq::empty()
            }) + (if self.rust_logi_url@.len() == 0 {
                seq!["RUST_LOGI_URL not set - data will not be sent to rust-logi"@]
            } else {
                Seq::empty()
            }) + (if self.rust_logi_organization_id@.len() == 0 {
                seq!["RUST_LOGI_ORGANIZATION_ID not set - required for rust-logi"@]
            } else {
                Seq::empty()
            }),
    {
        let mut w: Vec<String> = Vec::new();
        let a = self.credentials_missing();
        if a {
            w.push(String::from_str("Authentication credentials not set in environment variables"));
        }
        if self.rust_logi_url.as_str().is_empty() {
            w.push(String::from_str("RUST_LOGI_URL not set - data will not be sent to rust-logi"));
        }
        if self.rust_logi_organization_id.as_str().is_empty() {
            w.push(String::from_str("RUST_LOGI_ORGANIZATION_ID not set - required for rust-logi"));
        }
        assert(w@.map_values(|s: String| s@) =~= (if a {
            seq!["Authentication credentials not set in environment variables"@]
        } else {
            Seq::empty()
        }) + (if self.rust_logi_url@.len() == 0 {
            seq!["RUST_LOGI_URL not set - data will not be sent to rust-logi"@]
        } else {
            Seq::empty()
        }) + (if self.rust_logi_organization_id@.len() == 0 {
            seq!["RUST_LOGI_ORGANIZATION_ID not set - required for rust-logi"@]
        } else {
            Seq::empty()
        }));
        w
    }

    /// The log level used when `RUST_LOG` is not set: `debug` in debug mode,
    /// else `info`.
    pub fn default_log_level(&self) -> (s: String)
        ensures
            s@ == if self.browser_debug {
                "debug"@
            } else {
                "info"@
            },
    {
        if self.browser_debug {
            String::from_str("debug")
        } else {
            String::from_str("info")
        }
    }
}

} // verus!
