//! Reporting to rust-logi: the records built from the scraped vehicle data,
//! the date conversion they need, and the decisions around the calls.
use vstd::prelude::*;

use crate::clock::{
    representable, Timestamp, JST_OFFSET_SECS, MAX_TIMESTAMP_SECS, MIN_TIMESTAMP_SECS,
};
use crate::config::opt_view;
use crate::text::{chars_of, concat_str, starts_with_str};

verus! {

// ========== Dates ==========
/// The strftime pattern of the scraped dates once the century is prefixed.
pub open spec fn scraped_date_pattern() -> Seq<char> {
    "%Y/%m/%d %H:%M"@
}

/// The date-time `chrono::NaiveDateTime::parse_from_str` reads from `text`
/// with `pattern`, as `(seconds, nanoseconds)` of that wall-clock time taken
/// as UTC; `None` when it does not parse.
pub uninterp spec fn naive_datetime(text: Seq<char>, pattern: Seq<char>) -> Option<(i64, u32)>;

/// The RFC 3339 text `chrono` writes for an instant shown in the time zone
/// `offset_secs` east of UTC (`DateTime::<FixedOffset>::to_rfc3339`).
pub uninterp spec fn offset_rfc3339_text(secs: i64, nanos: u32, offset_secs: i32) -> Seq<char>;

/// `chrono::NaiveDateTime::parse_from_str(text, pattern)`, read back as the
/// seconds and nanoseconds of that wall-clock time taken as UTC
/// (`and_utc()`). The result is named by `naive_datetime`.
#[verifier::external_body]
fn parse_naive_datetime(text: &str, pattern: &str) -> (r: Option<(i64, u32)>)
    ensures
        r == naive_datetime(text@, pattern@),
{
    match chrono::NaiveDateTime::parse_from_str(text, pattern) {
        Ok(dt) => Some((dt.and_utc().timestamp(), dt.and_utc().timestamp_subsec_nanos())),
        Err(_) => None,
    }
}

/// The instant as `chrono::DateTime<FixedOffset>` with the offset
/// `FixedOffset::east_opt(offset_secs)`, written by `to_rfc3339`. The text is
/// named by `offset_rfc3339_text`; `requires` keeps the instant in `chrono`'s
/// range and the offset below one day, where both constructors succeed.
#[verifier::external_body]
fn format_rfc3339_at(secs: i64, nanos: u32, offset_secs: i32) -> (s: String)
    requires
        representable(secs, nanos),
        -86_400 < offset_secs < 86_400,
    ensures
        s@ == offset_rfc3339_text(secs, nanos, offset_secs),
{
    match (chrono::DateTime::from_timestamp(secs, nanos), chrono::FixedOffset::east_opt(offset_secs)) {
        (Some(d), Some(tz)) => d.with_timezone(&tz).to_rfc3339(),
        _ => String::new(),
    }
}

/// The ISO 8601 text of a scraped `YY/MM/DD HH:MM` date, read as Japan
/// Standard Time: `2020-01-01T00:00:00+09:00` for an empty text, the RFC 3339
/// text of the instant when `20` followed by the text parses, else `20`
/// followed by the text.
pub open spec fn data_date_text(s: Seq<char>) -> Seq<char> {
    if s.len() == 0 {
        "2020-01-01T00:00:00+09:00"@
    } else {
        match naive_datetime("20"@ + s, scraped_date_pattern()) {
            Some((secs, nanos)) => if MIN_TIMESTAMP_SECS <= secs - JST_OFFSET_SECS <= MAX_TIMESTAMP_SECS
                && nanos < 1_000_000_000 {
                offset_rfc3339_text((secs - JST_OFFSET_SECS) as i64, nanos, JST_OFFSET_SECS)
            } else {
                "20"@ + s
            },
            None => "20"@ + s,
        }
    }
}

/// Converts `DataDateTime` from `YY/MM/DD HH:MM` (JST) to ISO 8601, e.g.
/// `24/11/28 10:37` to `2024-11-28T10:37:00+09:00`.
pub fn convert_data_date_time(date_str: &str) -> (r: String)
    ensures
        r@ == data_date_text(date_str@),
{
    if date_str.unicode_len() == 0 {
        return String::from_str("2020-01-01T00:00:00+09:00");
    }
    let full_date = concat_str(String::from_str("20"), date_str);
    match parse_naive_datetime(full_date.as_str(), "%Y/%m/%d %H:%M") {
        Some((secs, nanos)) => {
            if secs >= i64::MIN + 32400 {
                let utc = secs - 32400;
                match Timestamp::from_parts(utc, nanos) {
                    Some(t) => {
                        return format_rfc3339_at(t.secs(), t.subsec_nanos(), JST_OFFSET_SECS);
                    },
                    None => {},
                }
            }
            full_date
        },
        None => full_date,
    }
}

// ========== Records ==========
/// A member of a scraped JSON object, as the record conversion reads it: a
/// string, an integer that fits in `i64`, or anything else.
#[derive(Debug)]
pub enum JsonField {
    Text(String),
    Integer(i64),
    Other,
}

/// The value of the first member named `key`.
pub open spec fn member(obj: Seq<(String, JsonField)>, key: Seq<char>) -> Option<JsonField>
    decreases obj.len(),
{
    if obj.len() == 0 {
        None
    } else if obj[0].0@ == key {
        Some(obj[0].1)
    } else {
        member(obj.drop_first(), key)
    }
}

/// The member `key` when it is a string.
pub open spec fn text_member(obj: Seq<(String, JsonField)>, key: Seq<char>) -> Option<Seq<char>> {
    match member(obj, key) {
        Some(JsonField::Text(s)) => Some(s@),
        _ => None,
    }
}

/// The member `key` when it is a string, else the empty text.
pub open spec fn text_member_or_empty(obj: Seq<(String, JsonField)>, key: Seq<char>) -> Seq<char> {
    match text_member(obj, key) {
        Some(s) => s,
        None => Seq::empty(),
    }
}

/// The member `key` when it is an `i64`, truncated to `i32`; else 0.
pub open spec fn int_member(obj: Seq<(String, JsonField)>, key: Seq<char>) -> i32 {
    match member(obj, key) {
        Some(JsonField::Integer(n)) => n as i32,
        _ => 0,
    }
}

fn find_member(obj: &Vec<(String, JsonField)>, key: &str) -> (r: Option<usize>)
    ensures
        match r {
            Some(k) => k < obj@.len() && member(obj@, key@) == Some(obj@[k as int].1),
            None => member(obj@, key@) is None,
        },
{
    let key_s = String::from_str(key);
    let mut i: usize = 0;
    assert(obj@.skip(0) =~= obj@);
    while i < obj.len()
        invariant
            i <= obj@.len(),
            key_s@ == key@,
            member(obj@, key@) == member(obj@.skip(i as int), key@),
        decreases obj@.len() - i,
    {
        assert(obj@.skip(i as int)[0] == obj@[i as int]);
        assert(obj@.skip(i as int).drop_first() =~= obj@.skip(i + 1));
        if obj[i].0 == key_s {
            return Some(i);
        }
        i = i + 1;
    }
    None
}

fn text_field(obj: &Vec<(String, JsonField)>, key: &str) -> (r: Option<String>)
    ensures
        opt_view(r) == text_member(obj@, key@),
{
    match find_member(obj, key) {
        Some(k) => match &obj[k].1 {
            JsonField::Text(s) => Some(s.clone()),
            _ => None,
        },
        None => None,
    }
}

fn text_field_or_empty(obj: &Vec<(String, JsonField)>, key: &str) -> (r: String)
    ensures
        r@ == text_member_or_empty(obj@, key@),
{
    match text_field(obj, key) {
        Some(s) => s,
        None => String::new(),
    }
}

fn int_field(obj: &Vec<(String, JsonField)>, key: &str) -> (r: i32)
    ensures
        r == int_member(obj@, key@),
{
    match find_member(obj, key) {
        Some(k) => match &obj[k].1 {
            JsonField::Integer(n) => *n as i32,
            _ => 0,
        },
        None => 0,
    }
}

/// A `Dtakolog` record for rust-logi's bulk insert. The vehicle speed, a
/// floating-point value, is attached where the record is sent.
#[derive(Debug)]
pub struct DtakologRecord {
    pub record_type: String,
    pub address_disp_c: Option<String>,
    pub address_disp_p: Option<String>,
    pub all_state: Option<String>,
    pub all_state_ex: Option<String>,
    pub all_state_font_color: Option<String>,
    pub all_state_font_color_index: i32,
    pub all_state_ryout_color: String,
    pub branch_cd: i32,
    pub branch_name: String,
    pub comu_date_time: Option<String>,
    pub current_work_cd: i32,
    pub current_work_name: Option<String>,
    pub data_date_time: String,
    pub data_filter_type: i32,
    pub disp_flag: i32,
    pub driver_cd: i32,
    pub driver_name: Option<String>,
    pub event_val: Option<String>,
    pub gps_direction: i32,
    pub gps_enable: i32,
    pub gps_lati_and_long: Option<String>,
    pub gps_latitude: i32,
    pub gps_longitude: i32,
    pub gps_satellite_num: i32,
    pub odometer: Option<String>,
    pub operation_state: i32,
    pub recive_event_type: i32,
    pub recive_packet_type: i32,
    pub recive_type_color_name: Option<String>,
    pub recive_type_name: Option<String>,
    pub recive_work_cd: i32,
    pub revo: i32,
    pub setting_temp: String,
    pub setting_temp1: String,
    pub setting_temp3: String,
    pub setting_temp4: String,
    pub start_work_date_time: Option<String>,
    pub state: Option<String>,
    pub state1: Option<String>,
    pub state2: Option<String>,
    pub state3: Option<String>,
    pub state_flag: Option<String>,
    pub sub_driver_cd: i32,
    pub temp1: Option<String>,
    pub temp2: Option<String>,
    pub temp3: Option<String>,
    pub temp4: Option<String>,
    pub temp_state: i32,
    pub vehicle_cd: i32,
    pub vehicle_icon_color: Option<String>,
    pub vehicle_icon_label_for_datetime: Option<String>,
    pub vehicle_icon_label_for_driver: Option<String>,
    pub vehicle_icon_label_for_vehicle: Option<String>,
    pub vehicle_name: String,
}

/// `r` is the record of the scraped object `obj`: strings where the object
/// holds strings (absent, or empty for the required ones, otherwise),
/// integers truncated to `i32` (0 when absent), and the JST date converted.
pub open spec fn record_of(r: DtakologRecord, obj: Seq<(String, JsonField)>) -> bool {
    &&& text_member(obj, "__type"@) == Some(r.record_type@)
    &&& opt_view(r.address_disp_c) == text_member(obj, "AddressDispC"@)
    &&& opt_view(r.address_disp_p) == text_member(obj, "AddressDispP"@)
    &&& opt_view(r.all_state) == text_member(obj, "AllState"@)
    &&& opt_view(r.all_state_ex) == text_member(obj, "AllStateEx"@)
    &&& opt_view(r.all_state_font_color) == text_member(obj, "AllStateFontColor"@)
    &&& r.all_state_font_color_index == int_member(obj, "AllStateFontColorIndex"@)
    &&& r.all_state_ryout_color@ == text_member_or_empty(obj, "AllStateRyoutColor"@)
    &&& r.branch_cd == int_member(obj, "BranchCD"@)
    &&& r.branch_name@ == text_member_or_empty(obj, "BranchName"@)
    &&& opt_view(r.comu_date_time) == text_member(obj, "ComuDateTime"@)
    &&& r.current_work_cd == int_member(obj, "CurrentWorkCD"@)
    &&& opt_view(r.current_work_name) == text_member(obj, "CurrentWorkName"@)
    &&& r.data_date_time@ == data_date_text(text_member_or_empty(obj, "DataDateTime"@))
    &&& r.data_filter_type == int_member(obj, "DataFilterType"@)
    &&& r.disp_flag == int_member(obj, "DispFlag"@)
    &&& r.driver_cd == int_member(obj, "DriverCD"@)
    &&& opt_view(r.driver_name) == text_member(obj, "DriverName"@)
    &&& opt_view(r.event_val) == text_member(obj, "EventVal"@)
    &&& r.gps_direction == int_member(obj, "GPSDirection"@)
    &&& r.gps_enable == int_member(obj, "GPSEnable"@)
    &&& opt_view(r.gps_lati_and_long) == text_member(obj, "GPSLatiAndLong"@)
    &&& r.gps_latitude == int_member(obj, "GPSLatitude"@)
    &&& r.gps_longitude == int_member(obj, "GPSLongitude"@)
    &&& r.gps_satellite_num == int_member(obj, "GPSSatelliteNum"@)
    &&& opt_view(r.odometer) == text_member(obj, "ODOMeter"@)
    &&& r.operation_state == int_member(obj, "OperationState"@)
    &&& r.recive_event_type == int_member(obj, "ReciveEventType"@)
    &&& r.recive_packet_type == int_member(obj, "RecivePacketType"@)
    &&& opt_view(r.recive_type_color_name) == text_member(obj, "ReciveTypeColorName"@)
    &&& opt_view(r.recive_type_name) == text_member(obj, "ReciveTypeName"@)
    &&& r.recive_work_cd == int_member(obj, "ReciveWorkCD"@)
    &&& r.revo == int_member(obj, "Revo"@)
    &&& r.setting_temp@ == text_member_or_empty(obj, "SettingTemp"@)
    &&& r.setting_temp1@ == text_member_or_empty(obj, "SettingTemp1"@)
    &&& r.setting_temp3@ == text_member_or_empty(obj, "SettingTemp3"@)
    &&& r.setting_temp4@ == text_member_or_empty(obj, "SettingTemp4"@)
    &&& opt_view(r.start_work_date_time) == text_member(obj, "StartWorkDateTime"@)
    &&& opt_view(r.state) == text_member(obj, "State"@)
    &&& opt_view(r.state1) == text_member(obj, "State1"@)
    &&& opt_view(r.state2) == text_member(obj, "State2"@)
    &&& opt_view(r.state3) == text_member(obj, "State3"@)
    &&& opt_view(r.state_flag) == text_member(obj, "StateFlag"@)
    &&& r.sub_driver_cd == int_member(obj, "SubDriverCD"@)
    &&& opt_view(r.temp1) == text_member(obj, "Temp1"@)
    &&& opt_view(r.temp2) == text_member(obj, "Temp2"@)
    &&& opt_view(r.temp3) == text_member(obj, "Temp3"@)
    &&& opt_view(r.temp4) == text_member(obj, "Temp4"@)
    &&& r.temp_state == int_member(obj, "TempState"@)
    &&& r.vehicle_cd == int_member(obj, "VehicleCD"@)
    &&& opt_view(r.vehicle_icon_color) == text_member(obj, "VehicleIconColor"@)
    &&& opt_view(r.vehicle_icon_label_for_datetime) == text_member(obj, "VehicleIconLabelForDatetime"@)
    &&& opt_view(r.vehicle_icon_label_for_driver) == text_member(obj, "VehicleIconLabelForDriver"@)
    &&& opt_view(r.vehicle_icon_label_for_vehicle) == text_member(obj, "VehicleIconLabelForVehicle"@)
    &&& r.vehicle_name@ == text_member_or_empty(obj, "VehicleName"@)
}

/// The record of a scraped vehicle object; `None` when it has no `__type`
/// string.
pub fn dtakolog_record(obj: &Vec<(String, JsonField)>) -> (r: Option<DtakologRecord>)
    ensures
        match r {
            Some(rec) => record_of(rec, obj@),
            None => text_member(obj@, "__type"@) is None,
        },
{
    let record_type = match text_field(obj, "__type") {
        Some(t) => t,
        None => return None,
    };
    Some(DtakologRecord {
        record_type,
        address_disp_c: text_field(obj, "AddressDispC"),
        address_disp_p: text_field(obj, "AddressDispP"),
        all_state: text_field(obj, "AllState"),
        all_state_ex: text_field(obj, "AllStateEx"),
        all_state_font_color: text_field(obj, "AllStateFontColor"),
        all_state_font_color_index: int_field(obj, "AllStateFontColorIndex"),
        all_state_ryout_color: text_field_or_empty(obj, "AllStateRyoutColor"),
        branch_cd: int_field(obj, "BranchCD"),
        branch_name: text_field_or_empty(obj, "BranchName"),
        comu_date_time: text_field(obj, "ComuDateTime"),
        current_work_cd: int_field(obj, "CurrentWorkCD"),
        current_work_name: text_field(obj, "CurrentWorkName"),
        data_date_time: convert_data_date_time(text_field_or_empty(obj, "DataDateTime").as_str()),
        data_filter_type: int_field(obj, "DataFilterType"),
        disp_flag: int_field(obj, "DispFlag"),
        driver_cd: int_field(obj, "DriverCD"),
        driver_name: text_field(obj, "DriverName"),
        event_val: text_field(obj, "EventVal"),
        gps_direction: int_field(obj, "GPSDirection"),
        gps_enable: int_field(obj, "GPSEnable"),
        gps_lati_and_long: text_field(obj, "GPSLatiAndLong"),
        gps_latitude: int_field(obj, "GPSLatitude"),
        gps_longitude: int_field(obj, "GPSLongitude"),
        gps_satellite_num: int_field(obj, "GPSSatelliteNum"),
        odometer: text_field(obj, "ODOMeter"),
        operation_state: int_field(obj, "OperationState"),
        recive_event_type: int_field(obj, "ReciveEventType"),
        recive_packet_type: int_field(obj, "RecivePacketType"),
        recive_type_color_name: text_field(obj, "ReciveTypeColorName"),
        recive_type_name: text_field(obj, "ReciveTypeName"),
        recive_work_cd: int_field(obj, "ReciveWorkCD"),
        revo: int_field(obj, "Revo"),
        setting_temp: text_field_or_empty(obj, "SettingTemp"),
        setting_temp1: text_field_or_empty(obj, "SettingTemp1"),
        setting_temp3: text_field_or_empty(obj, "SettingTemp3"),
        setting_temp4: text_field_or_empty(obj, "SettingTemp4"),
        start_work_date_time: text_field(obj, "StartWorkDateTime"),
        state: text_field(obj, "State"),
        state1: text_field(obj, "State1"),
        state2: text_field(obj, "State2"),
        state3: text_field(obj, "State3"),
        state_flag: text_field(obj, "StateFlag"),
        sub_driver_cd: int_field(obj, "SubDriverCD"),
        temp1: text_field(obj, "Temp1"),
        temp2: text_field(obj, "Temp2"),
        temp3: text_field(obj, "Temp3"),
        temp4: text_field(obj, "Temp4"),
        temp_state: int_field(obj, "TempState"),
        vehicle_cd: int_field(obj, "VehicleCD"),
        vehicle_icon_color: text_field(obj, "VehicleIconColor"),
        vehicle_icon_label_for_datetime: text_field(obj, "VehicleIconLabelForDatetime"),
        vehicle_icon_label_for_driver: text_field(obj, "VehicleIconLabelForDriver"),
        vehicle_icon_label_for_vehicle: text_field(obj, "VehicleIconLabelForVehicle"),
        vehicle_name: text_field_or_empty(obj, "VehicleName"),
    })
}

// ========== Calls ==========
/// The scraped objects that become records, in order: the JSON objects with
/// a `__type` string (other values and objects are left out).
pub open spec fn typed_objects(values: Seq<Option<Seq<(String, JsonField)>>>) -> Seq<Seq<(String, JsonField)>>
    decreases values.len(),
{
    if values.len() == 0 {
        Seq::empty()
    } else {
        let rest = typed_objects(values.drop_last());
        match values.last() {
            Some(obj) => if text_member(obj, "__type"@) is Some {
                rest.push(obj)
            } else {
                rest
            },
            None => rest,
        }
    }
}

/// The records of the scraped values (`None` stands for a value that is not
/// a JSON object): one per object with a `__type` string, in order.
pub fn dtakolog_records(values: Vec<Option<Vec<(String, JsonField)>>>) -> (r: Vec<DtakologRecord>)
    ensures
        r@.len() == typed_objects(values@.map_values(|v: Option<Vec<(String, JsonField)>>| match v {
            Some(o) => Some(o@),
            None => None,
        })).len(),
        forall|i: int|
            0 <= i < r@.len() ==> record_of(
                #[trigger] r@[i],
                typed_objects(values@.map_values(|v: Option<Vec<(String, JsonField)>>| match v {
                    Some(o) => Some(o@),
                    None => None,
                }))[i],
            ),
{
    let ghost view = |v: Option<Vec<(String, JsonField)>>| match v {
        Some(o) => Some(o@),
        None => None,
    };
    let ghost all = values@.map_values(view);
    let mut out: Vec<DtakologRecord> = Vec::new();
    let mut i: usize = 0;
    while i < values.len()
        invariant
            i <= values@.len(),
            all == values@.map_values(view),
            view == (|v: Option<Vec<(String, JsonField)>>| match v {
                Some(o) => Some(o@),
                None => None,
            }),
            out@.len() == typed_objects(all.take(i as int)).len(),
            forall|k: int|
                0 <= k < out@.len() ==> record_of(#[trigger] out@[k], typed_objects(all.take(i as int))[k]),
        decreases values@.len() - i,
    {
        assert(all.take(i + 1).drop_last() =~= all.take(i as int));
        assert(all.take(i + 1).last() == view(values@[i as int]));
        match &values[i] {
            Some(obj) => {
                let rec = dtakolog_record(obj);
                match rec {
                    Some(rec) => {
                        out.push(rec);
                    },
                    None => {},
                }
            },
            None => {},
        }
        i = i + 1;
    }
    assert(all.take(values@.len() as int) =~= all);
    out
}

/// The `x-organization-id` header of a call: the organization id when one
/// is configured, else none.
pub fn organization_header(org_id: &str) -> (r: Option<String>)
    ensures
        org_id@.len() == 0 ==> r is None,
        org_id@.len() > 0 ==> (r matches Some(h) && h@ == org_id@),
{
    if org_id.unicode_len() == 0 {
        None
    } else {
        Some(String::from_str(org_id))
    }
}


/// Whether rust-logi is reached over TLS (and with a Cloud Run ID token):
/// its URL starts with `https://`.
pub open spec fn uses_tls(url: Seq<char>) -> bool {
    url.len() >= "https://"@.len() && url.take("https://"@.len() as int) == "https://"@
}

/// Whether the rust-logi URL asks for TLS.
pub fn rust_logi_uses_tls(url: &str) -> (b: bool)
    ensures
        b == uses_tls(url@),
{
    let v = chars_of(url);
    starts_with_str(&v, "https://")
}

/// Checks that a rust-logi URL is configured.
pub fn require_rust_logi_url(url: &str) -> (r: Result<(), String>)
    ensures
        url@.len() == 0 ==> (r matches Err(m) && m@ == "RUST_LOGI_URL not configured"@),
        url@.len() > 0 ==> r is Ok,
{
    if url.unicode_len() == 0 {
        Err(String::from_str("RUST_LOGI_URL not configured"))
    } else {
        Ok(())
    }
}

/// Whether DVR notifications go out: never without a configured rust-logi
/// URL (an error); with one, a request is made only when there are
/// notifications, and an empty list is a success with nothing sent.
pub fn dvr_delivery(url: &str, notification_count: usize) -> (r: Result<bool, String>)
    ensures
        url@.len() == 0 ==> (r matches Err(m) && m@ == "RUST_LOGI_URL not configured"@),
        url@.len() > 0 ==> r == Ok::<bool, String>(notification_count > 0),
{
    match require_rust_logi_url(url) {
        Err(e) => Err(e),
        Ok(()) => Ok(notification_count > 0),
    }
}

/// The `authorization` header of a call with an ID token.
pub fn bearer_value(token: &str) -> (s: String)
    ensures
        s@ == "Bearer "@ + token@,
{
    concat_str(String::from_str("Bearer "), token)
}

/// The GCE metadata URL that issues an ID token for `audience`.
pub fn id_token_url(audience: &str) -> (s: String)
    ensures
        s@ == "http://metadata.google.internal/computeMetadata/v1/instance/service-accounts/default/identity?audience="@
            + audience@,
{
    concat_str(
        String::from_str(
            "http://metadata.google.internal/computeMetadata/v1/instance/service-accounts/default/identity?audience=",
        ),
        audience,
    )
}

/// What follows a vehicle scrape: whether its data goes to rust-logi (a
/// successful scrape with a configured URL), and whether its DVR
/// notifications do (there are some, and the URL is configured).
pub fn vehicle_followups(scrape_ok: bool, notification_count: usize, url: &str) -> (r: (bool, bool))
    ensures
        r.0 == (scrape_ok && url@.len() > 0),
        r.1 == (scrape_ok && notification_count > 0 && url@.len() > 0),
{
    let configured = url.unicode_len() > 0;
    (scrape_ok && configured, scrape_ok && notification_count > 0 && configured)
}

} // verus!
