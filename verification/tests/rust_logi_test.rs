use browser_render::jobs::folders::stale_session_folders;
use browser_render::jobs::rust_logi::{
    bearer_value, convert_data_date_time, dvr_delivery, dtakolog_record, dtakolog_records, organization_header, id_token_url, require_rust_logi_url,
    rust_logi_uses_tls, vehicle_followups, JsonField,
};
use browser_render::server::http::{count_csv_files, SessionDirEntry};

#[test]
fn data_dates_become_jst_rfc3339() {
    assert_eq!(convert_data_date_time("24/11/28 10:37"), "2024-11-28T10:37:00+09:00");
    assert_eq!(convert_data_date_time("25/01/01 00:05"), "2025-01-01T00:05:00+09:00");
    assert_eq!(convert_data_date_time(""), "2020-01-01T00:00:00+09:00");
    assert_eq!(convert_data_date_time("garbage"), "20garbage");
    assert_eq!(convert_data_date_time("24/13/01 10:00"), "2024/13/01 10:00");
}

fn obj(members: Vec<(&str, JsonField)>) -> Vec<(String, JsonField)> {
    members.into_iter().map(|(k, v)| (k.to_string(), v)).collect()
}

#[test]
fn records_read_strings_and_integers() {
    let o = obj(vec![
        ("__type", JsonField::Text("VehicleData".to_string())),
        ("VehicleCD", JsonField::Integer(1234)),
        ("VehicleName", JsonField::Text("Truck 1".to_string())),
        ("DriverName", JsonField::Text("Sato".to_string())),
        ("BranchCD", JsonField::Integer(5_000_000_000)),
        ("DataDateTime", JsonField::Text("24/11/28 10:37".to_string())),
        ("State", JsonField::Integer(3)),
        ("Revo", JsonField::Text("1200".to_string())),
        ("Temp1", JsonField::Other),
    ]);
    let r = dtakolog_record(&o).unwrap();
    assert_eq!(r.record_type, "VehicleData");
    assert_eq!(r.vehicle_cd, 1234);
    assert_eq!(r.vehicle_name, "Truck 1");
    assert_eq!(r.driver_name, Some("Sato".to_string()));
    assert_eq!(r.branch_cd, 5_000_000_000i64 as i32);
    assert_eq!(r.data_date_time, "2024-11-28T10:37:00+09:00");
    // A member of the wrong kind reads as absent.
    assert_eq!(r.state, None);
    assert_eq!(r.revo, 0);
    assert_eq!(r.temp1, None);
    // Absent members.
    assert_eq!(r.branch_name, "");
    assert_eq!(r.odometer, None);
    assert_eq!(r.gps_latitude, 0);
}

#[test]
fn records_need_a_type_string() {
    assert!(dtakolog_record(&obj(vec![("VehicleCD", JsonField::Integer(1))])).is_none());
    assert!(dtakolog_record(&obj(vec![("__type", JsonField::Integer(1))])).is_none());
    let r = dtakolog_record(&obj(vec![("__type", JsonField::Text(String::new()))])).unwrap();
    assert_eq!(r.data_date_time, "2020-01-01T00:00:00+09:00");
}

#[test]
fn call_decisions() {
    assert!(rust_logi_uses_tls("https://logi.example.com"));
    assert!(!rust_logi_uses_tls("http://localhost:50051"));
    assert!(!rust_logi_uses_tls("https:/"));
    assert_eq!(require_rust_logi_url(""), Err("RUST_LOGI_URL not configured".to_string()));
    assert_eq!(require_rust_logi_url("http://x"), Ok(()));
    assert_eq!(bearer_value("tok"), "Bearer tok");
    assert_eq!(
        id_token_url("https://a"),
        "http://metadata.google.internal/computeMetadata/v1/instance/service-accounts/default/identity?audience=https://a"
    );
    assert_eq!(vehicle_followups(true, 2, "http://x"), (true, true));
    assert_eq!(vehicle_followups(true, 0, "http://x"), (true, false));
    assert_eq!(vehicle_followups(true, 2, ""), (false, false));
    assert_eq!(vehicle_followups(false, 2, "http://x"), (false, false));
}

fn dir(name: &str, is_dir: bool) -> SessionDirEntry {
    SessionDirEntry { name: name.to_string(), is_dir, csv_count: 0 }
}

#[test]
fn oldest_session_folders_are_removed() {
    let entries = vec![
        dir("20240103_000000", true),
        dir("20240101_000000", true),
        dir("other", true),
        dir("20240104_000000", false),
        dir("20240102_000000", true),
        dir("20240105_000000", true),
    ];
    assert_eq!(
        stale_session_folders(entries, 2),
        vec!["20240102_000000".to_string(), "20240101_000000".to_string()]
    );
    assert!(stale_session_folders(vec![dir("20240101_000000", true)], 10).is_empty());
    assert_eq!(
        stale_session_folders(vec![dir("20240101_000000", true)], 0),
        vec!["20240101_000000".to_string()]
    );
}

#[test]
fn record_lists_keep_typed_objects_in_order() {
    let values = vec![
        Some(obj(vec![("__type", JsonField::Text("A".to_string())), ("VehicleCD", JsonField::Integer(1))])),
        None,
        Some(obj(vec![("VehicleCD", JsonField::Integer(2))])),
        Some(obj(vec![("__type", JsonField::Text("B".to_string())), ("VehicleCD", JsonField::Integer(3))])),
    ];
    let r = dtakolog_records(values);
    assert_eq!(r.len(), 2);
    assert_eq!((r[0].record_type.as_str(), r[0].vehicle_cd), ("A", 1));
    assert_eq!((r[1].record_type.as_str(), r[1].vehicle_cd), ("B", 3));
    assert!(dtakolog_records(vec![]).is_empty());
}

#[test]
fn organization_header_only_when_configured() {
    assert_eq!(organization_header(""), None);
    assert_eq!(organization_header("org-1"), Some("org-1".to_string()));
}

#[test]
fn dvr_notifications_go_out_only_when_there_are_some() {
    assert_eq!(dvr_delivery("", 3), Err("RUST_LOGI_URL not configured".to_string()));
    assert_eq!(dvr_delivery("", 0), Err("RUST_LOGI_URL not configured".to_string()));
    assert_eq!(dvr_delivery("http://logi:50051", 0), Ok(false));
    assert_eq!(dvr_delivery("https://logi.run.app", 2), Ok(true));
}

#[test]
fn csv_files_of_a_session_are_counted() {
    let names: Vec<String> =
        vec!["a.csv", "B.CSV", ".csv", "notes.txt", "c.csv.bak", "d.Csv"].into_iter().map(String::from).collect();
    assert_eq!(count_csv_files(&names), 3);
    assert_eq!(count_csv_files(&Vec::new()), 0);
}
