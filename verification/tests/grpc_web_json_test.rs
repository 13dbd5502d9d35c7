use browser_render::grpc_web_client::parse_grpc_web_response;
use browser_render::server::grpc_web_json::{
    conversion_failure_message, invalid_json_message, is_cors_header, json_parse_error, stream_finish,
    JsonRoute,
};
use browser_render::server::grpc_json::{AccountResult, EtcBatchResult, EtcScrapeResult, Job};
use browser_render::server::grpc_web_json::{
    classify_response, download_chunk_to_json, empty_json_body, empty_json_response_body,
    empty_request_rule, error_response_body, etc_batch_env_from_json, etc_batch_from_json,
    etc_scrape_from_json, extract_json_payload, is_grpc_web_json, job_proto_to_json,
    json_data_response, next_stream_step, stream_end_trailer, unknown_method_message,
    DownloadFileChunk, EtcAccountJson, EtcBatchEnvJson, EtcBatchJson, EtcScrapeJson,
    GrpcWebJsonLayer, ResponseShape, StreamStep,
};

fn framed(flag: u8, payload: &[u8]) -> Vec<u8> {
    let mut frame = vec![flag];
    frame.extend_from_slice(&(payload.len() as u32).to_be_bytes());
    frame.extend_from_slice(payload);
    frame
}

#[test]
fn method_table_lookup() {
    let layer = GrpcWebJsonLayer::new();
    let h = layer.handler("/browser_render.v1.EtcScraperService/DownloadFile").unwrap();
    assert_eq!(h.service, "EtcScraperService");
    assert_eq!(h.method, "DownloadFile");
    assert!(h.is_streaming);
    let h = layer.handler("/browser_render.v1.BrowserRenderService/HealthCheck").unwrap();
    assert_eq!(h.service, "BrowserRenderService");
    assert!(!h.is_streaming);
    assert!(layer.handler("/browser_render.v1.EtcScraperService/Nope").is_none());
    assert!(layer.handler("").is_none());
    let svc = GrpcWebJsonLayer::default().layer(5u8);
    assert_eq!(svc.inner, 5);
    assert!(svc.layer.handler("/browser_render.v1.EtcScraperService/GetJob").is_some());
}

#[test]
fn json_mode_content_types() {
    assert!(is_grpc_web_json("application/grpc-web+json"));
    assert!(is_grpc_web_json("application/grpc-web+json; charset=utf-8"));
    assert!(is_grpc_web_json("application/grpc-web-text+json"));
    assert!(!is_grpc_web_json("application/grpc-web+proto"));
    assert!(!is_grpc_web_json("application/json"));
    assert!(!is_grpc_web_json(""));
}

#[test]
fn payload_extraction() {
    assert_eq!(extract_json_payload(&framed(0, b"{\"a\":1}")), b"{\"a\":1}".to_vec());
    assert_eq!(extract_json_payload(&framed(1, b"{}")), b"{}".to_vec());
    assert_eq!(extract_json_payload(b"{\"raw\":true}"), b"{\"raw\":true}".to_vec());
    // Announced length larger than the body: the body as it is.
    let body = vec![0u8, 0, 0, 0, 9, b'{', b'}'];
    assert_eq!(extract_json_payload(&body), body);
    // A bare header is not longer than five bytes.
    assert_eq!(extract_json_payload(&[0, 0, 0, 0, 0]), vec![0, 0, 0, 0, 0]);
}

#[test]
fn empty_bodies() {
    assert!(empty_json_body(b""));
    assert!(empty_json_body(b"{}"));
    assert!(empty_json_body(b"null"));
    assert!(!empty_json_body(b"{ }"));
    assert!(!empty_json_body(b"[]"));
    assert_eq!(empty_request_rule("HealthCheck"), Ok(()));
    assert_eq!(empty_request_rule("EtcScrapeBatchEnvQueue"), Ok(()));
    assert_eq!(
        empty_request_rule("GetJob"),
        Err("Empty body not allowed for method: GetJob".to_string())
    );
    assert_eq!(unknown_method_message("Foo"), "Unknown method: Foo");
}

#[test]
fn json_request_bodies() {
    let r = etc_scrape_from_json(EtcScrapeJson {
        user_id: Some("u".into()),
        password: None,
        download_path: None,
        headless: None,
    });
    assert_eq!(r.user_id, "u");
    assert_eq!(r.password, "");
    assert!(r.headless);
    let r = etc_batch_from_json(EtcBatchJson {
        accounts: Some(vec![EtcAccountJson { user_id: Some("a".into()), password: None, name: None }]),
        download_path: Some("/p".into()),
        headless: Some(false),
    });
    assert_eq!(r.accounts.len(), 1);
    assert_eq!(r.accounts[0].user_id, "a");
    assert_eq!(r.accounts[0].name, "");
    assert_eq!(r.download_path, "/p");
    assert!(!r.headless);
    let r = etc_batch_from_json(EtcBatchJson { accounts: None, download_path: None, headless: None });
    assert!(r.accounts.is_empty());
    let r = etc_batch_env_from_json(EtcBatchEnvJson { download_path: None, headless: None });
    assert!(r.headless);
    assert!(!r.headless_set);
    let r = etc_batch_env_from_json(EtcBatchEnvJson { download_path: None, headless: Some(false) });
    assert!(!r.headless);
    assert!(r.headless_set);
}

#[test]
fn response_classification() {
    assert!(matches!(classify_response(&[0, 0, 0]), ResponseShape::Empty));
    let mut body = framed(0, b"abc");
    body.extend(framed(0x80, b"grpc-status:0\r\n"));
    match classify_response(&body) {
        ResponseShape::Data { payload, rest } => {
            assert_eq!(payload, b"abc");
            assert_eq!(rest, framed(0x80, b"grpc-status:0\r\n"));
        }
        other => panic!("unexpected {:?}", other),
    }
    assert!(matches!(classify_response(&framed(0x80, b"x")), ResponseShape::Raw));
    assert!(matches!(classify_response(&[0, 0, 0, 0, 4, 1]), ResponseShape::Raw));
}

#[test]
fn json_frames() {
    let mut expected = framed(0, b"{}");
    expected.extend(framed(0x80, b"grpc-status:0\r\n"));
    assert_eq!(json_data_response(b"{}", b""), expected);
    assert_eq!(empty_json_response_body(), expected);
    let mut expected = framed(0, b"{\"x\":1}");
    expected.extend_from_slice(b"tail");
    assert_eq!(json_data_response(b"{\"x\":1}", b"tail"), expected);
}

#[test]
fn error_body_quotes_the_message() {
    let mut expected = framed(0, b"{\"error\":\"say \\\"hi\\\"\"}");
    expected.extend(framed(0x80, b"grpc-status:2\r\ngrpc-message:say \"hi\"\r\n"));
    assert_eq!(error_response_body("say \"hi\""), expected);
}

#[test]
fn stream_steps() {
    assert!(matches!(next_stream_step(&[0, 0]), StreamStep::NeedMore));
    assert!(matches!(next_stream_step(&[0, 0, 0, 0, 3, 1]), StreamStep::NeedMore));
    match next_stream_step(&[0, 0, 0, 0, 2, 7, 8, 9]) {
        StreamStep::Data(n, p) => {
            assert_eq!(n, 7);
            assert_eq!(p, vec![7, 8]);
        }
        other => panic!("unexpected {:?}", other),
    }
    assert!(matches!(next_stream_step(&framed(0x80, b"ab")), StreamStep::Trailer(7)));
    assert!(matches!(next_stream_step(&framed(0x01, b"ab")), StreamStep::Skip(7)));
    assert_eq!(stream_end_trailer(false), framed(0x80, b"grpc-status:0\r\n"));
    assert_eq!(
        stream_end_trailer(true),
        framed(0x80, b"grpc-status:2\r\ngrpc-message:Stream error\r\n")
    );
}

#[test]
fn job_json_drops_empty_values() {
    let job = Job {
        id: "j".into(),
        job_type: "EtcScrapeBatch".into(),
        priority: "Normal".into(),
        status: "Running".into(),
        created_at: "2024-01-01T00:00:00+00:00".into(),
        started_at: "2024-01-01T00:00:01+00:00".into(),
        completed_at: String::new(),
        error: String::new(),
        etc_result: Some(EtcScrapeResult { csv_path: "a.csv".into(), csv_size: 3 }),
        batch_result: Some(EtcBatchResult {
            session_folder: "f".into(),
            accounts: vec![AccountResult {
                user_id: "u".into(),
                name: String::new(),
                status: "Pending".into(),
                csv_path: String::new(),
                csv_size: 0,
                error: "e".into(),
            }],
            total_count: 1,
            success_count: 0,
            fail_count: 0,
        }),
        current_account_index: 0,
    };
    let r = job_proto_to_json(job);
    assert_eq!(r.started_at, Some("2024-01-01T00:00:01+00:00".to_string()));
    assert_eq!(r.completed_at, None);
    assert_eq!(r.error, None);
    assert_eq!(r.current_account_index, None);
    assert_eq!(r.etc_result.unwrap().csv_size, 3);
    let b = r.batch_result.unwrap();
    assert_eq!(b.accounts[0].name, None);
    assert_eq!(b.accounts[0].csv_size, None);
    assert_eq!(b.accounts[0].error, Some("e".to_string()));
}

#[test]
fn download_chunk_is_base64() {
    let c = DownloadFileChunk { data: b"hello".to_vec(), offset: 10, total_size: 20, is_last: true };
    let j = download_chunk_to_json(&c);
    assert_eq!(j.data, "aGVsbG8=");
    assert_eq!(j.offset, 10);
    assert_eq!(j.total_size, 20);
    assert!(j.is_last);
    let c = DownloadFileChunk { data: vec![], offset: 0, total_size: 0, is_last: false };
    assert_eq!(download_chunk_to_json(&c).data, "");
}

#[test]
fn answers_read_back_through_the_client() {
    let ok = json_data_response(b"{\"a\":1}", b"");
    assert_eq!(parse_grpc_web_response(&ok), Ok((b"{\"a\":1}".to_vec(), 0, String::new())));
    let err = error_response_body("Unknown method: /x/Y");
    assert_eq!(
        parse_grpc_web_response(&err),
        Ok((b"{\"error\":\"Unknown method: /x/Y\"}".to_vec(), 2, "Unknown method: /x/Y".to_string()))
    );
    assert_eq!(parse_grpc_web_response(&empty_json_response_body()), Ok((b"{}".to_vec(), 0, String::new())));
}

#[test]
fn cors_headers_are_recognized() {
    assert!(is_cors_header("access-control-allow-origin"));
    assert!(is_cors_header("access-control"));
    assert!(!is_cors_header("content-type"));
    assert!(!is_cors_header("access"));
}

#[test]
fn requests_are_routed() {
    let layer = GrpcWebJsonLayer::new();
    assert!(matches!(
        layer.route("application/grpc-web+proto", "/browser_render.v1.EtcScraperService/GetJob"),
        JsonRoute::PassThrough
    ));
    match layer.route("application/grpc-web+json", "/browser_render.v1.EtcScraperService/GetJob") {
        JsonRoute::Method(h) => assert_eq!(h.method, "GetJob"),
        other => panic!("unexpected {:?}", other),
    }
    match layer.route("application/grpc-web-text+json", "/nope") {
        JsonRoute::Unknown(m) => assert_eq!(m, "Unknown method: /nope"),
        other => panic!("unexpected {:?}", other),
    }
    assert_eq!(invalid_json_message("x"), "Invalid JSON: x");
    assert_eq!(json_parse_error("eof"), "JSON parse error: eof");
    assert_eq!(conversion_failure_message("bad"), "Failed to convert response: bad");
}

#[test]
fn error_json_escapes_like_serde_json() {
    let body = error_response_body("a\tb\u{1}\\c\u{7f}é");
    let (json, status, _) = parse_grpc_web_response(&body).unwrap();
    assert_eq!(status, 2);
    assert_eq!(String::from_utf8(json).unwrap(), "{\"error\":\"a\\tb\\u0001\\\\c\u{7f}é\"}");
}

#[test]
fn base64_pads_each_length() {
    let enc = |d: &[u8]| {
        download_chunk_to_json(&DownloadFileChunk { data: d.to_vec(), offset: 0, total_size: 0, is_last: false }).data
    };
    assert_eq!(enc(b"f"), "Zg==");
    assert_eq!(enc(b"fo"), "Zm8=");
    assert_eq!(enc(b"foo"), "Zm9v");
    assert_eq!(enc(&[0xfb, 0xff]), "+/8=");
}

#[test]
fn streams_end_with_one_trailer() {
    assert_eq!(stream_finish(false, true), None);
    assert_eq!(stream_finish(true, true), None);
    assert_eq!(stream_finish(false, false), Some(stream_end_trailer(false)));
    assert_eq!(stream_finish(true, false), Some(stream_end_trailer(true)));
}
