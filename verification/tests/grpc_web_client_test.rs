use browser_render::grpc_web_client::{
    encode_grpc_web_frame, grpc_web_outcome, grpc_web_url, parse_grpc_web_response,
};

fn framed(flag: u8, payload: &[u8]) -> Vec<u8> {
    let mut frame = vec![flag];
    frame.extend_from_slice(&(payload.len() as u32).to_be_bytes());
    frame.extend_from_slice(payload);
    frame
}

#[test]
fn test_encode_decode_frame() {
    let data = b"hello";
    let mut frame = Vec::new();
    frame.push(0x00);
    frame.extend_from_slice(&(data.len() as u32).to_be_bytes());
    frame.extend_from_slice(data);

    let trailer = b"grpc-status: 0\r\ngrpc-message: OK\r\n";
    frame.push(0x80);
    frame.extend_from_slice(&(trailer.len() as u32).to_be_bytes());
    frame.extend_from_slice(trailer);

    let (data_bytes, status, message) = parse_grpc_web_response(&frame).unwrap();
    assert_eq!(data_bytes, b"hello");
    assert_eq!(status, 0);
    assert_eq!(message, "OK");
}

#[test]
fn test_parse_error_response() {
    let trailer = b"grpc-status: 13\r\ngrpc-message: internal error\r\n";
    let mut frame = Vec::new();
    frame.push(0x80);
    frame.extend_from_slice(&(trailer.len() as u32).to_be_bytes());
    frame.extend_from_slice(trailer);

    let (data_bytes, status, message) = parse_grpc_web_response(&frame).unwrap();
    assert!(data_bytes.is_empty());
    assert_eq!(status, 13);
    assert_eq!(message, "internal error");
}

#[test]
fn encode_prefixes_flag_and_big_endian_length() {
    assert_eq!(encode_grpc_web_frame(b"abc"), vec![0, 0, 0, 0, 3, b'a', b'b', b'c']);
    assert_eq!(encode_grpc_web_frame(b""), vec![0, 0, 0, 0, 0]);
    let big = vec![7u8; 300];
    let f = encode_grpc_web_frame(&big);
    assert_eq!(&f[..5], &[0, 0, 0, 1, 44]);
    assert_eq!(f.len(), 305);
}

#[test]
fn encoded_frame_parses_back() {
    let body = encode_grpc_web_frame(b"payload");
    let (data, status, message) = parse_grpc_web_response(&body).unwrap();
    assert_eq!(data, b"payload");
    assert_eq!(status, 0);
    assert_eq!(message, "");
}

#[test]
fn truncated_frame_is_an_error() {
    let mut body = framed(0, b"abcdef");
    body.truncate(8);
    assert_eq!(
        parse_grpc_web_response(&body),
        Err("Frame truncated: need 6 bytes at offset 5, have 3".to_string())
    );
}

#[test]
fn short_tail_is_ignored_and_empty_body_is_ok() {
    assert_eq!(parse_grpc_web_response(&[]), Ok((vec![], 0, String::new())));
    let mut body = framed(0, b"x");
    body.extend_from_slice(&[0x80, 0, 0]);
    assert_eq!(parse_grpc_web_response(&body), Ok((b"x".to_vec(), 0, String::new())));
}

#[test]
fn last_data_frame_wins_and_bad_status_reads_as_two() {
    let mut body = framed(0, b"first");
    body.extend(framed(0, b"second"));
    body.extend(framed(0x80, b"grpc-status: oops\r\n"));
    let (data, status, _) = parse_grpc_web_response(&body).unwrap();
    assert_eq!(data, b"second");
    assert_eq!(status, 2);
}

#[test]
fn trailer_lines_without_carriage_return() {
    let body = framed(0x80, b"grpc-status:5\ngrpc-message:  not found  \nother: x");
    assert_eq!(parse_grpc_web_response(&body), Ok((vec![], 5, "not found".to_string())));
}

#[test]
fn invalid_utf8_in_trailer_is_replaced() {
    let body = framed(0x80, b"grpc-message: bad \xff byte\r\n");
    let (_, _, message) = parse_grpc_web_response(&body).unwrap();
    assert_eq!(message, "bad \u{fffd} byte");
}

#[test]
fn url_drops_trailing_slashes_of_the_base() {
    assert_eq!(grpc_web_url("https://api.example.com//", "/svc/Method"), "https://api.example.com/svc/Method");
    assert_eq!(grpc_web_url("https://api.example.com", "/svc/Method"), "https://api.example.com/svc/Method");
    assert_eq!(grpc_web_url("", "/a"), "/a");
}

#[test]
fn outcome_reports_status_errors() {
    let mut body = framed(0, b"ok");
    body.extend(framed(0x80, b"grpc-status: 0\r\n"));
    assert_eq!(grpc_web_outcome(&body), Ok(b"ok".to_vec()));

    let body = framed(0x80, b"grpc-status: 7\r\ngrpc-message: denied\r\n");
    assert_eq!(grpc_web_outcome(&body), Err("gRPC error (status=7): denied".to_string()));

    let body = framed(0x80, b"grpc-status: -3\r\n");
    assert_eq!(grpc_web_outcome(&body), Err("gRPC error (status=-3): ".to_string()));

    let body = vec![0, 0, 0, 0, 9, 1];
    assert_eq!(
        grpc_web_outcome(&body),
        Err("Frame truncated: need 9 bytes at offset 5, have 1".to_string())
    );
}
