use axum::http::{HeaderMap, HeaderValue};
use scr_axum_cranker_router::cranker_protocol_request_builder::{
    CrankerProtocolRequestBuilder, EndMarker,
};
use scr_axum_cranker_router::cranker_protocol_response::CrankerProtocolResponse;

fn headers(pairs: &[(&'static str, &'static str)]) -> HeaderMap {
    let mut m = HeaderMap::new();
    for (k, v) in pairs {
        m.append(*k, HeaderValue::from_static(v));
    }
    m
}

#[test]
fn end_markers() {
    assert_eq!(EndMarker::RequestBodyPending.as_str(), "_1");
    assert_eq!(EndMarker::RequestHasNoBody.as_str(), "_2");
    assert_eq!(EndMarker::RequestBodyEnded.as_str(), "_3");
}

#[test]
fn request_with_headers() {
    let h = headers(&[("accept", "text/html"), ("accept", "text/plain"), ("host", "a.b")]);
    let msg = CrankerProtocolRequestBuilder::new()
        .with_request_line("GET / HTTP/1.1".to_string())
        .with_request_headers(&h)
        .with_request_has_no_body()
        .build()
        .unwrap();
    assert_eq!(msg, "GET / HTTP/1.1\naccept:text/html\naccept:text/plain\nhost:a.b\n\n\n_2");
}

#[test]
fn cookies_share_one_line() {
    let h = headers(&[("cookie", "a=1"), ("cookie", "b=2"), ("host", "a.b")]);
    let msg = CrankerProtocolRequestBuilder::new()
        .with_request_line("POST / HTTP/1.1".to_string())
        .with_request_headers(&h)
        .with_request_body_pending()
        .build()
        .unwrap();
    assert_eq!(msg, "POST / HTTP/1.1\nhost:a.b\na=1; b=2\n\n_1");
}

#[test]
fn end_of_body_stands_alone() {
    let msg = CrankerProtocolRequestBuilder::new().with_request_body_ended().build().unwrap();
    assert_eq!(msg, "_3");
}

#[test]
fn request_without_end_marker_is_refused() {
    let e = CrankerProtocolRequestBuilder::new()
        .with_request_line("GET / HTTP/1.1".to_string())
        .build()
        .err()
        .unwrap();
    assert_eq!(e.reason, "failed to build cranker protocol request. end marker missing");
}

#[test]
fn request_without_headers_is_refused() {
    let e = CrankerProtocolRequestBuilder::new()
        .with_request_line("GET / HTTP/1.1".to_string())
        .with_request_has_no_body()
        .build()
        .err()
        .unwrap();
    assert!(e.reason.starts_with(
        "failed to build cranker protocol request. end marker should be RequestBodyEnded"
    ));
}

#[test]
fn response_lines_come_last_first() {
    let r = CrankerProtocolResponse::new("HTTP/1.1 200 OK\na:1\n\nb:2\n".to_string()).unwrap();
    assert_eq!(r.headers, vec!["b:2".to_string(), "a:1".to_string()]);
}

#[test]
fn response_without_status_is_refused() {
    let e = CrankerProtocolResponse::new("HTTP/1.1".to_string()).err().unwrap();
    assert_eq!(
        e.reason,
        "failed to parse status code from target response (HTTP/1.1): no status code found"
    );
}

#[test]
fn response_with_a_bad_status_is_refused() {
    for (status, kind) in [("", "Empty"), ("abc", "InvalidDigit"), ("70000", "PosOverflow")] {
        let e = CrankerProtocolResponse::new(format!("HTTP/1.1 {} x", status)).err().unwrap();
        assert_eq!(
            e.reason,
            format!(
                "failed to parse status code from target response header ({}): ParseIntError {{ kind: {} }}",
                status, kind
            )
        );
        assert_eq!(
            e.reason,
            format!(
                "failed to parse status code from target response header ({}): {:?}",
                status,
                status.parse::<u16>().err().unwrap()
            )
        );
    }
}

#[test]
fn response_head_leaves_out_headers_of_one_connection() {
    let r = CrankerProtocolResponse::new(
        "HTTP/1.1 201 Created\nX-Test: 1 \nServer: s\nConnection: close\nTE: x\nX-Test: 2"
            .to_string(),
    )
    .unwrap();
    let res = r.build().unwrap().body(()).unwrap();
    assert_eq!(res.status().as_u16(), 201);
    assert_eq!(res.headers().len(), 2);
    let all: Vec<&HeaderValue> = res.headers().get_all("x-test").iter().collect();
    assert_eq!(all, vec!["2", "1"]);
    assert!(res.headers().get("server").is_none());
    assert!(res.headers().get("connection").is_none());
}

#[test]
fn response_with_a_line_without_colon_is_refused() {
    let r = CrankerProtocolResponse::new("HTTP/1.1 200 OK\n\"x".to_string()).unwrap();
    assert_eq!(
        r.build().err().unwrap().reason,
        "failed to parse protocol response, header seems corrupted: [\"\\\"x\"]"
    );
}

#[test]
fn response_with_a_bad_name_cannot_be_sent() {
    let r = CrankerProtocolResponse::new("HTTP/1.1 200 OK\nx y:1".to_string()).unwrap();
    assert!(r.build().unwrap().body(()).is_err());
    let r = CrankerProtocolResponse::new("HTTP/1.1 99 OK".to_string()).unwrap();
    assert!(r.build().unwrap().body(()).is_err());
}

#[test]
fn failed_response() {
    let r = CrankerProtocolResponse::default_failed();
    assert_eq!(r.status, 500);
    assert!(r.headers.is_empty());
    r.headers_map();
    assert_eq!(r.build().unwrap().body(()).unwrap().status().as_u16(), 500);
}
