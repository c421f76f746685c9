use axum::http::{HeaderMap, HeaderValue};
use scr_axum_cranker_router::config::{CrankerRouterConfig, RouterSettings};
use scr_axum_cranker_router::http_utils::{
    create_forwarded_header_to_tgt, get_custom_hop_by_hop_headers, get_existing_forwarded_headers,
    get_new_via_value, get_x_forwarded_value, has_room_for_target_headers,
    header_map_get_all_ok_to_string, is_forwarded_readable, set_forwarded_headers,
    set_target_request_headers,
};
use scr_axum_cranker_router::net::{HttpVersion, RequestUri};

fn headers(pairs: &[(&'static str, &'static str)]) -> HeaderMap {
    let mut m = HeaderMap::new();
    for (k, v) in pairs {
        m.append(*k, HeaderValue::from_static(v));
    }
    m
}

fn uri(scheme: Option<&str>) -> RequestUri {
    RequestUri {
        scheme: scheme.map(|s| s.to_string()),
        host: None,
        path: "/a".to_string(),
        path_and_query: Some("/a".to_string()),
    }
}

fn all(m: &HeaderMap, name: &str) -> Vec<String> {
    m.get_all(name).iter().map(|v| v.to_str().unwrap().to_string()).collect()
}

fn sent_on(cli: &HeaderMap, settings: &RouterSettings) -> (HeaderMap, bool) {
    let mut to = HeaderMap::new();
    assert!(is_forwarded_readable(cli));
    assert!(has_room_for_target_headers(cli, &to));
    let has_body = set_target_request_headers(
        cli,
        &mut to,
        settings,
        HttpVersion::Http11,
        "10.0.0.1",
        "10.0.0.2",
        &uri(Some("http")),
    );
    (to, has_body)
}

#[test]
fn headers_are_sent_on_but_for_some() {
    let cli = headers(&[
        ("host", "a.b"),
        ("accept", "x"),
        ("accept", "y"),
        ("connection", "close, x-mine"),
        ("x-mine", "1"),
        ("te", "trailers"),
        ("expect", "100-continue"),
        ("content-length", "3"),
    ]);
    let (to, has_body) = sent_on(&cli, &CrankerRouterConfig::new().settings);
    assert!(has_body);
    assert_eq!(all(&to, "host"), vec!["a.b"]);
    assert_eq!(all(&to, "accept"), vec!["y"]);
    for name in ["connection", "x-mine", "te", "expect"] {
        assert!(to.get(name).is_none());
    }
    assert_eq!(all(&to, "via"), vec!["HTTP/1.1 scr-axum"]);
    assert_eq!(all(&to, "forwarded"), vec!["by=10.0.0.1;for=10.0.0.2;host=a.b;proto=http"]);
    assert!(to.get("x-forwarded-for").is_none());
}

#[test]
fn host_is_held_back_on_demand() {
    let cli = headers(&[("host", "a.b")]);
    let c = CrankerRouterConfig::new().should_proxy_host_header(false);
    let (to, has_body) = sent_on(&cli, &c.settings);
    assert!(!has_body);
    assert!(to.get("host").is_none());
}

#[test]
fn via_ends_with_this_server() {
    let cli = headers(&[("via", "1.0 a"), ("via", "1.1 b")]);
    let c = CrankerRouterConfig::new().with_via_name("me".to_string());
    let (to, _) = sent_on(&cli, &c.settings);
    assert_eq!(all(&to, "via"), vec!["1.0 a, 1.1 b, HTTP/1.1 me"]);
    assert_eq!(get_new_via_value("x".to_string(), vec![]), "x");
}

#[test]
fn forwarded_headers_are_kept_or_discarded() {
    let cli = headers(&[("forwarded", "for=1.1.1.1, for=2.2.2.2"), ("host", "a.b")]);
    let c = CrankerRouterConfig::new();
    let (to, _) = sent_on(&cli, &c.settings);
    assert_eq!(
        all(&to, "forwarded"),
        vec!["for=1.1.1.1", "for=2.2.2.2", "by=10.0.0.1;for=10.0.0.2;host=a.b;proto=http"]
    );
    let c = c.with_discard_client_forwarded_headers(true);
    let (to, _) = sent_on(&cli, &c.settings);
    assert_eq!(all(&to, "forwarded"), vec!["by=10.0.0.1;for=10.0.0.2;host=a.b;proto=http"]);
}

#[test]
fn legacy_headers_are_sent_on_demand() {
    let cli = headers(&[("forwarded", "for=1.1.1.1;host=x;proto=https"), ("host", "a.b")]);
    let c = CrankerRouterConfig::new().with_send_legacy_forwarded_headers(true);
    let (to, _) = sent_on(&cli, &c.settings);
    assert_eq!(all(&to, "x-forwarded-for"), vec!["1.1.1.1"]);
    assert_eq!(all(&to, "x-forwarded-host"), vec!["x"]);
    assert_eq!(all(&to, "x-forwarded-proto"), vec!["https"]);
    let (to, _) = sent_on(&headers(&[("host", "a.b")]), &c.settings);
    assert_eq!(all(&to, "x-forwarded-for"), vec!["10.0.0.2"]);
    assert_eq!(all(&to, "x-forwarded-host"), vec!["a.b"]);
}

#[test]
fn forwarded_header_that_cannot_be_read_is_an_error() {
    let cli = headers(&[("forwarded", "x")]);
    let mut to = HeaderMap::new();
    let e = set_forwarded_headers(&cli, &mut to, false, false, "s", "c", None).err().unwrap();
    assert_eq!(e.reason, "Unexpected ending point at state ParamName for x");
    assert!(to.is_empty());
    assert!(set_forwarded_headers(&cli, &mut to, true, false, "s", "c", None).is_ok());
    assert_eq!(all(&to, "forwarded"), vec!["by=s;for=c"]);
}

#[test]
fn legacy_headers_are_read() {
    let h = headers(&[
        ("x-forwarded-for", "1.1.1.1, 2.2.2.2"),
        ("x-forwarded-proto", "http"),
        ("x-forwarded-proto", "HTTPS"),
        ("x-forwarded-port", "81, 443"),
        ("host", "a.b:123"),
    ]);
    let v = get_existing_forwarded_headers(&h).unwrap();
    assert_eq!(v.len(), 2);
    assert_eq!(v[0].to_string(), "for=1.1.1.1;host=a.b;proto=http");
    assert_eq!(v[1].to_string(), "for=2.2.2.2;host=\"a.b:123\";proto=HTTPS");
    let h = headers(&[("x-forwarded-for", "1.1.1.1, 2.2.2.2"), ("x-forwarded-host", "a")]);
    let v = get_existing_forwarded_headers(&h).unwrap();
    assert_eq!(v[1].to_string(), "for=2.2.2.2");
    assert!(get_existing_forwarded_headers(&headers(&[("host", "a")])).unwrap().is_empty());
}

#[test]
fn host_with_a_bad_port_is_refused() {
    let h = headers(&[("x-forwarded-host", "a.b"), ("x-forwarded-port", "81")]);
    assert!(is_forwarded_readable(&h));
    let e = get_existing_forwarded_headers(&h).err().unwrap();
    assert_eq!(e.reason, "Failed to parse port");
    let h = headers(&[("x-forwarded-host", "123"), ("x-forwarded-port", "81")]);
    assert!(!is_forwarded_readable(&h));
    let h = headers(&[("x-forwarded-host", ""), ("x-forwarded-port", "81")]);
    assert!(!is_forwarded_readable(&h));
}

#[test]
fn lists_in_headers() {
    let mut h = headers(&[("a", "1, 2"), ("a", ""), ("a", "3")]);
    h.append("a", HeaderValue::from_bytes(b"\xff").unwrap());
    assert_eq!(header_map_get_all_ok_to_string(&h, "A"), vec!["1, 2", "", "3"]);
    assert_eq!(get_x_forwarded_value(&h, "a"), vec!["1", "2", "", "3"]);
    let v = HeaderValue::from_static("close , X-Mine");
    assert_eq!(get_custom_hop_by_hop_headers(Some(&v)), vec!["close", "X-Mine"]);
    assert!(get_custom_hop_by_hop_headers(None).is_empty());
    assert!(get_custom_hop_by_hop_headers(Some(&HeaderValue::from_static(""))).is_empty());
}

#[test]
fn new_forwarded_header() {
    let h = create_forwarded_header_to_tgt(&headers(&[]), "1.1.1.1", "2.2.2.2", None);
    assert_eq!(h.to_string(), "by=1.1.1.1;for=2.2.2.2");
}

#[test]
fn http_versions() {
    for (v, name) in [
        (HttpVersion::Http09, "HTTP/0.9"),
        (HttpVersion::Http10, "HTTP/1.0"),
        (HttpVersion::Http11, "HTTP/1.1"),
        (HttpVersion::Http2, "HTTP/2.0"),
        (HttpVersion::Http3, "HTTP/3.0"),
    ] {
        assert_eq!(v.as_str(), name);
    }
    assert_eq!(format!("{:?}", axum::http::Version::HTTP_2), "HTTP/2.0");
}
