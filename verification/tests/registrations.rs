use axum::http::{HeaderMap, HeaderValue};
use scr_axum_cranker_router::config::CrankerRouterConfig;
use scr_axum_cranker_router::ip_validator::IPValidator;
use scr_axum_cranker_router::net::{HttpVersion, IpAddr};
use scr_axum_cranker_router::registration::{
    de_reg_check, de_reg_decide, extract_cranker_version, failed_at_ip_validation, health_root,
    is_version_readable, judge_has_body_from_header_http_1, reg_check, reg_check_and_extract,
    request_has_body, Deregistration, Registration,
};
use std::sync::Arc;

fn headers(pairs: &[(&'static str, &'static str)]) -> HeaderMap {
    let mut m = HeaderMap::new();
    for (k, v) in pairs {
        m.append(*k, HeaderValue::from_static(v));
    }
    m
}

#[test]
fn sub_protocol_is_negotiated() {
    let c = CrankerRouterConfig::new();
    let v = &c.settings.supported_cranker_protocols;
    let h = headers(&[("sec-websocket-protocol", "cranker_9.0, cranker_3.0, cranker_1.0")]);
    assert_eq!(extract_cranker_version(v, &h).unwrap(), "cranker_3.0");
    let h = headers(&[("sec-websocket-protocol", " 1.0 ")]);
    assert_eq!(extract_cranker_version(v, &h).unwrap(), "cranker_1.0");
    let h = headers(&[("sec-websocket-protocol", "x"), ("crankerprotocol", "1.0")]);
    assert_eq!(extract_cranker_version(v, &h).unwrap(), "cranker_1.0");
    let h = headers(&[("crankerprotocol", "3.0")]);
    assert_eq!(extract_cranker_version(v, &h).unwrap(), "cranker_3.0");
}

#[test]
fn missing_and_unknown_versions_are_refused() {
    let c = CrankerRouterConfig::new();
    let v = &c.settings.supported_cranker_protocols;
    let e = extract_cranker_version(v, &headers(&[])).err().unwrap();
    assert_eq!(
        e.reason,
        "Version is null. Please set header Sec-WebSocket-Protocol for cranker protocol negotiation"
    );
    assert_eq!(e.opt_err_kind.unwrap().as_str(), "CrankerProtocolVersionNotFound_0003");
    let h = headers(&[("sec-websocket-protocol", "cranker_\"9.0")]);
    let e = extract_cranker_version(v, &h).err().unwrap();
    assert_eq!(
        e.reason,
        "Cranker version not supported! sub protocols = Some(\"cranker_\\\"9.0\"), legacy protocols = None"
    );
    assert_eq!(e.opt_err_kind.unwrap().as_str(), "CrankerProtocolVersionNotSupported_0004");
    let h = headers(&[("crankerprotocol", "cranker_3.0")]);
    assert!(extract_cranker_version(v, &h).is_err());
}

#[test]
fn unreadable_versions_are_found_out() {
    let c = CrankerRouterConfig::new();
    let v = &c.settings.supported_cranker_protocols;
    let mut h = HeaderMap::new();
    h.insert("sec-websocket-protocol", HeaderValue::from_bytes(b"\xff").unwrap());
    assert!(!is_version_readable(v, &h));
    let mut h =
        headers(&[("sec-websocket-protocol", "3.0"), ("route", "a"), ("domain", "b")]);
    h.insert("crankerprotocol", HeaderValue::from_bytes(b"\xff").unwrap());
    assert!(is_version_readable(v, &h));
    let r = reg_check(v, "GET", &h, "c".to_string(), None, "1.2.3.4", true);
    assert!(matches!(r, Registration::Accepted(_)));
    let mut h = headers(&[("sec-websocket-protocol", "9.0")]);
    h.insert("crankerprotocol", HeaderValue::from_bytes(b"\xff").unwrap());
    let r = reg_check(v, "GET", &h, "c".to_string(), None, "1.2.3.4", true);
    assert!(matches!(r, Registration::Unreadable));
}

#[test]
fn registration_is_accepted() {
    let c = CrankerRouterConfig::new();
    let h = headers(&[
        ("route", "my-service"),
        ("domain", "a.b"),
        ("sec-websocket-protocol", "cranker_3.0"),
    ]);
    match reg_check_and_extract(
        &c,
        "GET",
        &h,
        Some("connector-1".to_string()),
        Some("component".to_string()),
        IpAddr::V4(1),
        "0.0.0.1",
    ) {
        Registration::Accepted(info) => {
            assert_eq!(info.connector_id, "connector-1");
            assert_eq!(info.route, "my-service");
            assert_eq!(info.domain, "a.b");
            assert_eq!(info.component_name, "component");
            assert_eq!(info.negotiated_cranker_version, "cranker_3.0");
        }
        other => panic!("{:?}", other),
    }
}

#[test]
fn registration_gets_defaults() {
    let c = CrankerRouterConfig::new();
    let h = headers(&[
        ("sec-websocket-protocol", "cranker_1.0"),
        ("route", "my-service"),
        ("domain", "*"),
    ]);
    match reg_check_and_extract(&c, "GET", &h, None, None, IpAddr::V4(1), "0.0.0.1") {
        Registration::Accepted(info) => {
            assert_eq!(info.connector_id.len(), 36);
            assert_eq!(info.route, "my-service");
            assert_eq!(info.domain, "*");
            assert_eq!(info.component_name, format!("unknown-{}", &info.connector_id[0..5]));
        }
        other => panic!("{:?}", other),
    }
    let v = &c.settings.supported_cranker_protocols;
    match reg_check(v, "GET", &h, "abc".to_string(), None, "0.0.0.1", true) {
        Registration::Accepted(info) => assert_eq!(info.component_name, "unknown-abc"),
        other => panic!("{:?}", other),
    }
}

#[test]
fn registration_without_route_or_domain_is_refused() {
    let c = CrankerRouterConfig::new();
    let version = ("sec-websocket-protocol", "cranker_3.0");
    let mut unreadable = headers(&[version, ("domain", "a.b")]);
    unreadable.insert("route", HeaderValue::from_bytes(b"\xff").unwrap());
    for h in [
        headers(&[version]),
        headers(&[version, ("route", "my-service")]),
        headers(&[version, ("domain", "a.b")]),
        unreadable,
    ] {
        match reg_check_and_extract(&c, "GET", &h, None, None, IpAddr::V4(1), "0.0.0.1") {
            Registration::Refused(p) => assert_eq!(
                (p.status, p.body.as_str()),
                (400, "Route and Domain are mandatory.")
            ),
            other => panic!("{:?}", other),
        }
    }
}

struct RefuseAll;

impl IPValidator for RefuseAll {
    fn allow(&self, _ip: IpAddr) -> bool {
        false
    }
}

#[test]
fn registration_is_refused() {
    let c = CrankerRouterConfig::new();
    let h = headers(&[]);
    match reg_check_and_extract(&c, "TRACE", &h, None, None, IpAddr::V4(1), "0.0.0.1") {
        Registration::Refused(p) => {
            assert_eq!((p.status, p.body.as_str()), (405, "Method not allowed."))
        }
        other => panic!("{:?}", other),
    }
    match reg_check_and_extract(&c, "GET", &h, None, None, IpAddr::V4(1), "0.0.0.1") {
        Registration::Refused(p) => assert_eq!(
            (p.status, p.body.as_str()),
            (
                400,
                "Failed to negotiate cranker version: Cranker router exception: Version is null. Please set header Sec-WebSocket-Protocol for cranker protocol negotiation"
            )
        ),
        other => panic!("{:?}", other),
    }
    let c = c.with_registration_ip_validator(Arc::new(RefuseAll));
    match reg_check_and_extract(
        &c,
        "GET",
        &h,
        Some("c1".to_string()),
        None,
        IpAddr::V4(1),
        "0.0.0.1",
    ) {
        Registration::Refused(p) => {
            assert_eq!(p.status, 403);
            assert_eq!(p.body, failed_at_ip_validation("0.0.0.1", "*", "c1").body);
        }
        other => panic!("{:?}", other),
    }
    let h = headers(&[("sec-websocket-protocol", "cranker_3.0"), ("route", "a"), ("domain", "b")]);
    match reg_check_and_extract(&c, "GET", &h, None, None, IpAddr::V4(1), "0.0.0.1") {
        Registration::Refused(p) => assert_eq!(p.status, 403),
        other => panic!("{:?}", other),
    }
    match de_reg_check(&c, &h, Some("c1".to_string()), IpAddr::V4(1), "0.0.0.1") {
        Deregistration::Refused(p) => assert_eq!(p.status, 403),
        other => panic!("{:?}", other),
    }
}

#[test]
fn deregistration() {
    let c = CrankerRouterConfig::new();
    let h = headers(&[("route", "my-service")]);
    match de_reg_check(&c, &h, Some("c1".to_string()), IpAddr::V4(1), "0.0.0.1") {
        Deregistration::Deregister { route, connector_id } => {
            assert_eq!((route.as_str(), connector_id.as_str()), ("my-service", "c1"))
        }
        other => panic!("{:?}", other),
    }
    let r = de_reg_check(&c, &h, None, IpAddr::V4(1), "0.0.0.1");
    assert!(matches!(r, Deregistration::Unsupported));
    match de_reg_decide(&h, None, "0.0.0.1", false) {
        Deregistration::Refused(p) => {
            assert_eq!(p.status, 403);
            assert_eq!(p.body, "Fail to establish websocket connection to cranker connector because of not supported ip address=0.0.0.1. Route=my-service. Connector Id=N/A");
        }
        other => panic!("{:?}", other),
    }
}

#[test]
fn health() {
    let p = health_root();
    assert_eq!((p.status, p.body.as_str()), (200, "{\"isAvailable\":true}"));
}

#[test]
fn whether_a_request_has_a_body() {
    for (h, has_body) in [
        (headers(&[]), false),
        (headers(&[("content-length", "0")]), false),
        (headers(&[("content-length", "-5")]), false),
        (headers(&[("content-length", "+5")]), true),
        (headers(&[("content-length", "12")]), true),
        (headers(&[("content-length", "x")]), false),
        (headers(&[("content-length", "99999999999999999999")]), false),
        (headers(&[("content-length", "x"), ("transfer-encoding", "chunked")]), true),
        (headers(&[("content-length", "0"), ("transfer-encoding", "chunked")]), false),
        (headers(&[("transfer-encoding", "chunked")]), true),
    ] {
        assert_eq!(judge_has_body_from_header_http_1(&h), has_body);
        assert_eq!(request_has_body(HttpVersion::Http11, &h, true), has_body);
        assert_eq!(request_has_body(HttpVersion::Http10, &h, true), has_body);
        assert_eq!(request_has_body(HttpVersion::Http09, &h, false), has_body);
    }
    let h = headers(&[("content-length", "12")]);
    assert!(!request_has_body(HttpVersion::Http2, &h, true));
    assert!(request_has_body(HttpVersion::Http2, &headers(&[]), false));
    assert!(!request_has_body(HttpVersion::Http3, &h, true));
}
