use scr_axum_cranker_router::exceptions::{compose_ex, CrankerRouterException, CrexKind};

fn ex(reason: &str) -> CrankerRouterException {
    CrankerRouterException::new(reason.to_string())
}

#[test]
fn new_error_has_a_reason_only() {
    let e = ex("a");
    assert_eq!(e.reason, "a");
    assert_eq!(e.opt_status_code, None);
    assert_eq!(e.opt_err_kind, None);
    assert_eq!(e.to_string(), "Cranker router exception: a");
}

#[test]
fn texts_go_behind_and_in_front() {
    assert_eq!(ex("a").append_str("b").reason, "ab");
    assert_eq!(ex("a").append_string("b".to_string()).reason, "ab");
    assert_eq!(ex("a").plus_str("b").reason, "ab");
    assert_eq!(ex("a").plus_string("b".to_string()).reason, "ab");
    assert_eq!(ex("a").prepend_str("b").reason, "b a");
    assert_eq!(ex("a").prepend_string("b".to_string()).reason, "b a");
}

#[test]
fn plus_keeps_what_the_first_says() {
    let first = ex("a").with_status_code(503);
    let second = ex("b").with_status_code(404).with_err_kind(CrexKind::Timeout_0001);
    let both = first.plus(second);
    assert_eq!(both.reason, "ab");
    assert_eq!(both.opt_status_code, Some(503));
    assert_eq!(both.opt_err_kind, Some(CrexKind::Timeout_0001));
}

#[test]
fn errors_compose() {
    assert!(compose_ex::<()>(None, Ok(())).is_none());
    assert_eq!(compose_ex::<()>(None, Err(ex("b"))).unwrap().reason, "b");
    assert_eq!(compose_ex(Some(ex("a")), Ok(1)).unwrap().reason, "a");
    assert_eq!(compose_ex::<()>(Some(ex("a")), Err(ex("b"))).unwrap().reason, "ab");
}

#[test]
fn composition_is_associative() {
    let left = compose_ex::<()>(compose_ex::<()>(Some(ex("a")), Err(ex("b"))), Err(ex("c")));
    let right = compose_ex::<()>(
        Some(ex("a")),
        Err(compose_ex::<()>(Some(ex("b")), Err(ex("c"))).unwrap()),
    );
    assert_eq!(left.unwrap().reason, right.unwrap().reason);
}

#[test]
fn response_shows_kind_and_identifier() {
    assert_eq!(
        ex("a").into_response_with_id("42"),
        (500, "a (error id = 42)".to_string())
    );
    assert_eq!(
        ex("a")
            .with_status_code(504)
            .with_err_kind(CrexKind::Timeout_0001)
            .into_response_with_id("42"),
        (504, "a (error kind = Timeout_0001) (error id = 42)".to_string())
    );
}

#[test]
fn response_gets_a_fresh_identifier() {
    let (status, first) = ex("a").with_status_code(404).into_response();
    let (_, second) = ex("a").with_status_code(404).into_response();
    assert_eq!(status, 404);
    assert!(first.starts_with("a (error id = ") && first.ends_with(")"));
    assert_eq!(first.len(), "a (error id = ".len() + 36 + 1);
    assert_ne!(first, second);
}

#[test]
fn kinds_have_names() {
    let kinds = [
        (CrexKind::Timeout_0001, "Timeout_0001"),
        (CrexKind::NoRouterSocketAvailable_0002, "NoRouterSocketAvailable_0002"),
        (CrexKind::CrankerProtocolVersionNotFound_0003, "CrankerProtocolVersionNotFound_0003"),
        (
            CrexKind::CrankerProtocolVersionNotSupported_0004,
            "CrankerProtocolVersionNotSupported_0004",
        ),
        (CrexKind::CrankerProtocolEndMarkerMissing_0005, "CrankerProtocolEndMarkerMissing_0005"),
        (
            CrexKind::CrankerProtocolZeroLengthHeaderLine_0006,
            "CrankerProtocolZeroLengthHeaderLine_0006",
        ),
        (
            CrexKind::CrankerProtocolHttpStatusCodeMissing_0007,
            "CrankerProtocolHttpStatusCodeMissing_0007",
        ),
        (CrexKind::ForwardedHeaderParserError_0008, "ForwardedHeaderParserError_0008"),
        (CrexKind::ProxyListenerError_0009, "ProxyListenerError_0009"),
        (CrexKind::ClientRequestBodyReadError_0010, "ClientRequestBodyReadError_0010"),
        (CrexKind::BrokenConnection_0011, "BrokenConnection_0011"),
    ];
    for (kind, name) in kinds {
        assert_eq!(kind.as_str(), name);
        assert_eq!(format!("{:?}", kind), name);
    }
}
