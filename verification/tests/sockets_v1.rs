use axum::http::{HeaderMap, HeaderValue};
use bytes::Bytes;
use scr_axum_cranker_router::exceptions::CrankerRouterException;
use scr_axum_cranker_router::net::{IpAddr, RequestUri, SocketAddr};
use scr_axum_cranker_router::router_socket::{CloseFrame, RouterSocketInfo, WsMessage};
use scr_axum_cranker_router::router_socket_v1::{
    build_start_message, close_result, RouterSocketV1, V1Effect,
};

fn socket() -> RouterSocketV1 {
    RouterSocketV1::new(
        RouterSocketInfo {
            router_socket_id: "id".to_string(),
            route: "my-service".to_string(),
            component_name: "n".to_string(),
            connector_id: "c".to_string(),
            domain: "*".to_string(),
            service_address: SocketAddr { ip: IpAddr::V4(1), port: 2 },
            cranker_version: "cranker_1.0",
        },
        &vec![],
        1000,
    )
}

fn serving() -> RouterSocketV1 {
    let mut s = socket();
    s.open_request(false, 1500).unwrap();
    assert!(s.send_header("GET / HTTP/1.1\n\n\n_2".to_string()).result.is_ok());
    s
}

fn reason(r: Result<(), CrankerRouterException>) -> String {
    r.err().unwrap().reason
}

#[test]
fn request_is_opened_once_the_socket_is_there() {
    let mut s = socket();
    assert_eq!(
        reason(s.open_request(true, 1500)),
        "try to handle cli req in a is_removed router socket. router_socket_id=id"
    );
    s.open_request(false, 1500).unwrap();
    assert_eq!(s.proxy_info().socket_wait_in_millis, 500);
    assert_eq!(s.inflight_count(), -1);
}

#[test]
fn target_may_not_answer_before_the_request() {
    let mut s = socket();
    assert_eq!(reason(s.on_text("HTTP/1.1 200 OK".to_string()).result), "recv txt before handle cli req.");
    assert_eq!(reason(s.on_binary(Bytes::from_static(b"a")).result), "recv bin before handle cli req.");
}

#[test]
fn response_comes_in_order() {
    let mut s = serving();
    assert_eq!(
        reason(s.on_binary(Bytes::from_static(b"a")).result),
        "res header not handle yet but comes binary first"
    );
    let out = s.on_text("HTTP/1.1 200 OK".to_string());
    assert!(out.result.is_ok());
    assert!(matches!(&out.effects[..], [V1Effect::HeaderText(t), V1Effect::CloseHeader] if t == "HTTP/1.1 200 OK"));
    let out = s.on_binary(Bytes::from_static(b"abc"));
    assert!(matches!(&out.effects[..], [V1Effect::Body(b)] if b.to_vec() == b"abc".to_vec()));
    assert_eq!(reason(s.on_text("HTTP/1.1 200 OK".to_string()).result), "res header already handled!");
    let info = s.proxy_info();
    assert_eq!(info.bytes_sent, 15 + 3);
    assert_eq!(info.response_body_frames, 2);
}

#[test]
fn header_that_is_too_large_is_refused() {
    let mut s = serving();
    assert_eq!(
        reason(s.on_text("a".repeat(65537)).result),
        "response header too large: over 64 * 1024 bytes."
    );
    let mut s = serving();
    assert!(s.on_text("a".repeat(65536)).result.is_ok());
}

#[test]
fn close_after_a_response_ends_it() {
    let mut s = serving();
    s.inc_bytes_received_from_cli(10);
    assert!(s.on_text("HTTP/1.1 200 OK".to_string()).result.is_ok());
    let out = s.on_close(Some(CloseFrame { code: 1000, reason: "done".to_string() }), true, 1600);
    assert!(out.result.is_ok());
    match &out.effects[..] {
        [V1Effect::Send(WsMessage::Close(Some(f))), V1Effect::BodyReceived(_), V1Effect::CloseHeader, V1Effect::CloseBody, V1Effect::RemoveFromFarm, V1Effect::Completed(info)] =>
        {
            assert_eq!(f.reason, "done");
            assert_eq!(info.duration_millis, 100);
            assert_eq!(info.bytes_received, 10);
        }
        _ => panic!(),
    }
    assert_eq!(
        reason(s.on_binary(Bytes::from_static(b"a")).result),
        "failed to send binary to cli res chan: SendError(..)"
    );
    assert!(s.on_client_gone(true, 1700).effects.is_empty());
}

#[test]
fn connector_that_turns_a_request_down() {
    for (code, status) in [(1011, 502), (1008, 400)] {
        let mut s = serving();
        let out = s.on_close(Some(CloseFrame { code, reason: "x".to_string() }), false, 1600);
        let errors: Vec<&CrankerRouterException> = out
            .effects
            .iter()
            .filter_map(|e| if let V1Effect::ReportError(e) = e { Some(e) } else { None })
            .collect();
        assert_eq!(errors.len(), 2);
        assert_eq!(errors[0].opt_status_code, Some(status));
        assert_eq!(
            errors[1].reason,
            format!("upstream server error: ws code={}, reason=x", code)
        );
    }
    let mut s = serving();
    let out = s.on_close(None, false, 1600);
    assert!(out.effects.iter().any(
        |e| matches!(e, V1Effect::ReportError(e) if e.reason == "upstream server error: ws code=4000, reason=")
    ));
}

#[test]
fn client_that_goes_early_is_an_error() {
    let mut s = serving();
    let out = s.on_client_gone(false, 1600);
    match &out.effects[..] {
        [V1Effect::ReportError(e), V1Effect::RemoveFromFarm] => {
            assert_eq!(e.reason, "connection to client closed unexpectedly");
            assert_eq!(e.opt_err_kind.unwrap().as_str(), "BrokenConnection_0011");
        }
        _ => panic!(),
    }
    s.close_err_chan();
    assert_eq!(
        reason(s.on_error(CrankerRouterException::new("a".to_string()), true, 1600).result),
        "rare ex that failed to send error to err chan: SendError(..)"
    );
}

#[test]
fn messages_go_to_the_connector_while_they_are_taken() {
    let mut s = serving();
    let out = s.send_body_chunk(Bytes::from_static(b"a"));
    assert!(matches!(&out.effects[..], [V1Effect::Send(WsMessage::Binary(_))]));
    let out = s.send_body_end();
    assert!(matches!(&out.effects[..], [V1Effect::Send(WsMessage::Text(t))] if t == "_3"));
    let out = s.on_ping(Bytes::from_static(b"hi"), false, 1600);
    assert!(
        matches!(&out.effects[..], [V1Effect::Send(WsMessage::Pong(b))] if b.to_vec() == b"hi".to_vec())
    );
    s.close_uplink();
    assert_eq!(
        reason(s.send_body_chunk(Bytes::new()).result),
        "error when sending req body to tgt: SendError(..)"
    );
    assert_eq!(
        reason(s.send_body_end().result),
        "failed to send end of body end marker to tgt: SendError(..)"
    );
    assert_eq!(
        reason(s.send_ws_msg_to_uwss(WsMessage::Text("a".to_string())).result),
        "failed to send ws msg to wss_send_task_tx: SendError(..)"
    );
    assert_eq!(
        reason(s.send_header("a".to_string()).result),
        "failed to send cli req hdr to tgt: SendError(..)"
    );
    let out = s.on_ping(Bytes::from_static(b"hi"), false, 1600);
    assert!(out.effects.iter().any(|e| matches!(e, V1Effect::ReportError(_))));
}

#[test]
fn termination_fails_the_response() {
    let mut s = serving();
    s.try_provide_general_error(Some(CrankerRouterException::new("kept".to_string())));
    assert_eq!(s.proxy_info().error.unwrap().reason, "kept");
    let out = s.terminate_all_conn(None);
    match &out[..] {
        [V1Effect::HeaderError(e), V1Effect::BodyError(_), V1Effect::CloseHeader, V1Effect::CloseBody] => {
            assert_eq!(e.reason, "ex occurs and should terminate all conn.")
        }
        _ => panic!(),
    }
    assert!(matches!(
        &s.terminate_all_conn(None)[..],
        [V1Effect::CloseHeader, V1Effect::CloseBody]
    ));
}

#[test]
fn completion_is_told_once_there_was_a_request() {
    let mut s = socket();
    assert!(matches!(&s.raise_completion_event(true, 1600)[..], [V1Effect::RemoveFromFarm]));
    let mut s = serving();
    assert!(matches!(&s.raise_completion_event(false, 1600)[..], [V1Effect::RemoveFromFarm]));
    assert!(matches!(
        &s.raise_completion_event(true, 1600)[..],
        [V1Effect::RemoveFromFarm, V1Effect::Completed(_)]
    ));
}

#[test]
fn results_of_a_close() {
    let e = |s: &str| Err(CrankerRouterException::new(s.to_string()));
    assert!(close_result(Ok(()), Ok(())).is_ok());
    assert_eq!(reason(close_result(e("a"), Ok(()))), "a");
    assert_eq!(reason(close_result(Ok(()), e("b"))), "b");
    assert_eq!(reason(close_result(e("a"), e("b"))), "ab");
}

#[test]
fn start_message() {
    let uri = RequestUri {
        scheme: None,
        host: None,
        path: "/a".to_string(),
        path_and_query: Some("/a?b".to_string()),
    };
    let mut h = HeaderMap::new();
    h.insert("host", HeaderValue::from_static("x"));
    assert_eq!(
        build_start_message("GET", &uri, &h, false).unwrap(),
        "GET /a?b HTTP/1.1\nhost:x\n\n\n_2"
    );
    assert_eq!(
        build_start_message("PUT", &uri, &h, true).unwrap(),
        "PUT /a?b HTTP/1.1\nhost:x\n\n\n_1"
    );
}

#[test]
fn listeners_see_the_error_that_ended_a_request() {
    let mut s = serving();
    let out = s.on_error(CrankerRouterException::new("a".to_string()), true, 1600);
    assert!(out.effects.iter().any(
        |e| matches!(e, V1Effect::Completed(i) if i.error.as_ref().unwrap().reason == "a")
    ));
}
