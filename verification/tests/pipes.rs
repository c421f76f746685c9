use bytes::Bytes;
use scr_axum_cranker_router::exceptions::CrankerRouterException;
use scr_axum_cranker_router::net::{IpAddr, RequestUri, SocketAddr};
use scr_axum_cranker_router::router_socket::{
    create_request_line, harvest_router_socket, is_put_back, is_reason_cuttable,
    pipe_and_queue_the_wss_send_task_and_handle_err_chan,
    pipe_underlying_wss_recv_and_send_err_to_err_chan_if_necessary, CloseFrame, Harvest,
    RecvAction, RecvEvent, SendAction, SendEvent, WsMessage,
};

fn ex(reason: &str) -> CrankerRouterException {
    CrankerRouterException::new(reason.to_string())
}

#[test]
fn messages_have_names() {
    let all = [
        (WsMessage::Text(String::new()), "txt"),
        (WsMessage::Binary(Bytes::new()), "bin"),
        (WsMessage::Ping(Bytes::new()), "ping"),
        (WsMessage::Pong(Bytes::new()), "pong"),
        (WsMessage::Close(None), "close"),
    ];
    for (m, name) in all {
        assert_eq!(m.identifier(), name);
        assert!(m.err_msg_for_uwss().contains(name));
    }
}

#[test]
fn request_line() {
    let mut uri = RequestUri {
        scheme: None,
        host: None,
        path: "/a".to_string(),
        path_and_query: Some("/a?b=c".to_string()),
    };
    assert_eq!(create_request_line("GET", &uri), "GET /a?b=c HTTP/1.1");
    uri.path_and_query = None;
    assert_eq!(create_request_line("GET", &uri), "GET  HTTP/1.1");
}

#[test]
fn version_decides_on_the_socket() {
    let harvest = |version: &'static str| {
        harvest_router_socket(
            "c".to_string(),
            "n".to_string(),
            version,
            "a.b".to_string(),
            "r".to_string(),
            SocketAddr { ip: IpAddr::V4(1), port: 2 },
        )
    };
    match harvest("cranker_1.0") {
        Harvest::V1(s) => {
            assert_eq!((s.connector_id.as_str(), s.component_name.as_str()), ("c", "n"));
            assert_eq!((s.route.as_str(), s.domain.as_str()), ("r", "*"));
            assert_eq!(s.router_socket_id.len(), 36);
            assert_eq!(s.service_address.port, 2);
        }
        other => panic!("{:?}", other),
    }
    match harvest("cranker_3.0") {
        Harvest::V3(s) => assert_eq!((s.domain.as_str(), s.cranker_version), ("a.b", "cranker_3.0")),
        other => panic!("{:?}", other),
    }
    assert!(matches!(harvest("1.0"), Harvest::Close));
    assert!(is_put_back("cranker_3.0"));
    assert!(!is_put_back("cranker_1.0"));
}

#[test]
fn receiving() {
    let step = pipe_underlying_wss_recv_and_send_err_to_err_chan_if_necessary;
    match step(RecvEvent::Received(WsMessage::Text("a".to_string())), false) {
        RecvAction::Handle(WsMessage::Text(t)) => assert_eq!(t, "a"),
        other => panic!("{:?}", other),
    }
    assert!(matches!(step(RecvEvent::Handled(Ok(())), false), RecvAction::Next(None)));
    match step(RecvEvent::Handled(Err(ex("a"))), false) {
        RecvAction::Next(Some(e)) => assert_eq!(e.reason, "a"),
        other => panic!("{:?}", other),
    }
    match step(RecvEvent::Failed("broken".to_string()), false) {
        RecvAction::Stop(errors) => {
            assert_eq!(errors.len(), 2);
            assert_eq!(errors[0].reason, "underlying wss recv err: broken.");
            assert_eq!(
                errors[1].reason,
                "underlying wss already closed but still is_removed = false"
            );
        }
        other => panic!("{:?}", other),
    }
    match step(RecvEvent::Failed("broken".to_string()), true) {
        RecvAction::Stop(errors) => assert_eq!(errors.len(), 1),
        other => panic!("{:?}", other),
    }
    match step(RecvEvent::Ended, true) {
        RecvAction::Stop(errors) => assert!(errors.is_empty()),
        other => panic!("{:?}", other),
    }
    match step(RecvEvent::IdleTimeout, false) {
        RecvAction::SendThenReport(WsMessage::Close(Some(f)), e) => {
            assert_eq!((f.code, f.reason.as_str()), (1001, "timeout"));
            assert_eq!(e.reason, "uwss read idle timeout");
            assert_eq!(e.opt_err_kind.unwrap().as_str(), "Timeout_0001");
        }
        other => panic!("{:?}", other),
    }
}

#[test]
fn error_ends_sending() {
    let step = pipe_and_queue_the_wss_send_task_and_handle_err_chan;
    let long = "a".repeat(101);
    let out = step(SendEvent::Error(ex(&long)), false);
    assert_eq!(out.len(), 4);
    assert!(matches!(&out[0], SendAction::ProvideError(e) if e.reason == long));
    assert!(matches!(&out[1], SendAction::CloseTasks));
    assert!(matches!(&out[2], SendAction::Flush));
    match &out[3] {
        SendAction::Send(WsMessage::Close(Some(CloseFrame { code, reason }))) => {
            assert_eq!(*code, 1011);
            assert_eq!(reason, &"a".repeat(100));
        }
        other => panic!("{:?}", other),
    }
    let out = step(SendEvent::Error(ex("short")), true);
    assert_eq!(out.len(), 3);
    assert!(
        matches!(&out[2], SendAction::Send(WsMessage::Close(Some(f))) if f.reason == "short")
    );
    let out = step(SendEvent::CloseSent(ex("a")), false);
    assert!(matches!(
        &out[..],
        [SendAction::RemoveFromFarm, SendAction::Terminate(_), SendAction::Stop]
    ));
    let out = step(SendEvent::CloseSent(ex("a")), true);
    assert!(matches!(&out[..], [SendAction::Terminate(_), SendAction::Stop]));
}

#[test]
fn reason_is_cut_where_a_character_starts() {
    assert!(is_reason_cuttable(&"é".repeat(50)));
    assert!(is_reason_cuttable(&"é".repeat(51)));
    assert!(!is_reason_cuttable(&format!("a{}", "é".repeat(50))));
}

#[test]
fn messages_are_counted_and_sent() {
    let step = pipe_and_queue_the_wss_send_task_and_handle_err_chan;
    let out = step(SendEvent::Task(WsMessage::Text("é".to_string())), false);
    assert!(matches!(
        &out[..],
        [SendAction::CountBytes(2), SendAction::Send(WsMessage::Text(_))]
    ));
    let out = step(SendEvent::Task(WsMessage::Binary(Bytes::from_static(b"abc"))), false);
    assert!(matches!(
        &out[..],
        [SendAction::CountBytes(3), SendAction::Send(WsMessage::Binary(_))]
    ));
    let out = step(SendEvent::Task(WsMessage::Ping(Bytes::new())), false);
    assert!(matches!(&out[..], [SendAction::Send(WsMessage::Ping(_))]));
    assert!(matches!(&step(SendEvent::TasksClosed, false)[..], [SendAction::Stop]));
}

#[test]
fn failure_to_send_is_reported() {
    let step = pipe_and_queue_the_wss_send_task_and_handle_err_chan;
    let failed = |message: WsMessage| SendEvent::SendFailed { message, shown: "x".to_string() };
    let m = WsMessage::Text("a".to_string());
    let want = format!("{} : x", m.err_msg_for_uwss());
    match &step(failed(m), true)[..] {
        [SendAction::Report(e)] => assert_eq!(e.reason, want),
        other => panic!("{:?}", other),
    }
    assert!(matches!(
        &step(failed(WsMessage::Ping(Bytes::new())), true)[..],
        [SendAction::CloseConnection, SendAction::Stop]
    ));
    assert!(matches!(
        &step(failed(WsMessage::Pong(Bytes::new())), false)[..],
        [SendAction::Report(_)]
    ));
}

#[test]
fn silence_is_broken_by_a_ping() {
    let step = pipe_and_queue_the_wss_send_task_and_handle_err_chan;
    match &step(SendEvent::NoWrite { socket_exists: true }, false)[..] {
        [SendAction::Enqueue(WsMessage::Ping(b))] => assert_eq!(b.to_vec(), b"ping".to_vec()),
        other => panic!("{:?}", other),
    }
    assert!(matches!(
        &step(SendEvent::NoWrite { socket_exists: false }, false)[..],
        [SendAction::StopPinging]
    ));
}
