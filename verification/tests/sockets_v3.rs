use bytes::Bytes;
use scr_axum_cranker_router::exceptions::{CrankerRouterException, CrexKind};
use scr_axum_cranker_router::frames::{
    data_messages, header_message, rst_message, window_update_message,
};
use scr_axum_cranker_router::net::{IpAddr, SocketAddr};
use scr_axum_cranker_router::router_socket::{
    ClientRequestIdentifier, CloseFrame, RouterSocketInfo, WsMessage,
};
use scr_axum_cranker_router::router_socket_v3::{RouterSocketV3, V3Effect};

fn socket() -> RouterSocketV3 {
    RouterSocketV3::new(RouterSocketInfo {
        router_socket_id: "id".to_string(),
        route: "my-service".to_string(),
        component_name: "n".to_string(),
        connector_id: "c".to_string(),
        domain: "*".to_string(),
        service_address: SocketAddr { ip: IpAddr::V4(1), port: 2 },
        cranker_version: "cranker_3.0",
    })
}

fn serving() -> RouterSocketV3 {
    let mut s = socket();
    assert_eq!(s.open_request(false, 1000).ok(), Some(1));
    let (effects, result) = s.send_header(1, "GET / HTTP/1.1".to_string(), true);
    assert!(result.is_ok());
    assert!(
        matches!(&effects[..], [V3Effect::Send(b)] if b.to_vec() == header_message(1, true, true, "GET / HTTP/1.1").to_vec())
    );
    s
}

fn failures(effects: &Vec<V3Effect>) -> Vec<(i32, String, Option<u16>)> {
    effects
        .iter()
        .filter_map(|e| match e {
            V3Effect::Fail(id, e) => Some((*id, e.reason.clone(), e.opt_status_code)),
            _ => None,
        })
        .collect()
}

#[test]
fn requests_get_numbers_of_their_own() {
    let mut s = socket();
    assert_eq!(s.info().router_socket_id, "id");
    assert_eq!(s.inflight_count(), 0);
    assert_eq!(s.open_request(false, 1000).ok(), Some(1));
    assert_eq!(s.open_request(false, 1000).ok(), Some(2));
    assert_eq!(s.inflight_count(), 2);
    assert_eq!(
        s.open_request(true, 1000).err().unwrap().reason,
        "try to handle cli req in a is_removed router socket. router_socket_id=id"
    );
}

#[test]
fn response_goes_to_the_client() {
    let mut s = serving();
    let out = s.on_binary(header_message(1, false, false, "HTTP/1.1 200 OK\n"), false, 1100);
    assert!(
        matches!(&out.effects[..], [V3Effect::Send(b)] if b.to_vec() == window_update_message(1, 16).to_vec())
    );
    let out = s.on_binary(header_message(1, true, false, "a:1"), false, 1100);
    match &out.effects[..] {
        [V3Effect::HeaderText(1, t), V3Effect::Send(_)] => {
            assert_eq!(t, "HTTP/1.1 200 OK\na:1")
        }
        _ => panic!(),
    }
    let out = s.on_binary(data_messages(1, false, Some(Bytes::from_static(b"abc"))), false, 1100);
    assert!(matches!(&out.effects[..], [V3Effect::Body(1, _), V3Effect::Send(_)]));
    let (info, chunk) = out.chunk.unwrap();
    assert_eq!(chunk.to_vec(), b"abc".to_vec());
    assert_eq!(info.bytes_sent, 3);
    let out = s.on_binary(data_messages(1, true, None), false, 1300);
    match &out.effects[..] {
        [V3Effect::BodyReceived(_), V3Effect::CloseResponse(1), V3Effect::Completed(info)] => {
            assert_eq!(info.duration_millis, 300);
            assert_eq!(info.bytes_sent, 3);
            assert_eq!(info.bytes_received, 14);
            assert_eq!(info.response_body_frames, 1);
        }
        _ => panic!(),
    }
    assert_eq!(s.inflight_count(), 0);
    let out = s.on_binary(data_messages(1, true, Some(Bytes::from_static(b"x"))), false, 1300);
    assert!(out.effects.is_empty());
}

#[test]
fn frame_concerns_one_request() {
    let mut s = serving();
    assert_eq!(s.open_request(false, 1000).ok(), Some(2));
    let out = s.on_binary(rst_message(1, 1, "no".to_string()), false, 1100);
    assert_eq!(
        failures(&out.effects),
        vec![(
            1,
            "stream closed by connector, error code: 1, error message: no, req id = 1 , router socket id = id , route = my-serviceclosing cli req early due to cranker wss conn err".to_string(),
            None
        )]
    );
    assert_eq!(s.inflight_count(), 1);
}

#[test]
fn frames_that_are_passed_over() {
    let mut s = serving();
    for bin in [
        Bytes::from_static(b"123"),
        Bytes::from_static(b"\x09\0\0\0\0\x01abcd"),
        data_messages(77, true, None),
        Bytes::from_static(b"\x08\0\0\0\0\x01abc"),
        Bytes::from_static(b"\x08\0\0\0\0\x01"),
        Bytes::from_static(b"\x08\0\0\0\0\x4dabc"),
    ] {
        assert!(s.on_binary(bin, false, 1100).effects.is_empty());
        assert_eq!(s.inflight_count(), 1);
    }
}

#[test]
fn response_before_its_request_fails() {
    let mut s = socket();
    s.open_request(false, 1000).unwrap();
    let out = s.on_binary(data_messages(1, true, None), false, 1100);
    let f = failures(&out.effects);
    assert!(f[0].1.starts_with(
        "recv data/bin before handle cli req. route = my-service , router socket id = id , req id = 1"
    ));
    assert_eq!(s.inflight_count(), 0);
}

#[test]
fn header_that_is_no_text_fails() {
    let mut s = serving();
    let out = s.on_binary(Bytes::from_static(b"\x01\x04\0\0\0\x01\xff"), false, 1100);
    let f = failures(&out.effects);
    assert!(f[0].1.starts_with(
        "failed to convert binary to header text in utf8 : FromUtf8Error { bytes: [255], error: Utf8Error { valid_up_to: 0, error_len: Some(1) } }, req id = 1 , router socket id = id , route = my-service"
    ));
}

#[test]
fn removed_socket_gives_no_body() {
    let mut s = serving();
    let out = s.on_binary(data_messages(1, true, Some(Bytes::from_static(b"x"))), true, 1100);
    assert!(!out.effects.iter().any(|e| matches!(e, V3Effect::Body(_, _))));
    assert!(out.chunk.is_none());
    assert!(failures(&out.effects)[0].1.starts_with(
        "recv bin msg from connector but router socket already removed. req_id=1, flags=1"
    ));
}

#[test]
fn body_is_held_back_and_let_go() {
    let mut s = serving();
    assert!(s.keep_reading(1, 5));
    let (effects, result) = s.send_body_chunk(1, Bytes::from(vec![0u8; 65537]));
    assert!(result.is_ok());
    assert_eq!(effects.len(), 1);
    assert!(!s.keep_reading(1, 6));
    let out = s.on_binary(window_update_message(1, 1000), false, 1100);
    assert!(out.effects.is_empty());
    let out = s.on_binary(window_update_message(1, 60000), false, 1100);
    assert!(matches!(&out.effects[..], [V3Effect::Release(1, 6)]));
    assert!(s.keep_reading(1, 7));
}

#[test]
fn closed_uplink_takes_nothing() {
    let mut s = serving();
    s.close_uplink();
    let want = "failed to send_data: SendError(..). route = my-service , router socket id = id";
    let (effects, result) = s.send_body_chunk(1, Bytes::from_static(b"a"));
    assert!(effects.is_empty());
    assert_eq!(result.err().unwrap().reason, want);
    let (_, result) = s.send_header(1, "a".to_string(), false);
    assert_eq!(result.err().unwrap().reason, want);
    let out = s.on_binary(header_message(1, true, false, "a"), false, 1100);
    assert!(failures(&out.effects)[0].1.starts_with(want));
    assert_eq!(
        s.on_ping(Bytes::new()).err().unwrap().reason,
        format!(
            "failed to pong back CrankerRouterException {{ reason: {:?}, opt_status_code: None, opt_err_kind: None }}",
            want
        )
    );
}

#[test]
fn ping_is_answered() {
    match socket().on_ping(Bytes::from_static(b"hi")) {
        Ok(WsMessage::Pong(b)) => assert_eq!(b.to_vec(), b"hi".to_vec()),
        _ => panic!(),
    }
}

#[test]
fn clients_are_told_of_errors() {
    let mut s = socket();
    s.open_request(false, 1000).unwrap();
    let e = CrankerRouterException::new("x".to_string());
    assert_eq!(
        failures(&s.notify_client_request_error(1, e, 1100)),
        vec![(1, "xclosing cli req early due to cranker wss conn err".to_string(), None)]
    );
    let mut s = serving();
    let e = CrankerRouterException::new("x".to_string()).with_err_kind(CrexKind::Timeout_0001);
    assert_eq!(
        failures(&s.notify_client_request_error(1, e, 1100)),
        vec![(1, "504 Gateway Timeout xclosing cli req early due to timeout".to_string(), Some(504))]
    );
    let mut s = socket();
    s.open_request(false, 1000).unwrap();
    let (_, result) = s.send_header(1, String::new(), true);
    assert!(result.is_ok());
    let e = CrankerRouterException::new("x".to_string());
    assert_eq!(
        failures(&s.notify_client_request_error(1, e, 1100)),
        vec![(1, "502 Bad Gateway x".to_string(), Some(502))]
    );
}

#[test]
fn termination_fails_all_requests() {
    let mut s = serving();
    s.open_request(false, 1000).unwrap();
    let effects = s.terminate_all_conn(None, 1100);
    let mut ids: Vec<i32> = failures(&effects).into_iter().map(|f| f.0).collect();
    ids.sort();
    assert_eq!(ids, vec![1, 2]);
    assert!(failures(&effects)[0]
        .1
        .starts_with("terminating all connections on cranker router v3 for unknown reason"));
    assert_eq!(s.inflight_count(), 0);
}

#[test]
fn general_error_is_kept_for_the_listeners() {
    let mut s = serving();
    s.try_provide_general_error(Some(CrankerRouterException::new("kept".to_string())));
    let effects = s.raise_completion_event(Some(ClientRequestIdentifier { request_id: 1 }), 1100);
    match &effects[..] {
        [V3Effect::Completed(info)] => {
            assert_eq!(info.error.as_ref().unwrap().reason, "kept");
            assert_eq!(info.duration_millis, 100);
        }
        _ => panic!(),
    }
    assert!(s.raise_completion_event(None, 1100).is_empty());
}

#[test]
fn request_is_given_up_once() {
    let mut s = serving();
    let frame = s.reset_stream(1, 1, "no".to_string()).unwrap();
    assert_eq!(frame.to_vec(), rst_message(1, 1, "no".to_string()).to_vec());
    assert!(s.reset_stream(1, 1, "no".to_string()).is_none());
    assert_eq!(s.inflight_count(), 0);
}

#[test]
fn request_that_is_sent_is_forgotten_once_it_is_over() {
    let mut s = serving();
    s.request_sent(1);
    s.on_binary(data_messages(1, true, None), false, 1100);
    let e = CrankerRouterException::new("x".to_string());
    assert!(s.notify_client_request_error(1, e, 1100).is_empty());
    let mut s = serving();
    s.on_binary(data_messages(1, true, None), false, 1100);
    let e = CrankerRouterException::new("x".to_string());
    assert_eq!(failures(&s.notify_client_request_error(1, e, 1100)).len(), 1);
}

fn close_frame(code: u16, reason: &str) -> Option<CloseFrame> {
    Some(CloseFrame { code, reason: reason.to_string() })
}

fn completed(effects: &Vec<V3Effect>) -> Vec<Option<String>> {
    effects
        .iter()
        .filter_map(|e| match e {
            V3Effect::Completed(info) => Some(info.error.as_ref().map(|e| e.reason.clone())),
            _ => None,
        })
        .collect()
}

fn kinds(effects: &Vec<V3Effect>) -> Vec<&'static str> {
    effects
        .iter()
        .map(|e| match e {
            V3Effect::BodyReceived(_) => "body received",
            V3Effect::Fail(..) => "fail",
            V3Effect::CloseResponse(_) => "close response",
            V3Effect::Completed(_) => "completed",
            _ => "other",
        })
        .collect()
}

#[test]
fn close_takes_the_socket_out_once() {
    assert!(socket().on_close(None, false, 1000).take_out);
    assert!(!socket().on_close(None, true, 1000).take_out);
    assert!(socket().on_close(close_frame(1000, ""), false, 1000).effects.is_empty());
}

#[test]
fn close_ends_every_request_under_way() {
    let mut s = serving();
    assert_eq!(s.open_request(false, 1000).ok(), Some(2));
    let outcome = s.on_close(close_frame(1001, "going away"), false, 1500);
    let reason = "upstream server error: ws code=1001, reason=going away".to_string();
    assert_eq!(completed(&outcome.effects), vec![Some(reason.clone()), Some(reason)]);
    assert!(failures(&outcome.effects).is_empty());
    assert_eq!(s.inflight_count(), 0);
    assert!(s.on_close(close_frame(1001, "going away"), true, 1500).effects.is_empty());
}

#[test]
fn close_tells_of_the_time_that_a_request_took() {
    let mut s = serving();
    let outcome = s.on_close(close_frame(1000, "done"), false, 1700);
    assert_eq!(kinds(&outcome.effects), vec!["body received", "close response", "completed"]);
    assert_eq!(completed(&outcome.effects), vec![None]);
    assert!(
        matches!(&outcome.effects[2], V3Effect::Completed(info) if info.duration_millis == 700)
    );
}

#[test]
fn close_without_a_frame_is_an_error() {
    let mut s = serving();
    let outcome = s.on_close(None, false, 1500);
    let reason = "upstream server error: ws code=4000, reason=closed by router".to_string();
    assert_eq!(completed(&outcome.effects), vec![Some(reason)]);
}

#[test]
fn close_leaves_alone_what_is_over() {
    let mut s = serving();
    s.on_binary(rst_message(1, 7, "no".to_string()), false, 1100);
    assert!(s.on_close(close_frame(1011, "x"), false, 1500).effects.is_empty());
}

fn turned_down(code: u16) -> Vec<V3Effect> {
    let mut s = socket();
    assert_eq!(s.open_request(false, 1000).ok(), Some(1));
    let (_, result) = s.send_header(1, "".to_string(), true);
    assert!(result.is_ok());
    s.on_close(close_frame(code, "x"), false, 1500).effects
}

#[test]
fn connector_turns_down_a_request_of_which_it_has_nothing() {
    let effects = turned_down(1011);
    assert_eq!(failures(&effects), vec![(1, "ws code 1011".to_string(), Some(502))]);
    assert_eq!(
        kinds(&effects),
        vec!["body received", "fail", "close response", "completed"]
    );
    assert_eq!(
        failures(&turned_down(1008)),
        vec![(1, "ws code 1008".to_string(), Some(400))]
    );
    assert!(failures(&turned_down(1001)).is_empty());
    let mut s = serving();
    assert!(failures(&s.on_close(close_frame(1011, "x"), false, 1500).effects).is_empty());
}
