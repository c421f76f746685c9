use axum::http::HeaderMap;
use bytes::Bytes;
use scr_axum_cranker_router::client_request::{ClientRequest, V1Start};
use scr_axum_cranker_router::config::CrankerRouterConfig;
use scr_axum_cranker_router::exceptions::CrankerRouterException;
use scr_axum_cranker_router::exchange::{ExchangeAction, ExchangeEvent, SendingEvent};
use scr_axum_cranker_router::frames::data_messages;
use scr_axum_cranker_router::net::{HttpVersion, IpAddr, RequestUri, SocketAddr};
use scr_axum_cranker_router::proxy_info::ProxyInfo;
use scr_axum_cranker_router::proxy_listener::ProxyListener;
use scr_axum_cranker_router::router_socket::{RouterSocketInfo, WsMessage};
use scr_axum_cranker_router::router_socket_v1::{RouterSocketV1, V1Effect};
use scr_axum_cranker_router::router_socket_v3::{RouterSocketV3, V3Effect};
use std::sync::Arc;

fn socket_info(cranker_version: &'static str) -> RouterSocketInfo {
    RouterSocketInfo {
        router_socket_id: "id".to_string(),
        route: "my-service".to_string(),
        component_name: "n".to_string(),
        connector_id: "c".to_string(),
        domain: "*".to_string(),
        service_address: SocketAddr { ip: IpAddr::V4(1), port: 2 },
        cranker_version,
    }
}

/// Fails whenever it is told that a request's body or a piece of it was sent.
struct Refuser;

impl ProxyListener for Refuser {
    fn on_request_body_sent_to_target(
        &self,
        _info: &dyn ProxyInfo,
    ) -> Result<(), CrankerRouterException> {
        Err(CrankerRouterException::new("refused".to_string()))
    }

    fn on_request_body_chunk_sent_to_target(
        &self,
        _info: &dyn ProxyInfo,
        _chunk: &Bytes,
    ) -> Result<(), CrankerRouterException> {
        Err(CrankerRouterException::new("refused".to_string()))
    }

    fn really_need_on_response_body_chunk_received_from_target(&self) -> bool {
        false
    }

    fn really_need_on_request_body_chunk_sent_to_target(&self) -> bool {
        true
    }
}

fn start(m: &str) -> SendingEvent {
    SendingEvent::Start(V1Start { message: m.to_string(), hdr_to_tgt: HeaderMap::new() })
}

fn refusing() -> CrankerRouterConfig {
    CrankerRouterConfig::new()
        .with_proxy_listeners(vec![Arc::new(Refuser) as Arc<dyn ProxyListener>])
}

#[test]
fn request_goes_over_a_connection_of_one_request() {
    let config = CrankerRouterConfig::new();
    let mut s = RouterSocketV1::new(socket_info("cranker_1.0"), &config.proxy_listeners, 0);
    let out = s.split_part_one_send_or_err(&config, true, start("x"));
    assert!(matches!(&out.effects[..], [V1Effect::Send(WsMessage::Text(t))] if t == "x"));
    assert!(matches!(out.action, ExchangeAction::ReadBody));
    assert!(s.is_tgt_can_send_res_now_according_to_rfc2616);
    let chunk = SendingEvent::Chunk(Bytes::from_static(b"abc"));
    let out = s.split_part_one_send_or_err(&config, true, chunk);
    assert!(matches!(&out.effects[..], [V1Effect::Send(WsMessage::Binary(_))]));
    assert!(matches!(out.action, ExchangeAction::ReadBody));
    let out = s.split_part_one_send_or_err(&config, true, SendingEvent::BodyEnded);
    assert!(matches!(&out.effects[..], [V1Effect::Send(WsMessage::Text(t))] if t == "_3"));
    assert!(matches!(out.action, ExchangeAction::AwaitHeader));
    let out = s.split_part_one_send_or_err(&config, false, start("x"));
    assert!(matches!(out.action, ExchangeAction::AwaitHeader));
    let failed = SendingEvent::BodyFailed("broken".to_string());
    let out = s.split_part_one_send_or_err(&config, true, failed);
    assert!(matches!(&out.action, ExchangeAction::Fail(e) if e.reason == "broken"));
    s.close_uplink();
    let out = s.split_part_one_send_or_err(&config, false, start("x"));
    assert!(
        matches!(&out.action, ExchangeAction::Fail(e) if e.reason == "failed to send cli req hdr to tgt: SendError(..)")
    );
}

#[test]
fn listener_stops_a_request_on_a_connection_of_one_request() {
    let config = refusing();
    let mut s = RouterSocketV1::new(socket_info("cranker_1.0"), &config.proxy_listeners, 0);
    let out = s.split_part_one_send_or_err(&config, false, start("x"));
    assert_eq!(out.effects.len(), 1);
    assert!(matches!(&out.action, ExchangeAction::Fail(e) if e.reason == "refused"));
    let chunk = SendingEvent::Chunk(Bytes::from_static(b"abc"));
    let out = s.split_part_one_send_or_err(&config, true, chunk);
    assert!(matches!(&out.effects[..], [V1Effect::Send(WsMessage::Binary(_))]));
    assert!(matches!(&out.action, ExchangeAction::Fail(e) if e.reason == "refused"));
}

#[test]
fn response_comes_over_a_connection_of_one_request() {
    let config = CrankerRouterConfig::new();
    let s = RouterSocketV1::new(socket_info("cranker_1.0"), &config.proxy_listeners, 0);
    let b = s
        .split_part_two_recv_and_res(&config, Some(Ok("HTTP/1.1 404 x\na:1".to_string())))
        .unwrap();
    assert_eq!(b.body(()).unwrap().status().as_u16(), 404);
    let e = CrankerRouterException::new("a".to_string());
    let got = s.split_part_two_recv_and_res(&config, Some(Err(e))).err().unwrap();
    assert_eq!(got.reason, "a");
    let got = s.split_part_two_recv_and_res(&config, None).err().unwrap();
    assert!(got.reason.starts_with("rare ex seems nothing received"));
}

#[test]
fn exchange_over_a_connection_of_several_requests() {
    let config = CrankerRouterConfig::new();
    let headers = HeaderMap::new();
    let uri = RequestUri {
        scheme: None,
        host: None,
        path: "/".to_string(),
        path_and_query: Some("/".to_string()),
    };
    let req = ClientRequest {
        method: "POST",
        http_version: HttpVersion::Http11,
        orig_uri: &uri,
        headers: &headers,
        server_ip: "10.0.0.1",
        remote_ip: "10.0.0.2",
        has_body: true,
    };
    let mut s = RouterSocketV3::new(socket_info("cranker_3.0"));
    let (id, _) = s.on_client_req(&config, &req, false, 1000).result.ok().unwrap();
    let mut take = |ev: ExchangeEvent, ticket: u64| {
        let out = s.send_request_over_websocket_v3(&config, &req, id, ev, ticket, 1100);
        (out.effects, out.action)
    };
    assert!(matches!(take(ExchangeEvent::HeadersSent(HeaderMap::new()), 1).1, ExchangeAction::ReadBody));
    let (effects, action) = take(ExchangeEvent::Chunk(Bytes::from_static(b"abc")), 2);
    assert!(
        matches!(&effects[..], [V3Effect::Send(b)] if b.to_vec() == data_messages(id, false, Some(Bytes::from_static(b"abc"))).to_vec())
    );
    assert!(matches!(action, ExchangeAction::ReadBody));
    let (_, action) = take(ExchangeEvent::Chunk(Bytes::from(vec![0u8; 65536])), 3);
    assert!(matches!(action, ExchangeAction::Wait(3)));
    assert!(matches!(take(ExchangeEvent::ReadOn, 4).1, ExchangeAction::ReadBody));
    assert!(matches!(take(ExchangeEvent::BodyEnded, 5).1, ExchangeAction::AwaitHeader));
    let header = ExchangeEvent::Header("HTTP/1.1 200 OK\na:1".to_string());
    match take(header, 6).1 {
        ExchangeAction::Respond(b) => assert_eq!(b.body(()).unwrap().status().as_u16(), 200),
        other => panic!("{:?}", other),
    }
    let (effects, action) = take(ExchangeEvent::Header("HTTP/1.1".to_string()), 7);
    assert!(matches!(action, ExchangeAction::Fail(_)));
    assert!(matches!(&effects[..], [V3Effect::Fail(1, _), V3Effect::Completed(_)]));
    let (effects, action) = take(ExchangeEvent::HeaderMissing, 8);
    assert!(
        matches!(&action, ExchangeAction::Fail(e) if e.reason == "failed to receive header from ctx: RecvError")
    );
    assert!(matches!(&effects[..], [V3Effect::Fail(1, _)]));
    let (_, action) = take(ExchangeEvent::BodyFailed("broken".to_string()), 9);
    assert!(matches!(&action, ExchangeAction::Fail(e) if e.reason == "broken"));
    let e = CrankerRouterException::new("a".to_string());
    let (_, action) = take(ExchangeEvent::HeaderError(e), 10);
    assert!(matches!(&action, ExchangeAction::Fail(e) if e.reason == "a"));
}

#[test]
fn listener_stops_a_request_on_a_connection_of_several_requests() {
    let config = refusing();
    let headers = HeaderMap::new();
    let uri =
        RequestUri { scheme: None, host: None, path: "/".to_string(), path_and_query: None };
    let req = ClientRequest {
        method: "POST",
        http_version: HttpVersion::Http11,
        orig_uri: &uri,
        headers: &headers,
        server_ip: "10.0.0.1",
        remote_ip: "10.0.0.2",
        has_body: true,
    };
    let mut s = RouterSocketV3::new(socket_info("cranker_3.0"));
    let (id, _) = s.on_client_req(&config, &req, false, 1000).result.ok().unwrap();
    let ev = ExchangeEvent::BodyEnded;
    let out = s.send_request_over_websocket_v3(&config, &req, id, ev, 1, 1100);
    assert!(matches!(&out.action, ExchangeAction::Fail(e) if e.reason == "refused"));
    let (id, _) = s.on_client_req(&config, &req, false, 1000).result.ok().unwrap();
    let ev = ExchangeEvent::Chunk(Bytes::from_static(b"abc"));
    let out = s.send_request_over_websocket_v3(&config, &req, id, ev, 1, 1100);
    assert!(matches!(&out.action, ExchangeAction::Fail(e) if e.reason == "refused"));
    assert!(matches!(
        &out.effects[..],
        [V3Effect::Send(_), V3Effect::Fail(2, _), V3Effect::Completed(_)]
    ));
}
