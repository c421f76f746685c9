use axum::http::{HeaderMap, HeaderName, HeaderValue};
use bytes::Bytes;
use scr_axum_cranker_router::client_request::ClientRequest;
use scr_axum_cranker_router::config::CrankerRouterConfig;
use scr_axum_cranker_router::cranker_protocol_response::begin_response;
use scr_axum_cranker_router::exceptions::CrankerRouterException;
use scr_axum_cranker_router::exchange::{ExchangeAction, ExchangeEvent, SendingEvent};
use scr_axum_cranker_router::frames::{data_messages, header_message};
use scr_axum_cranker_router::http_utils::header_map_get_all_ok_to_string;
use scr_axum_cranker_router::listeners::{self, Listeners};
use scr_axum_cranker_router::net::{HttpVersion, IpAddr, RequestUri, SocketAddr};
use scr_axum_cranker_router::proxy_info::{ProxyInfo, ProxyInfoData};
use scr_axum_cranker_router::proxy_listener::ProxyListener;
use scr_axum_cranker_router::registration::goodbye;
use scr_axum_cranker_router::router_socket::{
    err_chan_closed, header_missing, RouterSocketInfo, WsMessage,
};
use scr_axum_cranker_router::router_socket_v1::RouterSocketV1;
use scr_axum_cranker_router::router_socket_v3::{RouterSocketV3, V3Effect};
use scr_axum_cranker_router::websocket_farm::ErrorProxyInfo;
use std::sync::{Arc, Mutex};

/// Writes down what it is told, and fails at one hook if it is to.
struct Witness {
    name: &'static str,
    fails_at: &'static str,
    needs_chunks: bool,
    told: Arc<Mutex<Vec<String>>>,
}

impl Witness {
    fn tell(&self, hook: &'static str) -> Result<(), CrankerRouterException> {
        self.told.lock().unwrap().push(format!("{} {}", self.name, hook));
        if hook == self.fails_at {
            Err(CrankerRouterException::new(format!("{} failed", self.name)))
        } else {
            Ok(())
        }
    }
}

impl ProxyListener for Witness {
    fn on_before_proxy_to_target(
        &self,
        _info: &dyn ProxyInfo,
        hdr: &mut HeaderMap,
    ) -> Result<(), CrankerRouterException> {
        hdr.insert("x-witness", HeaderValue::from_static(self.name));
        self.tell("before")
    }

    fn on_before_responding_to_client(
        &self,
        _info: &dyn ProxyInfo,
    ) -> Result<(), CrankerRouterException> {
        self.tell("responding")
    }

    fn on_after_target_to_proxy_headers_received(
        &self,
        _info: &dyn ProxyInfo,
        status: u16,
        headers: Option<&HeaderMap>,
    ) -> Result<(), CrankerRouterException> {
        assert_eq!(status, 200);
        assert_eq!(headers.unwrap().get("a").unwrap(), "1");
        self.tell("headers")
    }

    fn on_after_proxy_to_target_headers_sent(
        &self,
        _info: &dyn ProxyInfo,
        headers: Option<&HeaderMap>,
    ) -> Result<(), CrankerRouterException> {
        assert_eq!(headers.unwrap().get("x-witness").unwrap(), "2");
        self.tell("sent")
    }

    fn on_request_body_sent_to_target(
        &self,
        _info: &dyn ProxyInfo,
    ) -> Result<(), CrankerRouterException> {
        self.tell("body sent")
    }

    fn on_before_request_body_chunk_sent_to_target(
        &self,
        _info: &dyn ProxyInfo,
        chunk: &Bytes,
    ) -> Result<(), CrankerRouterException> {
        assert_eq!(chunk.to_vec(), b"abc".to_vec());
        self.tell("chunk before")
    }

    fn on_request_body_chunk_sent_to_target(
        &self,
        _info: &dyn ProxyInfo,
        chunk: &Bytes,
    ) -> Result<(), CrankerRouterException> {
        assert_eq!(chunk.to_vec(), b"abc".to_vec());
        self.tell("chunk sent")
    }

    fn on_response_body_chunk_received_from_target(
        &self,
        _info: &dyn ProxyInfo,
        chunk: &Bytes,
    ) -> Result<(), CrankerRouterException> {
        assert_eq!(chunk.to_vec(), b"abc".to_vec());
        self.tell("chunk received")
    }

    fn on_response_body_chunk_received(
        &self,
        _info: &dyn ProxyInfo,
    ) -> Result<(), CrankerRouterException> {
        self.tell("body received")
    }

    fn on_complete(&self, _info: &dyn ProxyInfo) -> Result<(), CrankerRouterException> {
        self.tell("complete")
    }

    fn on_failure_to_acquire_proxy_socket(
        &self,
        _info: &dyn ProxyInfo,
    ) -> Result<(), CrankerRouterException> {
        self.tell("no socket")
    }

    fn really_need_on_response_body_chunk_received_from_target(&self) -> bool {
        self.needs_chunks
    }

    fn really_need_on_request_body_chunk_sent_to_target(&self) -> bool {
        self.needs_chunks
    }
}

fn witnesses(fails_at: &'static str) -> (Listeners, Arc<Mutex<Vec<String>>>) {
    let told = Arc::new(Mutex::new(Vec::new()));
    let first = Witness { name: "1", fails_at, needs_chunks: false, told: told.clone() };
    let second = Witness { name: "2", fails_at: "", needs_chunks: true, told: told.clone() };
    (vec![Arc::new(first) as Arc<dyn ProxyListener>, Arc::new(second)], told)
}

fn socket_info(cranker_version: &'static str) -> RouterSocketInfo {
    RouterSocketInfo {
        router_socket_id: "id".to_string(),
        route: "my-service".to_string(),
        component_name: "n".to_string(),
        connector_id: "c".to_string(),
        domain: "*".to_string(),
        service_address: SocketAddr { ip: IpAddr::V4(1), port: 2 },
        cranker_version,
    }
}

fn info() -> ProxyInfoData {
    RouterSocketV1::new(socket_info("cranker_1.0"), &vec![], 0).proxy_info()
}

fn take(told: &Arc<Mutex<Vec<String>>>) -> Vec<String> {
    std::mem::take(&mut *told.lock().unwrap())
}

#[test]
fn listeners_are_told_in_order() {
    let (all, told) = witnesses("");
    let info = info();
    let mut hdr = HeaderMap::new();
    assert!(listeners::before_proxy_to_target(&all, &info, &mut hdr).is_ok());
    assert_eq!(hdr.get("x-witness").unwrap(), "2");
    assert_eq!(take(&told), vec!["1 before", "2 before"]);
    assert!(listeners::headers_sent_to_target(&all, &info, &hdr).is_ok());
    assert_eq!(take(&told), vec!["1 sent", "2 sent"]);
    let chunk = Bytes::from_static(b"abc");
    assert!(listeners::request_body_chunk_to_be_sent(&all, &info, &chunk).is_ok());
    assert_eq!(take(&told), vec!["1 chunk before", "2 chunk before"]);
    assert!(listeners::request_body_chunk_asked_for(&all, &info, &chunk).is_ok());
    assert_eq!(take(&told), vec!["2 chunk sent"]);
    assert!(listeners::request_body_chunk_sent(&all, &info, &chunk).is_ok());
    assert_eq!(take(&told), vec!["1 chunk sent", "2 chunk sent"]);
    assert!(listeners::request_body_sent(&all, &info).is_ok());
    assert_eq!(take(&told), vec!["1 body sent", "2 body sent"]);
    assert!(listeners::response_body_chunk_asked_for(&all, &info, &chunk).is_ok());
    assert_eq!(take(&told), vec!["2 chunk received"]);
    listeners::response_body_received(&all, &info);
    let missing = ErrorProxyInfo::new("my-service".to_string(), 5000, IpAddr::V4(1));
    listeners::no_socket(&all, &missing);
    assert_eq!(
        take(&told),
        vec!["1 body received", "2 body received", "1 no socket", "2 no socket"]
    );
    assert!(listeners::some_need_request_chunks(&all));
    assert!(!listeners::some_need_request_chunks(&vec![]));
}

#[test]
fn listener_that_fails_stops_the_request() {
    let (all, told) = witnesses("complete");
    let info = info();
    assert_eq!(listeners::complete(&all, &info).err().unwrap().reason, "1 failed");
    assert_eq!(take(&told), vec!["1 complete"]);
    listeners::complete_whatever_they_answer(&all, &info);
    assert_eq!(take(&told), vec!["1 complete", "2 complete"]);
    let (all, told) = witnesses("body received");
    listeners::response_body_received(&all, &info);
    assert_eq!(take(&told), vec!["1 body received", "2 body received"]);
    let (all, told) = witnesses("no socket");
    let missing = ErrorProxyInfo::new("my-service".to_string(), 5000, IpAddr::V4(1));
    listeners::no_socket(&all, &missing);
    assert_eq!(take(&told), vec!["1 no socket", "2 no socket"]);
    let (all, told) = witnesses("responding");
    let e = begin_response(&all, &info, "HTTP/1.1 200 OK\na:1".to_string()).err().unwrap();
    assert_eq!(e.reason, "1 failed");
    assert_eq!(take(&told), vec!["1 responding"]);
}

#[test]
fn response_is_started() {
    let (all, told) = witnesses("");
    let res = begin_response(&all, &info(), "HTTP/1.1 200 OK\na:1".to_string()).unwrap();
    assert_eq!(res.body(()).unwrap().headers().get("a").unwrap(), "1");
    assert_eq!(take(&told), vec!["1 responding", "1 headers", "2 responding", "2 headers"]);
    let none: Listeners = vec![];
    assert!(begin_response(&none, &info(), "HTTP/1.1".to_string()).is_err());
    assert_eq!(
        begin_response(&none, &info(), "HTTP/1.1 200 OK\na".to_string()).err().unwrap().reason,
        "failed to parse protocol response, header seems corrupted: [\"a\"]"
    );
}

fn uri() -> RequestUri {
    RequestUri {
        scheme: None,
        host: None,
        path: "/a".to_string(),
        path_and_query: Some("/a?b".to_string()),
    }
}

fn request<'a>(uri: &'a RequestUri, headers: &'a HeaderMap) -> ClientRequest<'a> {
    ClientRequest {
        method: "GET",
        http_version: HttpVersion::Http11,
        orig_uri: uri,
        headers,
        server_ip: "10.0.0.1",
        remote_ip: "10.0.0.2",
        has_body: false,
    }
}

#[test]
fn request_for_a_connector_of_one_request() {
    let config = CrankerRouterConfig::new();
    let mut headers = HeaderMap::new();
    headers.insert("accept", HeaderValue::from_static("x"));
    let uri = uri();
    let req = request(&uri, &headers);
    assert!(req.can_be_read(&config.settings));
    let mut s = RouterSocketV1::new(socket_info("cranker_1.0"), &config.proxy_listeners, 1000);
    assert_eq!(
        s.on_client_req(&config, &req, true, 1500).err().unwrap().reason,
        "try to handle cli req in a is_removed router socket. router_socket_id=id"
    );
    assert_eq!(
        s.on_client_req(&config, &req, false, 1500).unwrap().message,
        "GET /a?b HTTP/1.1\naccept:x\nvia:HTTP/1.1 scr-axum\nforwarded:by=10.0.0.1;for=10.0.0.2\n\n\n_2"
    );
    let (all, _) = witnesses("");
    let config = config.with_proxy_listeners(all);
    let start = s.on_client_req(&config, &req, false, 1500).unwrap();
    assert!(start.message.contains("\nx-witness:2\n"));
    assert_eq!(start.hdr_to_tgt.get("x-witness").unwrap(), "2");
    let (all, _) = witnesses("before");
    let config = config.with_proxy_listeners(all);
    assert_eq!(
        s.on_client_req(&config, &req, false, 1500).err().unwrap().reason,
        "1 failed"
    );
}

#[test]
fn request_that_cannot_be_read() {
    let config = CrankerRouterConfig::new();
    let mut headers = HeaderMap::new();
    headers.insert("x-forwarded-host", HeaderValue::from_static("1"));
    headers.insert("x-forwarded-port", HeaderValue::from_static("81"));
    let uri = uri();
    let req = request(&uri, &headers);
    assert!(!req.can_be_read(&config.settings));
    assert!(req.can_be_read(&config.with_discard_client_forwarded_headers(true).settings));
}

#[test]
fn request_for_a_connector_of_several_requests() {
    let config = CrankerRouterConfig::new();
    let mut headers = HeaderMap::new();
    headers.insert("accept", HeaderValue::from_static("x"));
    let uri = uri();
    let req = request(&uri, &headers);
    let mut s = RouterSocketV3::new(socket_info("cranker_3.0"));
    let start = s.on_client_req(&config, &req, true, 1000);
    assert!(start.result.is_err() && start.effects.is_empty());
    let start = s.on_client_req(&config, &req, false, 1000);
    let (id, hdr_to_tgt) = start.result.ok().unwrap();
    assert_eq!(id, 1);
    assert_eq!(hdr_to_tgt.get("accept").unwrap(), "x");
    let text = "GET /a?b HTTP/1.1\naccept:x\nvia:HTTP/1.1 scr-axum\nforwarded:by=10.0.0.1;for=10.0.0.2\n\n";
    assert!(
        matches!(&start.effects[..], [V3Effect::Send(b)] if b.to_vec() == header_message(1, true, true, text).to_vec())
    );
    assert_eq!(s.request_info(1).unwrap().bytes_received, text.len() as i64);
    assert!(s.request_info(2).is_none());
    let (all, _) = witnesses("before");
    let config = config.with_proxy_listeners(all);
    let start = s.on_client_req(&config, &req, false, 1000);
    assert_eq!(start.result.err().unwrap().reason, "1 failed");
    assert!(start.effects.iter().any(|e| matches!(e, V3Effect::Fail(2, _))));
    assert_eq!(s.inflight_count(), 1);
    s.close_uplink();
    let config = config.with_proxy_listeners(vec![]);
    let start = s.on_client_req(&config, &req, false, 1000);
    assert_eq!(
        start.result.err().unwrap().reason,
        "failed to send_data: SendError(..). route = my-service , router socket id = id"
    );
    assert!(start.effects.iter().any(|e| matches!(e, V3Effect::Fail(3, _))));
    assert!(s.send_data(WsMessage::Text("a".to_string())).is_err());
}

#[test]
fn headers_are_sent_as_the_listeners_left_them() {
    let (all, _) = witnesses("");
    let config = CrankerRouterConfig::new().with_proxy_listeners(all);
    let headers = HeaderMap::new();
    let uri = uri();
    let req = request(&uri, &headers);
    let mut s = RouterSocketV3::new(socket_info("cranker_3.0"));
    let start = s.on_client_req(&config, &req, false, 1000);
    let (_, hdr_to_tgt) = start.result.ok().unwrap();
    assert_eq!(hdr_to_tgt.get("x-witness").unwrap(), "2");
    match &start.effects[..] {
        [V3Effect::Send(b)] => {
            let text = String::from_utf8(b[6..].to_vec()).unwrap();
            assert!(text.starts_with("GET /a?b HTTP/1.1\n"));
            assert!(text.contains("\nx-witness:2\n"));
        }
        other => panic!("{} effects", other.len()),
    }
}

#[test]
fn errors_of_channels_that_ended() {
    assert_eq!(
        header_missing(&socket_info("cranker_3.0")).reason,
        "failed to receive header from ctx: RecvError"
    );
    assert_eq!(
        header_missing(&socket_info("cranker_1.0")).reason,
        "rare ex seems nothing received from tgt res hdr chan and it closed: RecvError. router_socket_id=id"
    );
    assert_eq!(
        err_chan_closed().reason,
        "rare ex that failed to send error to err chan: SendError(..)"
    );
    let f = goodbye();
    assert_eq!((f.code, f.reason.as_str()), (1000, "Deregister complete"));
}

#[test]
fn listeners_follow_a_request_over_a_connection_of_one_request() {
    let (all, told) = witnesses("");
    let config = CrankerRouterConfig::new().with_proxy_listeners(all);
    let headers = HeaderMap::new();
    let uri = uri();
    let req = request(&uri, &headers);
    let mut s = RouterSocketV1::new(socket_info("cranker_1.0"), &config.proxy_listeners, 1000);
    let start = s.on_client_req(&config, &req, false, 1500).unwrap();
    assert_eq!(take(&told), vec!["1 before", "2 before"]);
    s.split_part_one_send_or_err(&config, true, SendingEvent::Start(start));
    assert_eq!(take(&told), vec!["1 sent", "2 sent"]);
    let chunk = SendingEvent::Chunk(Bytes::from_static(b"abc"));
    s.split_part_one_send_or_err(&config, true, chunk);
    assert_eq!(
        take(&told),
        vec!["1 chunk before", "2 chunk before", "1 chunk sent", "2 chunk sent"]
    );
    s.split_part_one_send_or_err(&config, true, SendingEvent::BodyEnded);
    assert_eq!(take(&told), vec!["1 body sent", "2 body sent"]);
    let header = "HTTP/1.1 200 OK\na:1".to_string();
    assert!(s.split_part_two_recv_and_res(&config, Some(Ok(header))).is_ok());
    assert_eq!(take(&told), vec!["1 responding", "1 headers", "2 responding", "2 headers"]);
    assert!(s.response_chunk_came(&config, &Bytes::from_static(b"abc")).is_ok());
    assert_eq!(take(&told), vec!["2 chunk received"]);
}

#[test]
fn listeners_follow_a_request_over_a_connection_of_several_requests() {
    let (all, told) = witnesses("");
    let config = CrankerRouterConfig::new().with_proxy_listeners(all);
    let headers = HeaderMap::new();
    let uri = uri();
    let mut req = request(&uri, &headers);
    req.has_body = true;
    let mut s = RouterSocketV3::new(socket_info("cranker_3.0"));
    let (id, hdr_to_tgt) = s.on_client_req(&config, &req, false, 1000).result.ok().unwrap();
    assert_eq!(take(&told), vec!["1 before", "2 before"]);
    let mut exchange = |ev: ExchangeEvent| {
        s.send_request_over_websocket_v3(&config, &req, id, ev, 1, 1100);
        take(&told)
    };
    assert_eq!(exchange(ExchangeEvent::HeadersSent(hdr_to_tgt)), vec!["1 sent", "2 sent"]);
    assert_eq!(
        exchange(ExchangeEvent::Chunk(Bytes::from_static(b"abc"))),
        vec!["1 chunk before", "2 chunk before", "2 chunk sent"]
    );
    assert_eq!(exchange(ExchangeEvent::BodyEnded), vec!["1 body sent", "2 body sent"]);
    assert_eq!(
        exchange(ExchangeEvent::Header("HTTP/1.1 200 OK\na:1".to_string())),
        vec!["1 responding", "1 headers", "2 responding", "2 headers"]
    );
}

#[test]
fn listeners_are_told_of_a_request_without_a_body_one_by_one() {
    let bodiless = |fails_at: &'static str| {
        let (all, told) = witnesses(fails_at);
        let config = CrankerRouterConfig::new().with_proxy_listeners(all);
        let headers = HeaderMap::new();
        let uri = uri();
        let mut req = request(&uri, &headers);
        req.has_body = false;
        let mut s = RouterSocketV3::new(socket_info("cranker_3.0"));
        let (id, hdr_to_tgt) = s.on_client_req(&config, &req, false, 1000).result.ok().unwrap();
        take(&told);
        let ev = ExchangeEvent::HeadersSent(hdr_to_tgt);
        let out = s.send_request_over_websocket_v3(&config, &req, id, ev, 1, 1100);
        (out.action, take(&told))
    };
    let (action, told) = bodiless("");
    assert!(matches!(action, ExchangeAction::AwaitHeader));
    assert_eq!(told, vec!["1 sent", "1 body sent", "2 sent", "2 body sent"]);
    let (action, told) = bodiless("sent");
    assert!(matches!(action, ExchangeAction::Fail(e) if e.reason == "1 failed"));
    assert_eq!(told, vec!["1 sent"]);
    let (action, told) = bodiless("body sent");
    assert!(matches!(action, ExchangeAction::Fail(e) if e.reason == "1 failed"));
    assert_eq!(told, vec!["1 sent", "1 body sent"]);
}

#[test]
fn listener_that_fails_on_a_piece_of_a_response_fails_the_request() {
    let came = |fails_at: &'static str| {
        let told = Arc::new(Mutex::new(Vec::new()));
        let only = Witness { name: "1", fails_at, needs_chunks: true, told: told.clone() };
        let all: Listeners = vec![Arc::new(only) as Arc<dyn ProxyListener>];
        let config = CrankerRouterConfig::new().with_proxy_listeners(all);
        let mut s = RouterSocketV3::new(socket_info("cranker_3.0"));
        assert_eq!(s.open_request(false, 1000).ok(), Some(1));
        assert!(s.send_header(1, "GET / HTTP/1.1".to_string(), true).1.is_ok());
        let frame = data_messages(1, false, Some(Bytes::from_static(b"abc")));
        let (info, chunk) = s.on_binary(frame, false, 1100).chunk.unwrap();
        let effects = s.response_chunk_came(&config, 1, &info, &chunk, 1200);
        assert_eq!(take(&told), vec!["1 chunk received"]);
        (effects, s.inflight_count())
    };
    let (effects, live) = came("");
    assert!(effects.is_empty());
    assert_eq!(live, 1);
    let (effects, live) = came("chunk received");
    assert!(effects.iter().any(
        |e| matches!(e, V3Effect::Fail(1, e) if e.reason.contains("1 failed"))
    ));
    assert_eq!(live, 0);
}

/// Counts how often it is asked for its needs, of which it has all.
struct Asked {
    times: Arc<Mutex<Vec<&'static str>>>,
}

impl ProxyListener for Asked {
    fn really_need_on_response_body_chunk_received_from_target(&self) -> bool {
        self.times.lock().unwrap().push("response");
        true
    }

    fn really_need_on_request_body_chunk_sent_to_target(&self) -> bool {
        self.times.lock().unwrap().push("request");
        true
    }
}

#[test]
fn listeners_are_asked_ahead_for_their_needs() {
    let times = Arc::new(Mutex::new(Vec::new()));
    let all: Listeners = vec![Arc::new(Asked { times: times.clone() })];
    let config = CrankerRouterConfig::new().with_proxy_listeners(all);
    let mut s = RouterSocketV1::new(socket_info("cranker_1.0"), &config.proxy_listeners, 1000);
    assert_eq!(times.lock().unwrap().len(), 2);
    for _ in 0..3 {
        let chunk = SendingEvent::Chunk(Bytes::from_static(b"abc"));
        s.split_part_one_send_or_err(&config, true, chunk);
    }
    assert_eq!(times.lock().unwrap().len(), 2);
    let config = CrankerRouterConfig::new();
    let s = RouterSocketV1::new(socket_info("cranker_1.0"), &config.proxy_listeners, 1000);
    assert!(!s.really_need_on_request_body_chunk_sent_to_target);
    assert!(!s.really_need_on_response_body_chunk_received_from_target);
    assert!(listeners::some_need_response_chunks(&vec![Arc::new(Asked { times })]));
}

#[test]
fn name_that_no_text_finds_is_sent_on() {
    let config = CrankerRouterConfig::new();
    let mut headers = HeaderMap::new();
    let name = HeaderName::from_lowercase(b"a\"b").unwrap();
    headers.append(name.clone(), HeaderValue::from_static("1"));
    headers.append(name.clone(), HeaderValue::from_static("2"));
    assert!(headers.get("a\"b").is_none());
    assert!(header_map_get_all_ok_to_string(&headers, "a\"b").is_empty());
    let uri = uri();
    let req = request(&uri, &headers);
    assert!(req.can_be_read(&config.settings));
    let mut s = RouterSocketV1::new(socket_info("cranker_1.0"), &config.proxy_listeners, 1000);
    let start = s.on_client_req(&config, &req, false, 1500).unwrap();
    assert_eq!(start.hdr_to_tgt.get(&name).unwrap(), "2");
    assert!(start.message.contains("\na\"b:2\n"));
    assert!(!start.message.contains("a\"b:1"));
    let mut s = RouterSocketV3::new(socket_info("cranker_3.0"));
    let (_, hdr_to_tgt) = s.on_client_req(&config, &req, false, 1000).result.ok().unwrap();
    assert_eq!(hdr_to_tgt.get(&name).unwrap(), "2");
}
