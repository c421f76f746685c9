use scr_axum_cranker_router::connect_info::{build_transport_params_snapshot, CrankerConnectInfo};
use scr_axum_cranker_router::net::{IpAddr, SocketAddr};
use scr_axum_cranker_router::proxy_info::{ProxyInfo, ProxyInfoData};
use scr_axum_cranker_router::proxy_listener::{DefaultProxyListener, ProxyListener};
use scr_axum_cranker_router::route_resolver::LongestFirstRouteResolver;
use scr_axum_cranker_router::text;

#[test]
fn texts() {
    assert_eq!(text::trimmed("\u{3000} a b\t\n"), "a b");
    assert_eq!(text::lowered("AbÉ"), "abÉ");
    assert_eq!(text::split_on("a,,b", ','), vec!["a", "", "b"]);
    assert_eq!(text::joined(&vec!["a".to_string(), "b".to_string()], "; "), "a; b");
    assert_eq!(text::remove_all("cranker_cranker_1", "cranker_"), "1");
    assert_eq!(text::remove_all("aaa", "aa"), "a");
    assert_eq!(text::int_text(i64::MIN), i64::MIN.to_string());
    assert_eq!(text::int_text(0), "0");
    assert_eq!(text::parse_i64("-9223372036854775808"), Some(i64::MIN));
    assert_eq!(text::parse_i64("9223372036854775808"), None);
    assert_eq!(text::parse_i64("-"), None);
    assert_eq!(text::parse_u16("+65535").ok(), Some(65535));
    assert_eq!(
        text::debug_strings(&vec!["a\"b".to_string(), "\n\u{1f3e6}".to_string()]),
        format!("{:?}", vec!["a\"b", "\n\u{1f3e6}"])
    );
    assert!(text::same_ignoring_case("Ab", "aB"));
    assert!(!text::same_ignoring_case("É", "é"));
}

#[test]
fn position_of_a_character() {
    assert_eq!(LongestFirstRouteResolver::last_index_of(&text::chars_of("a/b/c"), '/'), 3);
    assert_eq!(LongestFirstRouteResolver::last_index_of(&text::chars_of("abc"), '/'), -1);
}

#[test]
fn transport_parameters() {
    assert_eq!(
        build_transport_params_snapshot(None, 1, 0x0102),
        Some(vec![
            0x21, 8, 1, 0, 0, 0, 0, 0, 0, 0, //
            0x22, 8, 2, 1, 0, 0, 0, 0, 0, 0,
        ])
    );
    let v = build_transport_params_snapshot(Some(u64::MAX - 1), 0, 0).unwrap();
    assert_eq!(v.len(), 30);
    assert_eq!(v[0..2].to_vec(), vec![0x20, 8]);
    assert_eq!(v[2..10].to_vec(), (u64::MAX - 1).to_le_bytes().to_vec());
}

#[test]
fn connections() {
    let addr = SocketAddr { ip: IpAddr::V4(1), port: 2 };
    assert!(CrankerConnectInfo::from_tcp(addr).tls_info.is_none());
    let c = CrankerConnectInfo::from_tls(addr, Some("a".to_string()), None, None, None);
    assert_eq!(c.remote_addr, addr);
    assert_eq!(c.tls_info.unwrap().sni.as_deref(), Some("a"));
    let c = CrankerConnectInfo::from_quinn_connection(
        addr,
        None,
        Some(b"h3".to_vec()),
        Some(vec![vec![1]]),
        Some(vec![2]),
    );
    let t = c.tls_info.unwrap();
    assert_eq!(t.alpn, Some(b"h3".to_vec()));
    assert_eq!(t.protocol_version, None);
    assert_eq!(t.cipher_suite, None);
    assert_eq!(t.peer_certs, Some(vec![vec![1]]));
    assert_eq!(t.quic_transport_parameters, Some(vec![2]));
}

#[test]
fn default_listener_takes_everything() {
    let info = ProxyInfoData {
        router_socket_id: "id".to_string(),
        route: "*".to_string(),
        service_address: SocketAddr { ip: IpAddr::V4(1), port: 2 },
        connector_id: "c".to_string(),
        duration_millis: 1,
        bytes_received: 2,
        bytes_sent: 3,
        response_body_frames: 4,
        error: None,
        socket_wait_in_millis: 5,
    };
    assert!(info.is_catch_all());
    assert_eq!(info.duration_millis(), 1);
    let l = DefaultProxyListener::new();
    assert!(l.on_complete(&info).is_ok());
    assert!(!l.really_need_on_response_body_chunk_received_from_target());
    assert!(!l.really_need_on_request_body_chunk_sent_to_target());
}
