use scr_axum_cranker_router::net::{IpAddr, SocketAddr};
use scr_axum_cranker_router::request_context::{
    RequestContext, StreamState, WATER_MARK_HIGH, WATER_MARK_LOW,
};
use scr_axum_cranker_router::router_socket::RouterSocketInfo;

#[test]
fn reading_rests_above_the_high_mark_and_goes_on_below_the_low_mark() {
    let mut c = RequestContext::new(1, 1000);
    assert_eq!(c.request_id(), 1);
    c.inc_rtr_to_tgt_pending_ack_bytes(WATER_MARK_HIGH);
    assert!(c.is_wss_writable);
    c.inc_rtr_to_tgt_pending_ack_bytes(1);
    assert!(!c.is_wss_writable);
    c.waiting_readers.push(7);
    assert_eq!(
        c.target_connector_ack_bytes(WATER_MARK_HIGH + 1 - WATER_MARK_LOW),
        Vec::<u64>::new()
    );
    assert!(!c.is_wss_writable);
    assert_eq!(c.wss_rtr_to_tgt_pending_ack_bytes, WATER_MARK_LOW);
    assert_eq!(c.target_connector_ack_bytes(1), vec![7]);
    assert!(c.is_wss_writable);
    assert!(c.waiting_readers.is_empty());
    assert_eq!(c.wss_tgt_connector_ack_bytes, WATER_MARK_HIGH + 2 - WATER_MARK_LOW);
    assert_eq!(c.target_connector_ack_bytes(1), Vec::<u64>::new());
}

#[test]
fn listeners_are_told_of_a_request() {
    let mut c = RequestContext::new(1, 1000);
    c.from_client_bytes = 3;
    c.to_client_bytes = 4;
    let socket = RouterSocketInfo {
        router_socket_id: "id".to_string(),
        route: "*".to_string(),
        component_name: "n".to_string(),
        connector_id: "c".to_string(),
        domain: "*".to_string(),
        service_address: SocketAddr { ip: IpAddr::V4(1), port: 2 },
        cranker_version: "cranker_3.0",
    };
    let info = c.info(&socket);
    assert_eq!(info.router_socket_id, "id");
    assert_eq!(info.bytes_received, 3);
    assert_eq!(info.bytes_sent, 4);
    assert!(info.error.is_none());
}

#[test]
fn streams_that_are_over() {
    assert!(!StreamState::Open.is_completed());
    assert!(!StreamState::HalfClose.is_completed());
    assert!(StreamState::Closed.is_completed());
    assert!(StreamState::Error.is_completed());
}
