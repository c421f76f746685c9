use scr_axum_cranker_router::config::{
    check_supported_cranker_version, check_via_name, contains_name, find_version, hop_by_hop,
    panic_if_less_than_zero, CrankerRouterBuilder, CrankerRouterConfig, CRANKER_V_1_0,
    CRANKER_V_3_0,
};
use scr_axum_cranker_router::ip_validator::{AllowAll, IPValidator};
use scr_axum_cranker_router::net::IpAddr;
use scr_axum_cranker_router::proxy_listener::{DefaultProxyListener, ProxyListener};
use scr_axum_cranker_router::route_resolver::LongestFirstRouteResolver;
use scr_axum_cranker_router::router_socket_filter::DomainRouterSocketFilter;
use std::sync::Arc;

#[test]
fn defaults() {
    let c = CrankerRouterConfig::new();
    assert_eq!(c.settings.via_name, "scr-axum");
    assert_eq!(c.settings.idle_read_timeout_ms, 5 * 60 * 1000);
    assert_eq!(c.settings.routes_keep_time_millis, 2 * 60 * 60 * 1000);
    assert_eq!(c.settings.ping_sent_after_no_write_for_ms, 10_000);
    assert_eq!(c.settings.connector_max_wait_time_millis, 5_000);
    assert!(c.settings.allow_catch_all);
    assert!(!c.settings.discard_client_forwarded_headers);
    assert!(!c.settings.send_legacy_forwarded_headers);
    assert_eq!(c.settings.do_not_proxy_headers.len(), 17);
    assert_eq!(find_version(&c.settings.supported_cranker_protocols, "1.0"), Some(CRANKER_V_1_0));
    assert_eq!(find_version(&c.settings.supported_cranker_protocols, "3.0"), Some(CRANKER_V_3_0));
    assert_eq!(find_version(&c.settings.supported_cranker_protocols, "2.0"), None);
    assert!(c.allows(IpAddr::V4(1)));
}

#[test]
fn each_setting_is_set() {
    let c = CrankerRouterBuilder::new()
        .with_discard_client_forwarded_headers(true)
        .with_send_legacy_forwarded_headers(true)
        .with_via_name("via".to_string())
        .with_idle_read_timeout_ms(1)
        .with_routes_keep_time_millis(2)
        .with_ping_sent_after_no_write_for_ms(3)
        .with_connector_max_wait_time_millis(4)
        .should_allow_catch_all(false)
        .with_supported_cranker_version(vec!["CRANKER_3.0".to_string()])
        .with_proxy_listeners(vec![
            Arc::new(DefaultProxyListener::new()) as Arc<dyn ProxyListener>
        ])
        .with_route_resolver(Arc::new(LongestFirstRouteResolver::new()))
        .with_router_socket_filter(Arc::new(DomainRouterSocketFilter::new()))
        .with_registration_ip_validator(Arc::new(AllowAll::new()));
    assert!(c.settings.discard_client_forwarded_headers);
    assert!(c.settings.send_legacy_forwarded_headers);
    assert_eq!(c.settings.via_name, "via");
    assert_eq!(c.settings.idle_read_timeout_ms, 1);
    assert_eq!(c.settings.routes_keep_time_millis, 2);
    assert_eq!(c.settings.ping_sent_after_no_write_for_ms, 3);
    assert_eq!(c.settings.connector_max_wait_time_millis, 4);
    assert!(!c.settings.allow_catch_all);
    assert_eq!(c.settings.supported_cranker_protocols, vec![("3.0", "cranker_3.0")]);
    assert_eq!(c.proxy_listeners.len(), 1);
    assert!(c.route_resolver.is_some());
    assert!(c.router_socket_filter.is_some());
    assert!(c.registration_ip_validator.is_some());
}

#[test]
fn host_header_can_be_held_back_and_let_through() {
    let c = CrankerRouterConfig::new();
    assert!(!contains_name(&c.settings.do_not_proxy_headers, "host"));
    let c = c.should_proxy_host_header(false).should_proxy_host_header(false);
    assert!(contains_name(&c.settings.do_not_proxy_headers, "host"));
    assert!(contains_name(&c.settings.do_not_proxy_headers, "via"));
    let c = c.should_proxy_host_header(true);
    assert!(!contains_name(&c.settings.do_not_proxy_headers, "host"));
    assert!(contains_name(&c.settings.do_not_proxy_headers, "via"));
}

struct OnlyOne;

impl IPValidator for OnlyOne {
    fn allow(&self, ip: IpAddr) -> bool {
        ip == IpAddr::V4(7)
    }
}

#[test]
fn validator_decides() {
    assert!(AllowAll::new().allow(IpAddr::V6(0)));
    let c = CrankerRouterConfig::new().with_registration_ip_validator(Arc::new(OnlyOne));
    assert!(c.allows(IpAddr::V4(7)));
    assert!(!c.allows(IpAddr::V4(8)));
}

#[test]
fn test_non_ascii_char_in_via() {
    assert_eq!(
        check_via_name(&"🏦".to_string()),
        Err("non ascii letter in via header: \"🏦\"".to_string())
    );
}

#[test]
fn test_invalid_ascii_char_in_via() {
    assert_eq!(
        check_via_name(&"[]".to_string()),
        Err("not allowed character in via header: \"[\"".to_string())
    );
}

#[test]
fn test_hyphen_in_via() {
    assert_eq!(
        check_via_name(&"a-b".to_string()),
        Err("hyphen should only be at the beginning or the end of the via header!".to_string())
    );
}

#[test]
fn via_names_that_are_allowed() {
    let long = "a".repeat(1023);
    for name in [
        "",
        "-",
        "-a",
        "a-",
        "0123456789abcdefghijklmnopqrstuvwxyzABCDEFGHIJKLMNOPQRSTUVWXYZ!#$%&'*+,.^_`|~:",
        long.as_str(),
    ] {
        assert_eq!(check_via_name(&name.to_string()), Ok(()));
    }
    assert_eq!(
        check_via_name(&"a".repeat(1024)),
        Err("The via name you set is too long!".to_string())
    );
}

#[test]
fn negative_settings_are_refused() {
    assert_eq!(panic_if_less_than_zero("x", 0), Ok(()));
    assert_eq!(
        panic_if_less_than_zero("x", -1),
        Err("x must be greater or equals to 0".to_string())
    );
}

#[test]
fn versions_that_are_refused() {
    assert_eq!(
        check_supported_cranker_version(&vec![]),
        Err("No supported cranker version provided.".to_string())
    );
    assert_eq!(
        check_supported_cranker_version(&vec!["1.0".to_string(), "2.0".to_string()]),
        Err("Not supported cranker version: 2.0".to_string())
    );
    assert_eq!(
        check_supported_cranker_version(&vec!["Cranker_1.0".to_string(), "3.0".to_string()]),
        Ok(vec![("1.0", "cranker_1.0"), ("3.0", "cranker_3.0")])
    );
}

#[test]
fn headers_of_one_connection() {
    for name in [
        "keep-alive",
        "transfer-encoding",
        "te",
        "connection",
        "trailer",
        "upgrade",
        "proxy-authorization",
        "proxy-authenticate",
    ] {
        assert!(hop_by_hop(name));
    }
    assert!(!hop_by_hop("host"));
    assert!(!hop_by_hop("Connection"));
}
