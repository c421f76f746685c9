use axum::http::HeaderMap;
use dashmap::DashSet;
use scr_axum_cranker_router::config::{CrankerRouterConfig, CRANKER_V_1_0};
use scr_axum_cranker_router::net::{IpAddr, RequestUri, SocketAddr};
use scr_axum_cranker_router::route_resolver::{
    DefaultRouteResolver, LongestFirstRouteResolver, RouteResolver,
};
use scr_axum_cranker_router::router_socket::RouterSocketInfo;
use scr_axum_cranker_router::router_socket_filter::{
    DefaultRouterSocketFilter, DomainRouterSocketFilter, RouterSocketFilter,
};

#[test]
fn default_route_resolver_test() {
    let s = DashSet::new();
    let resolver = DefaultRouteResolver::new();
    s.insert("route".to_string());
    s.insert("router/v1/api".to_string());
    let res = resolver.resolve(&s, &"/route".to_string());
    assert_eq!(res, "route")
}

#[test]
fn test_vec_char_to_string() {
    let vec_char = vec!['a', 'b', 'c', 'd', 'e'];
    let res = LongestFirstRouteResolver::vec_char_to_string(&vec_char);
    assert_eq!(res.as_str(), "abcde")
}

#[test]
fn longest_first_route_resolver_test() {
    let s = DashSet::new();
    let resolver = LongestFirstRouteResolver::new();
    s.insert("my-service".to_string());
    s.insert("my-service/instance".to_string());
    s.insert("my-service/instance/api".to_string());

    assert_eq!(resolver.resolve(&s, &"/my-service/hello".to_string()), "my-service");
    assert_eq!(resolver.resolve(&s, &"my-service/hello".to_string()), "my-service");
    assert_eq!(
        resolver.resolve(&s, &"/my-service/instance/api/test".to_string()),
        "my-service/instance/api"
    );
    assert_eq!(
        resolver.resolve(&s, &"/my-service/instance/test".to_string()),
        "my-service/instance"
    );
    assert_eq!(resolver.resolve(&s, &"/non-exist/instance/test".to_string()), "*");
    assert_eq!(resolver.resolve(&s, &"/non-exist".to_string()), "*")
}

#[test]
fn path_that_no_route_is_found_for() {
    let s = DashSet::new();
    assert!(!LongestFirstRouteResolver::new().can_resolve(&s, &String::new()));
    assert!(LongestFirstRouteResolver::new().can_resolve(&s, &"/".to_string()));
    assert!(DefaultRouteResolver::new().can_resolve(&s, &String::new()));
    s.insert(String::new());
    assert!(LongestFirstRouteResolver::new().can_resolve(&s, &String::new()));
}

fn mock_router_socket() -> RouterSocketInfo {
    RouterSocketInfo {
        router_socket_id: "mock".to_string(),
        route: "mock".to_string(),
        component_name: "mock".to_string(),
        connector_id: "mock".to_string(),
        domain: "nyamori.moe".to_string(),
        service_address: SocketAddr { ip: IpAddr::V4(u32::MAX), port: u16::MAX },
        cranker_version: CRANKER_V_1_0,
    }
}

fn https_uri(host: &str) -> RequestUri {
    RequestUri {
        scheme: Some("https".to_string()),
        host: Some(host.to_string()),
        path: "/hi/there".to_string(),
        path_and_query: Some("/hi/there".to_string()),
    }
}

#[test]
fn test_domain_router_socket_filter() {
    let filter = DomainRouterSocketFilter::new();
    let rs = mock_router_socket();
    let config = CrankerRouterConfig::new();
    let addr = SocketAddr { ip: IpAddr::V4(0), port: 0 };
    assert_eq!(
        filter.should_use(
            &"/".to_string(),
            &"GET".to_string(),
            &https_uri("nyamori.moe"),
            &HeaderMap::new(),
            &addr,
            &config.settings,
            &rs,
        ),
        true
    );
    assert_eq!(
        filter.should_use(
            &"/".to_string(),
            &"GET".to_string(),
            &https_uri("github.com"),
            &HeaderMap::new(),
            &addr,
            &config.settings,
            &rs,
        ),
        false
    );
    assert!(filter.should_fallback_to_first_path_matched());
    assert!(!filter.should_fallback_to_catch_all());
}

#[test]
fn default_filter_lets_all_pass() {
    let filter = DefaultRouterSocketFilter::new();
    let config = CrankerRouterConfig::new();
    let addr = SocketAddr { ip: IpAddr::V4(0), port: 0 };
    assert!(filter.should_use(
        &"/".to_string(),
        &"GET".to_string(),
        &https_uri("github.com"),
        &HeaderMap::new(),
        &addr,
        &config.settings,
        &mock_router_socket(),
    ));
    assert!(!filter.should_fallback_to_first_path_matched());
}
