use dashmap::DashSet;
use scr_axum_cranker_router::config::CrankerRouterConfig;
use scr_axum_cranker_router::dark_host::DarkHost;
use scr_axum_cranker_router::net::{IpAddr, SocketAddr};
use scr_axum_cranker_router::proxy_info::ProxyInfo;
use scr_axum_cranker_router::route_resolver::{LongestFirstRouteResolver, RouteResolver};
use scr_axum_cranker_router::router_info::{collect_info, get_connector_service_list, SocketStatus};
use scr_axum_cranker_router::router_socket::RouterSocketInfo;
use scr_axum_cranker_router::connector_connection::{_if_ser_domain, _if_ser_inflight};
use scr_axum_cranker_router::websocket_farm::WebSocketFarm;
use std::sync::Arc;

fn socket(route: &str, id: &str, connector: &str) -> RouterSocketInfo {
    RouterSocketInfo {
        router_socket_id: id.to_string(),
        route: route.to_string(),
        component_name: format!("component of {}", id),
        connector_id: connector.to_string(),
        domain: "*".to_string(),
        service_address: SocketAddr { ip: IpAddr::V4(1), port: 8080 },
        cranker_version: "cranker_1.0",
    }
}

fn routes(farm: &WebSocketFarm) -> Vec<String> {
    let mut v: Vec<String> = farm.current_routes().iter().map(|r| r.clone()).collect();
    v.sort();
    v
}

fn ids(farm: &WebSocketFarm, route: &str) -> Vec<String> {
    let mut v: Vec<String> = farm
        .get_sockets()
        .into_iter()
        .filter(|(r, _)| r == route)
        .flat_map(|(_, s)| s.into_iter().map(|(id, _)| id))
        .collect();
    v.sort();
    v
}

#[test]
fn sockets_come_and_go() {
    let mut farm = WebSocketFarm::new(5000);
    farm.add_router_socket_in_background(socket("a", "1", "c"));
    farm.add_router_socket_in_background(socket("a", "2", "c"));
    farm.add_router_socket_in_background(socket("b", "3", "d"));
    assert_eq!(routes(&farm), vec!["a", "b"]);
    assert_eq!(ids(&farm, "a"), vec!["1", "2"]);
    assert_eq!(farm.idle_count(), 3);
    assert!(farm.remove_router_socket_in_background("a".to_string(), "1", 1000));
    assert_eq!(ids(&farm, "a"), vec!["2"]);
    assert_eq!(farm.idle_count(), 2);
    assert!(!farm.remove_router_socket_in_background("z".to_string(), "1", 1000));
    assert_eq!(farm.idle_count(), 2);
    assert!(farm.get_waiting_tasks().is_empty());
}

#[test]
fn route_is_kept_for_a_while_and_then_forgotten() {
    let mut farm = WebSocketFarm::new(5000);
    farm.add_router_socket_in_background(socket("a", "1", "c"));
    farm.add_router_socket_in_background(socket("b", "2", "c"));
    farm.remove_router_socket_in_background("a".to_string(), "1", 1000);
    farm.clean_routes_in_background(500, 1500);
    assert!(farm.start_waiting("a", "/a").is_ok());
    let (info, e) = farm.wait_timed_out("a".to_string(), "/a", 1500, 6500, IpAddr::V4(9));
    assert_eq!(e.opt_status_code, Some(503));
    assert_eq!(
        e.reason,
        "No cranker connector available within 5000 ms. target path = /a "
    );
    assert_eq!(info.socket_wait_in_millis(), 5000);
    assert_eq!(info.route(), "a");
    farm.clean_routes_in_background(500, 1501);
    assert_eq!(routes(&farm), vec!["b"]);
    let e = farm.start_waiting("a", "/a").err().unwrap();
    assert_eq!(e.opt_status_code, Some(404));
    assert_eq!(e.reason, "no router socket registered for this path yet: /a");
    farm.stop_waiting();
}

#[test]
fn connector_is_deregistered() {
    let mut farm = WebSocketFarm::new(5000);
    farm.add_router_socket_in_background(socket("a", "1", "c"));
    farm.add_router_socket_in_background(socket("a", "2", "d"));
    farm.add_router_socket_in_background(socket("b", "3", "c"));
    farm.de_register_router_socket_in_background("a".to_string(), "c");
    assert_eq!(ids(&farm, "a"), vec!["2"]);
    assert_eq!(ids(&farm, "b"), vec!["3"]);
    assert_eq!(routes(&farm), vec!["a", "b"]);
    farm.terminate_all();
    assert_eq!(routes(&farm), vec!["a", "b"]);
}

#[test]
fn path_is_resolved() {
    let mut farm = WebSocketFarm::new(5000);
    farm.add_router_socket_in_background(socket("a", "1", "c"));
    farm.add_router_socket_in_background(socket("a/b", "2", "c"));
    let c = CrankerRouterConfig::new();
    assert_eq!(farm.resolve_route(&c, &"/a/b/c".to_string()), "a");
    assert_eq!(farm.resolve_route(&c, &"/z".to_string()), "*");
    let c = c.with_route_resolver(Arc::new(LongestFirstRouteResolver::new()));
    assert_eq!(farm.resolve_route(&c, &"/a/b/c".to_string()), "a/b");
}

/// A resolver that empties the set that it is handed.
struct Emptier;

impl RouteResolver for Emptier {
    fn resolve(&self, routes: &DashSet<String>, target: &String) -> String {
        let n = routes.len();
        routes.clear();
        format!("{} {}", n, target)
    }
}

#[test]
fn resolver_is_handed_a_copy_of_the_routes() {
    let mut farm = WebSocketFarm::new(5000);
    farm.add_router_socket_in_background(socket("a", "1", "c"));
    let c = CrankerRouterConfig::new().with_route_resolver(Arc::new(Emptier));
    assert_eq!(farm.resolve_route(&c, &"/a".to_string()), "1 /a");
    farm.current_routes().clear();
    assert_eq!(routes(&farm), vec!["a"]);
}

fn dark(ip: u32, reason: &str) -> DarkHost {
    DarkHost { address: IpAddr::V4(ip), date_enabled: 1, reason: reason.to_string() }
}

#[test]
fn hosts_go_dark_and_come_back() {
    let mut farm = WebSocketFarm::new(5000);
    farm.enable_dark_mode(dark(1, "patching"));
    farm.enable_dark_mode(dark(1, "again"));
    let m = farm.dark_mode_manager();
    assert_eq!(m.get_dark_hosts().len(), 1);
    assert_eq!(m.find_host(IpAddr::V4(1)).unwrap().reason, "patching");
    assert!(m.find_host(IpAddr::V6(1)).is_none());
    assert!(dark(1, "a") == dark(1, "b"));
    assert!(dark(1, "a").same_host(IpAddr::V4(1)) && !dark(1, "a").same_host(IpAddr::V4(2)));
    farm.disable_dark_mode(dark(2, "x"));
    assert_eq!(farm.dark_mode_manager().get_dark_hosts().len(), 1);
    farm.disable_dark_mode(dark(1, "x"));
    assert!(farm.dark_mode_manager().get_dark_hosts().is_empty());
}

fn status(s: RouterSocketInfo, inflight: i32) -> SocketStatus {
    SocketStatus { socket: s, inflight }
}

#[test]
fn services_are_listed_by_connector() {
    let mut v3 = socket("a", "3", "c");
    v3.cranker_version = "cranker_3.0";
    v3.domain = "a.b".to_string();
    let list = get_connector_service_list(
        &vec![
            (
                "a".to_string(),
                vec![
                    status(socket("a", "1", "c"), -1),
                    status(socket("a", "2", "d"), -1),
                    status(v3, 4),
                ],
            ),
            ("*".to_string(), vec![]),
        ],
        &vec![dark(1, "x")],
    );
    assert_eq!(list.len(), 2);
    assert_eq!(list[0].route, "a");
    assert_eq!(list[0].component_name, "component of 3");
    assert!(!list[0].is_catch_all);
    assert_eq!(list[0].connectors.len(), 2);
    let c = &list[0].connectors[0];
    assert_eq!((c.connector_id.as_str(), c.connection_count, c.dark_mode), ("c", 2, true));
    assert_eq!(c.ip, IpAddr::V4(1));
    assert_eq!(c.connections[1].router_socket_id, "3");
    assert_eq!(c.connections[1].protocol, "cranker_3.0");
    assert_eq!(c.connections[1].inflight, 4);
    assert_eq!(c.connections[1].port, 8080);
    assert_eq!(c.connections[0].domain, "*");
    assert_eq!(c.connections[1].domain, "a.b");
    assert_eq!(list[0].connectors[1].connection_count, 1);
    assert_eq!(list[1].component_name, "[UNKNOWN]");
    assert!(list[1].is_catch_all && list[1].connectors.is_empty());
}

#[test]
fn only_sockets_for_one_request_heed_dark_mode() {
    let mut s = socket("a", "1", "c");
    assert!(s.is_dark_mode_on(&vec![dark(2, "x"), dark(1, "x")]));
    assert!(!s.is_dark_mode_on(&vec![dark(2, "x")]));
    let mut farm = WebSocketFarm::new(5000);
    assert!(!farm.is_dark(&s));
    farm.enable_dark_mode(dark(1, "x"));
    assert!(farm.is_dark(&s));
    s.cranker_version = "cranker_3.0";
    assert!(!s.is_dark_mode_on(&vec![dark(1, "x")]));
    assert!(!farm.is_dark(&s));
    s.cranker_version = "cranker_1.0";
    farm.disable_dark_mode(dark(1, "x"));
    assert!(!farm.is_dark(&s));
}

#[test]
fn taking_a_socket_out_undoes_putting_it_in() {
    let mut farm = WebSocketFarm::new(5000);
    farm.add_router_socket_in_background(socket("a", "1", "c"));
    farm.add_router_socket_in_background(socket("a", "2", "c"));
    assert_eq!(farm.idle_count(), 2);
    assert!(farm.remove_router_socket_in_background("a".to_string(), "2", 10));
    assert_eq!(farm.idle_count(), 1);
    let all = farm.get_sockets();
    assert_eq!((all.len(), all[0].1.len(), all[0].1[0].0.as_str()), (1, 1, "1"));
}

#[test]
fn info_is_collected() {
    let mut farm = WebSocketFarm::new(5000);
    farm.enable_dark_mode(dark(1, "x"));
    let info =
        collect_info(&farm, &vec![("a".to_string(), vec![status(socket("a", "1", "c"), -1)])]);
    assert_eq!(info.dark_hosts.len(), 1);
    assert!(info.services[0].connectors[0].dark_mode);
    assert!(info.waiting_tasks.is_empty());
}

#[test]
fn what_is_not_shown_of_a_connection() {
    assert!(_if_ser_domain(&"*".to_string()));
    assert!(!_if_ser_domain(&"a".to_string()));
    assert!(_if_ser_inflight(&-1));
    assert!(!_if_ser_inflight(&0));
}

#[test]
fn error_info_of_a_route_without_socket() {
    let mut farm = WebSocketFarm::new(1);
    let (info, _) = farm.wait_timed_out("*".to_string(), "/a", 5, 7, IpAddr::V4(9));
    assert_eq!(info.service_address().ip, IpAddr::V4(9));
    assert!(info.is_catch_all());
    assert_eq!(info.domain(), "*");
    assert_eq!(info.bytes_sent(), 0);
    assert_eq!(info.bytes_received(), 0);
    assert!(info.error_if_any().is_none());
}
