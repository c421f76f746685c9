use axum::http::HeaderMap;
use scr_axum_cranker_router::config::CrankerRouterConfig;
use scr_axum_cranker_router::net::{IpAddr, RequestUri, SocketAddr};
use scr_axum_cranker_router::router_socket::RouterSocketInfo;
use scr_axum_cranker_router::router_socket_filter::DomainRouterSocketFilter;
use scr_axum_cranker_router::socket_search::{
    SearchAction, SearchEvent, SearchPhase, SocketSearch,
};
use std::sync::Arc;

fn candidate(id: &str) -> SearchEvent {
    SearchEvent::Candidate { router_socket_id: id.to_string(), is_removed: false, is_dark: false }
}

fn dark(id: &str) -> SearchEvent {
    SearchEvent::Candidate { router_socket_id: id.to_string(), is_removed: false, is_dark: true }
}

fn removed(id: &str) -> SearchEvent {
    SearchEvent::Candidate { router_socket_id: id.to_string(), is_removed: true, is_dark: false }
}

#[test]
fn first_socket_that_passes_is_used() {
    let mut s = CrankerRouterConfig::new().start_search("/a".to_string());
    assert!(matches!(&s.on_event(SearchEvent::Dead, false)[..], [SearchAction::Receive]));
    assert!(matches!(
        &s.on_event(removed("0"), false)[..],
        [SearchAction::RemoveFromFarm, SearchAction::Receive]
    ));
    assert!(matches!(&s.on_event(candidate("1"), false)[..], [SearchAction::AskFilter]));
    assert!(matches!(&s.on_event(SearchEvent::Filtered(true), false)[..], [SearchAction::Use]));
    assert_eq!(s.phase, SearchPhase::Ended);
    assert!(s.on_event(candidate("2"), false).is_empty());
}

#[test]
fn no_socket_is_asked_about_twice() {
    let mut s = SocketSearch::start("/a".to_string(), false, false);
    assert!(matches!(&s.on_event(candidate("1"), false)[..], [SearchAction::AskFilter]));
    assert!(matches!(
        &s.on_event(SearchEvent::Filtered(false), false)[..],
        [SearchAction::PutBack, SearchAction::Receive]
    ));
    match &s.on_event(candidate("1"), false)[..] {
        [SearchAction::PutBack, SearchAction::Fail(e)] => {
            assert_eq!(
                e.reason,
                "No valid cranker connector registered after filtering, target path = /a "
            );
            assert_eq!(e.opt_err_kind.unwrap().as_str(), "NoRouterSocketAvailable_0002");
            assert_eq!(e.opt_status_code, None);
        }
        other => panic!("{:?}", other),
    }
}

#[test]
fn search_falls_back_to_the_first_match_and_then_to_catch_all() {
    let mut s = SocketSearch::start("/a".to_string(), true, true);
    assert!(matches!(&s.on_event(SearchEvent::NoMore, true)[..], [SearchAction::Receive]));
    assert_eq!(s.phase, SearchPhase::FirstMatched);
    assert!(matches!(
        &s.on_event(removed("1"), true)[..],
        [SearchAction::RemoveFromFarm, SearchAction::Receive]
    ));
    assert!(matches!(&s.on_event(SearchEvent::NoMore, true)[..], [SearchAction::ReceiveCatchAll]));
    assert_eq!(s.phase, SearchPhase::CatchAll);
    assert!(matches!(&s.on_event(SearchEvent::Dead, true)[..], [SearchAction::ReceiveCatchAll]));
    assert!(matches!(&s.on_event(candidate("1"), true)[..], [SearchAction::Use]));
    let mut s = SocketSearch::start("/a".to_string(), false, true);
    assert!(matches!(&s.on_event(SearchEvent::NoMore, false)[..], [SearchAction::Fail(_)]));
    let mut s = SocketSearch::start("/a".to_string(), true, false);
    s.on_event(SearchEvent::NoMore, true);
    assert!(matches!(&s.on_event(candidate("1"), true)[..], [SearchAction::Use]));
}

#[test]
fn socket_of_a_dark_host_is_not_used() {
    let mut s = SocketSearch::start("/a".to_string(), false, false);
    assert!(matches!(
        &s.on_event(dark("1"), false)[..],
        [SearchAction::PutBack, SearchAction::Receive]
    ));
    assert!(matches!(&s.on_event(candidate("2"), false)[..], [SearchAction::AskFilter]));
    assert!(matches!(&s.on_event(SearchEvent::Filtered(true), false)[..], [SearchAction::Use]));
    let mut s = SocketSearch::start("/a".to_string(), true, true);
    s.on_event(dark("1"), true);
    assert!(matches!(
        &s.on_event(dark("1"), true)[..],
        [SearchAction::PutBack, SearchAction::Receive]
    ));
    assert_eq!(s.phase, SearchPhase::FirstMatched);
    assert!(matches!(
        &s.on_event(dark("1"), true)[..],
        [SearchAction::PutBack, SearchAction::Receive]
    ));
    assert!(matches!(
        &s.on_event(dark("1"), true)[..],
        [SearchAction::PutBack, SearchAction::ReceiveCatchAll]
    ));
    assert!(matches!(
        &s.on_event(dark("2"), true)[..],
        [SearchAction::PutBackCatchAll, SearchAction::ReceiveCatchAll]
    ));
    assert!(matches!(
        &s.on_event(dark("2"), true)[..],
        [SearchAction::PutBackCatchAll, SearchAction::Fail(_)]
    ));
    assert_eq!(s.phase, SearchPhase::Ended);
}

#[test]
fn filter_is_the_configured_one() {
    let c = CrankerRouterConfig::new()
        .with_router_socket_filter(Arc::new(DomainRouterSocketFilter::new()));
    let s = c.start_search("/a".to_string());
    assert!(s.fallback_to_first && !s.fallback_to_catch_all);
    let socket = RouterSocketInfo {
        router_socket_id: "1".to_string(),
        route: "a".to_string(),
        component_name: "n".to_string(),
        connector_id: "c".to_string(),
        domain: "a.b".to_string(),
        service_address: SocketAddr { ip: IpAddr::V4(1), port: 2 },
        cranker_version: "cranker_3.0",
    };
    let mut uri = RequestUri {
        scheme: None,
        host: Some("a.b".to_string()),
        path: "/a".to_string(),
        path_and_query: None,
    };
    let addr = SocketAddr { ip: IpAddr::V4(1), port: 2 };
    let get = "GET".to_string();
    let path = "/a".to_string();
    assert!(c.should_use(&path, &get, &uri, &HeaderMap::new(), &addr, &socket));
    uri.host = None;
    assert!(!c.should_use(&path, &get, &uri, &HeaderMap::new(), &addr, &socket));
    assert!(CrankerRouterConfig::new().should_use(
        &path,
        &get,
        &uri,
        &HeaderMap::new(),
        &addr,
        &socket
    ));
}
