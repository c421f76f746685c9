//! What a farm of sockets keeps, and how a socket is picked from it.

use crate::config::{CrankerRouterConfig, CRANKER_V_1_0};
use crate::dark_host::DarkHost;
use crate::dark_mode_manager::DarkModeManager;
use crate::exceptions::{CrankerRouterException, CrexKind};
use crate::net::IpAddr;
use crate::route_map::lists_sockets;
use crate::router_socket::RouterSocketInfo;
use crate::socket_search::{
    search_actions, SearchAction, SearchActionView, SearchEvent, SearchPhase, SocketSearch,
};
use crate::text;
use crate::websocket_farm::{ErrorProxyInfo, WebSocketFarm};
use vstd::prelude::*;

verus! {

/// Whether a farm holds a socket under a route and an identifier.
pub open spec fn holds(f: WebSocketFarm, route: Seq<char>, id: Seq<char>) -> bool {
    f.state().sockets.dom().contains(route) && f.state().sockets[route].dom().contains(id)
}

/// A new farm holds no socket, serves no route and has counted nothing.
pub proof fn law_new_farm(max_wait: i64, f: WebSocketFarm, route: Seq<char>, id: Seq<char>)
    requires
        call_ensures(WebSocketFarm::new, (max_wait,), f),
    ensures
        !holds(f, route, id),
        !f.state().routes.contains(route),
        f.state().idle == 0,
        f.state().waiting == 0,
        f.state().max_wait == max_wait,
{
}

/// A socket that was added is there, its route can be asked for, one more socket is idle, and the
/// other sockets and routes are as they were.
pub proof fn law_added_socket_is_there(
    before: WebSocketFarm,
    after: WebSocketFarm,
    s: RouterSocketInfo,
    route: Seq<char>,
    id: Seq<char>,
)
    requires
        exists|m: &mut WebSocketFarm|
            *m == before && *final(m) == after && #[trigger] call_ensures(
                WebSocketFarm::add_router_socket_in_background,
                (m, s),
                (),
            ),
    ensures
        holds(after, s.route@, s.router_socket_id@),
        after.state().sockets[s.route@][s.router_socket_id@] == s,
        after.state().routes.contains(s.route@),
        before.state().idle < i32::MAX ==> after.state().idle == before.state().idle + 1,
        route != s.route@ || id != s.router_socket_id@ ==> holds(after, route, id) == holds(
            before,
            route,
            id,
        ) && (holds(before, route, id) ==> after.state().sockets[route][id]
            == before.state().sockets[route][id]),
        route != s.route@ ==> after.state().routes.contains(route)
            == before.state().routes.contains(route),
        after.state().waiting == before.state().waiting,
        after.state().removal_times == before.state().removal_times,
{
}

/// A socket that was removed is not there any more, one less is idle, the time is kept, and the
/// other sockets and all routes are as they were.
pub proof fn law_removed_socket_is_gone(
    before: WebSocketFarm,
    after: WebSocketFarm,
    at: String,
    gone: &str,
    now: i64,
    r: bool,
    route: Seq<char>,
    id: Seq<char>,
)
    requires
        exists|m: &mut WebSocketFarm|
            *m == before && *final(m) == after && #[trigger] call_ensures(
                WebSocketFarm::remove_router_socket_in_background,
                (m, at, gone, now),
                r,
            ),
    ensures
        !holds(after, at@, gone@),
        holds(before, at@, gone@) ==> r,
        before.state().idle > i32::MIN && r ==> after.state().idle == before.state().idle - 1,
        !r ==> after.state().idle == before.state().idle,
        after.state().removal_times.dom().contains(at@),
        after.state().removal_times[at@] == now,
        route != at@ || id != gone@ ==> holds(after, route, id) == holds(before, route, id) && (
        holds(before, route, id) ==> after.state().sockets[route][id]
            == before.state().sockets[route][id]),
        after.state().routes == before.state().routes,
        after.state().waiting == before.state().waiting,
{
}

/// When a connector deregisters from a route, its sockets on that route go; those of other
/// connectors, and those on other routes, stay.
pub proof fn law_deregistered_connector_is_gone(
    before: WebSocketFarm,
    after: WebSocketFarm,
    at: String,
    connector_id: &str,
    route: Seq<char>,
    id: Seq<char>,
)
    requires
        exists|m: &mut WebSocketFarm|
            *m == before && *final(m) == after && #[trigger] call_ensures(
                WebSocketFarm::de_register_router_socket_in_background,
                (m, at, connector_id),
                (),
            ),
    ensures
        holds(after, route, id) <==> holds(before, route, id) && !(route == at@
            && before.state().sockets[route][id].connector_id@ == connector_id@),
        holds(after, route, id) ==> after.state().sockets[route][id]
            == before.state().sockets[route][id],
        after.state().routes == before.state().routes,
        after.state().idle == before.state().idle,
{
}

/// A route is forgotten when it has no socket, and its last one went longer ago than routes are
/// kept for; no other is, and no socket is.
pub proof fn law_empty_routes_are_forgotten(
    before: WebSocketFarm,
    after: WebSocketFarm,
    keep_time: i64,
    now: i64,
    route: Seq<char>,
    id: Seq<char>,
)
    requires
        exists|m: &mut WebSocketFarm|
            *m == before && *final(m) == after && #[trigger] call_ensures(
                WebSocketFarm::clean_routes_in_background,
                (m, keep_time, now),
                (),
            ),
        keep_time >= 0,
        now >= 0,
    ensures
        holds(after, route, id) == holds(before, route, id),
        holds(before, route, id) ==> after.state().sockets[route][id]
            == before.state().sockets[route][id] && after.state().routes.contains(route)
            == before.state().routes.contains(route),
        before.state().routes.contains(route) && !after.state().routes.contains(route) ==> (
        before.state().removal_times.dom().contains(route) && now
            - before.state().removal_times[route] > keep_time),
        after.state().routes.contains(route) ==> before.state().routes.contains(route),
        before.state().sockets.dom().contains(route) && (forall|k: Seq<char>|
            !(#[trigger] before.state().sockets[route].dom().contains(k)))
            && before.state().removal_times.dom().contains(route) && now
            - before.state().removal_times[route] > keep_time ==> !after.state().routes.contains(
            route,
        ) && !after.state().sockets.dom().contains(route),
        after.state().idle == before.state().idle,
{
    let cut_off: i64 = (now - keep_time) as i64;
    if holds(before, route, id) {
        assert(before.state().sockets[route].dom().contains(id));
        assert(!before.state().is_expired(route, cut_off));
    }
    if before.state().sockets.dom().contains(route) && (forall|k: Seq<char>|
        !(#[trigger] before.state().sockets[route].dom().contains(k))) {
        assert(before.state().sockets[route].dom() =~= Set::<Seq<char>>::empty());
    }
}

/// When all are terminated no socket is left.
pub proof fn law_terminated_farm_is_empty(
    before: WebSocketFarm,
    after: WebSocketFarm,
    route: Seq<char>,
    id: Seq<char>,
)
    requires
        exists|m: &mut WebSocketFarm|
            *m == before && *final(m) == after && #[trigger] call_ensures(
                WebSocketFarm::terminate_all,
                (m,),
                (),
            ),
    ensures
        !holds(after, route, id),
{
}

/// A request waits for a route that can be asked for, and is answered with a 404 on any other; one
/// more waits then, and one less when it has stopped.
pub proof fn law_request_waits(
    before: WebSocketFarm,
    after: WebSocketFarm,
    last: WebSocketFarm,
    route: &str,
    path: &str,
    r: Result<(), CrankerRouterException>,
)
    requires
        exists|m: &mut WebSocketFarm|
            *m == before && *final(m) == after && #[trigger] call_ensures(
                WebSocketFarm::start_waiting,
                (m, route, path),
                r,
            ),
        exists|m: &mut WebSocketFarm|
            *m == after && *final(m) == last && #[trigger] call_ensures(
                WebSocketFarm::stop_waiting,
                (m,),
                (),
            ),
    ensures
        r is Ok <==> before.state().routes.contains(route@),
        r is Ok && before.state().waiting < i32::MAX ==> after.state().waiting
            == before.state().waiting + 1 && last.state() == before.state(),
        r matches Err(e) ==> e@.opt_status_code == Some(404u16) && e@.opt_err_kind == Some(
            CrexKind::NoRouterSocketAvailable_0002,
        ) && e@.reason == "no router socket registered for this path yet: "@ + path@
            && after.state() == before.state(),
        after.state().sockets == before.state().sockets,
        after.state().routes == before.state().routes,
        last.state().sockets == before.state().sockets,
{
    assert(last.state().routes =~= before.state().routes);
    if r is Ok && before.state().waiting < i32::MAX {
        assert(last.state() =~= before.state());
    }
}

/// A request that has waited in vain is answered with a 503, and the listeners are told how long it
/// waited, and for which route.
pub proof fn law_wait_in_vain(
    before: WebSocketFarm,
    after: WebSocketFarm,
    route: String,
    path: &str,
    start: i64,
    now: i64,
    local_ip: IpAddr,
    r: (ErrorProxyInfo, CrankerRouterException),
)
    requires
        exists|m: &mut WebSocketFarm|
            *m == before && *final(m) == after && #[trigger] call_ensures(
                WebSocketFarm::wait_timed_out,
                (m, route, path, start, now, local_ip),
                r,
            ),
        0 <= start,
        0 <= now,
    ensures
        r.0.route == route && r.0.socket_wait_in_millis == now - start && r.0.local_ip == local_ip,
        r.1@.opt_status_code == Some(503u16),
        r.1@.opt_err_kind == Some(CrexKind::NoRouterSocketAvailable_0002),
        r.1@.reason == "No cranker connector available within "@ + text::decimal_int(
            before.state().max_wait as int,
        ) + " ms. target path = "@ + path@ + " "@,
        before.state().waiting > i32::MIN ==> after.state().waiting == before.state().waiting - 1,
        after.state().sockets == before.state().sockets,
        after.state().routes == before.state().routes,
{
}

/// What the farm gives as its routes is what can be asked for, and what it counts as idle is what
/// it has counted.
pub proof fn law_farm_is_seen(f: &WebSocketFarm, idle: i32, manager: &DarkModeManager)
    requires
        call_ensures(WebSocketFarm::idle_count, (f,), idle),
        call_ensures(WebSocketFarm::dark_mode_manager, (f,), manager),
    ensures
        idle == f.state().idle,
        *manager == f.dark(),
{
}

/// The list of sockets, route by route, names no route twice, and has under a route exactly the
/// sockets that the farm holds there.
pub proof fn law_sockets_are_listed(
    f: &WebSocketFarm,
    r: Vec<(String, Vec<(String, RouterSocketInfo)>)>,
    i: int,
    id: Seq<char>,
)
    requires
        call_ensures(WebSocketFarm::get_sockets, (f,), r),
        0 <= i < r@.len(),
    ensures
        holds(*f, r@[i].0@, id) <==> exists|j: int|
            0 <= j < r@[i].1@.len() && (#[trigger] r@[i].1@[j]).0@ == id,
        forall|j: int|
            0 <= j < r@[i].1@.len() && (#[trigger] r@[i].1@[j]).0@ == id ==> r@[i].1@[j].1
                == f.state().sockets[r@[i].0@][id],
        forall|k: int| 0 <= k < r@.len() && k != i ==> (#[trigger] r@[k]).0@ != r@[i].0@,
{
    assert(lists_sockets(r@[i].1@, f.state().sockets[r@[i].0@]));
}

/// A host that was put into dark mode is found, with what was said of it first, until it is let out
/// again; then it is not, and the other hosts are as they were all along.
pub proof fn law_dark_mode(
    before: DarkModeManager,
    during: DarkModeManager,
    after: DarkModeManager,
    host: DarkHost,
    other: IpAddr,
    found_first: Option<DarkHost>,
    found: Option<DarkHost>,
    found_last: Option<DarkHost>,
    other_first: Option<DarkHost>,
    other_found: Option<DarkHost>,
    other_last: Option<DarkHost>,
)
    requires
        exists|m: &mut DarkModeManager|
            *m == before && *final(m) == during && #[trigger] call_ensures(
                DarkModeManager::enable_dark_mode,
                (m, host),
                (),
            ),
        exists|m: &mut DarkModeManager|
            *m == during && *final(m) == after && #[trigger] call_ensures(
                DarkModeManager::disable_dark_mode,
                (m, host),
                (),
            ),
        call_ensures(DarkModeManager::find_host, (&before, host.address), found_first),
        call_ensures(DarkModeManager::find_host, (&during, host.address), found),
        call_ensures(DarkModeManager::find_host, (&after, host.address), found_last),
        call_ensures(DarkModeManager::find_host, (&before, other), other_first),
        call_ensures(DarkModeManager::find_host, (&during, other), other_found),
        call_ensures(DarkModeManager::find_host, (&after, other), other_last),
    ensures
        found == (match found_first {
            Some(first) => Some(first),
            None => Some(host),
        }),
        found_last is None,
        other != host.address ==> other_found == other_first && other_last == other_first,
{
}

/// No host is in dark mode at first.
pub proof fn law_no_dark_host(m: DarkModeManager, ip: IpAddr, found: Option<DarkHost>)
    requires
        call_ensures(DarkModeManager::new, (), m),
        call_ensures(DarkModeManager::find_host, (&m, ip), found),
    ensures
        found is None,
{
}

/// The list of dark hosts holds each host that is found, and no other.
pub proof fn law_dark_hosts_are_listed(
    m: &DarkModeManager,
    list: Vec<DarkHost>,
    ip: IpAddr,
    found: Option<DarkHost>,
)
    requires
        m.wf(),
        call_ensures(DarkModeManager::get_dark_hosts, (m,), list),
        call_ensures(DarkModeManager::find_host, (m, ip), found),
    ensures
        found is Some <==> exists|i: int|
            0 <= i < list@.len() && (#[trigger] list@[i]).address == ip,
        found is Some ==> list@.contains(found->0),
{
    if found is Some {
        let i = choose|i: int| 0 <= i < list@.len() && (#[trigger] list@[i]).address == ip;
        assert(list@[i] == found->0);
    }
}

/// In the farm too: a socket of a host that was put into dark mode is dark if it serves one request
/// at a time, and one of a host that was let out is not.
pub proof fn law_dark_sockets(
    before: WebSocketFarm,
    during: WebSocketFarm,
    after: WebSocketFarm,
    host: DarkHost,
    s: RouterSocketInfo,
    dark_first: bool,
    dark: bool,
    dark_last: bool,
)
    requires
        exists|m: &mut WebSocketFarm|
            *m == before && *final(m) == during && #[trigger] call_ensures(
                WebSocketFarm::enable_dark_mode,
                (m, host),
                (),
            ),
        exists|m: &mut WebSocketFarm|
            *m == during && *final(m) == after && #[trigger] call_ensures(
                WebSocketFarm::disable_dark_mode,
                (m, host),
                (),
            ),
        call_ensures(WebSocketFarm::is_dark, (&before, &s), dark_first),
        call_ensures(WebSocketFarm::is_dark, (&during, &s), dark),
        call_ensures(WebSocketFarm::is_dark, (&after, &s), dark_last),
    ensures
        s.service_address.ip == host.address ==> !dark_last && (dark <==> s.cranker_version@
            == CRANKER_V_1_0@),
        s.service_address.ip != host.address ==> dark == dark_first && dark_last == dark_first,
        during.state() == before.state() && after.state() == before.state(),
{
}

/// What [`SocketSearch::on_event`] may do: use the socket that was received last only if it is
/// there and not dark, and has passed the filter or need not; and the search is over then, as it is
/// when it gives up.
pub proof fn law_use_ends_the_search(
    before: SocketSearch,
    after: SocketSearch,
    ev: SearchEvent,
    catch_all_exists: bool,
    r: Vec<SearchAction>,
)
    requires
        exists|m: &mut SocketSearch|
            *m == before && *final(m) == after && #[trigger] call_ensures(
                SocketSearch::on_event,
                (m, ev, catch_all_exists),
                r,
            ),
    ensures
        ({
            let out = search_actions(r@);
            let fit = ev matches SearchEvent::Candidate { is_removed, is_dark, .. } && !is_removed
                && !is_dark;
            &&& out.contains(SearchActionView::Use) <==> (match before.phase {
                SearchPhase::Filtering => ev == SearchEvent::Filtered(true),
                SearchPhase::FirstMatched | SearchPhase::CatchAll => fit,
                SearchPhase::Ended => false,
            })
            &&& out.contains(SearchActionView::Use) ==> out == seq![SearchActionView::Use]
                && after.phase is Ended
            &&& before.phase is Ended ==> out.len() == 0 && after.phase is Ended
            &&& after.target_path@ == before.target_path@
            &&& after.fallback_to_first == before.fallback_to_first
            &&& after.fallback_to_catch_all == before.fallback_to_catch_all
        }),
{
    let out = search_actions(r@);
    assert(after@.target_path == after.target_path@);
    let one = seq![SearchActionView::Use];
    assert(one[0] == SearchActionView::Use);
}

/// The filter is asked about a socket that comes for the first time, is there and is not dark; if
/// it does not let the socket pass, the socket is put back and the next is received.
pub proof fn law_filter_is_asked(
    before: SocketSearch,
    asked: SocketSearch,
    refused: SocketSearch,
    id: String,
    catch_all_exists: bool,
    r: Vec<SearchAction>,
    next: Vec<SearchAction>,
)
    requires
        before.phase is Filtering,
        !before@.visited.contains(id@),
        exists|m: &mut SocketSearch|
            *m == before && *final(m) == asked && #[trigger] call_ensures(
                SocketSearch::on_event,
                (
                    m,
                    SearchEvent::Candidate {
                        router_socket_id: id,
                        is_removed: false,
                        is_dark: false,
                    },
                    catch_all_exists,
                ),
                r,
            ),
        exists|m: &mut SocketSearch|
            *m == asked && *final(m) == refused && #[trigger] call_ensures(
                SocketSearch::on_event,
                (m, SearchEvent::Filtered(false), catch_all_exists),
                next,
            ),
    ensures
        search_actions(r@) == seq![SearchActionView::AskFilter],
        asked.phase is Filtering && asked@.visited == before@.visited.push(id@),
        search_actions(next@) == seq![SearchActionView::PutBack, SearchActionView::Receive],
        refused.phase is Filtering && refused@.visited == asked@.visited,
{
    assert(search_actions(r@) =~= seq![SearchActionView::AskFilter]);
    assert(search_actions(next@) =~= seq![SearchActionView::PutBack, SearchActionView::Receive]);
    assert(asked@.phase == asked.phase);
    assert(refused@.phase == refused.phase);
}

/// A socket that was removed leaves the farm, and one that does not exist is passed over; the next
/// of the same route is received.
pub proof fn law_removed_socket_leaves(
    before: SocketSearch,
    after: SocketSearch,
    ev: SearchEvent,
    catch_all_exists: bool,
    r: Vec<SearchAction>,
)
    requires
        exists|m: &mut SocketSearch|
            *m == before && *final(m) == after && #[trigger] call_ensures(
                SocketSearch::on_event,
                (m, ev, catch_all_exists),
                r,
            ),
        !(before.phase is Ended),
        ev is Dead || (ev matches SearchEvent::Candidate { router_socket_id, is_removed, .. }
            && is_removed && !before@.visited.contains(router_socket_id@)),
    ensures
        search_actions(r@) == (if ev is Dead {
            Seq::empty()
        } else {
            seq![SearchActionView::RemoveFromFarm]
        }) + seq![
            if before.phase is CatchAll {
                SearchActionView::ReceiveCatchAll
            } else {
                SearchActionView::Receive
            },
        ],
        after.phase == before.phase,
{
    assert(search_actions(r@) =~= (if ev is Dead {
        Seq::empty()
    } else {
        seq![SearchActionView::RemoveFromFarm]
    }) + seq![
        if before.phase is CatchAll {
            SearchActionView::ReceiveCatchAll
        } else {
            SearchActionView::Receive
        },
    ]);
    assert(after@.phase == after.phase);
}

/// When no more sockets come, or one comes round, the search goes on where it may fall back to: to
/// the first socket of the route if that is allowed and was not tried, then to the catch-all route
/// if that is allowed and exists. It gives up when neither is left.
pub proof fn law_search_falls_back(
    before: SocketSearch,
    after: SocketSearch,
    ev: SearchEvent,
    catch_all_exists: bool,
    r: Vec<SearchAction>,
)
    requires
        exists|m: &mut SocketSearch|
            *m == before && *final(m) == after && #[trigger] call_ensures(
                SocketSearch::on_event,
                (m, ev, catch_all_exists),
                r,
            ),
        !(before.phase is Ended),
        ev is NoMore || (ev matches SearchEvent::Candidate {
            router_socket_id,
            is_removed,
            is_dark,
        } && before@.visited.contains(router_socket_id@) && (before.phase is Filtering || (
        !is_removed && is_dark))),
    ensures
        ({
            let out = search_actions(r@);
            let n = if ev is NoMore {
                0int
            } else {
                1int
            };
            &&& out.len() == n + 1
            &&& !(ev is NoMore) ==> out[0] == (if before.phase is CatchAll {
                SearchActionView::PutBackCatchAll
            } else {
                SearchActionView::PutBack
            })
            &&& if before.phase is Filtering && before.fallback_to_first {
                out[n] is Receive && after.phase is FirstMatched && after.visited@.len() == 0
            } else if !(before.phase is CatchAll) && before.fallback_to_catch_all
                && catch_all_exists {
                out[n] is ReceiveCatchAll && after.phase is CatchAll && after.visited@.len() == 0
            } else {
                after.phase is Ended && (out[n] matches SearchActionView::Fail(e)
                    && e.opt_err_kind == Some(CrexKind::NoRouterSocketAvailable_0002)
                    && e.opt_status_code is None && e.reason
                    == "No valid cranker connector registered after filtering, target path = "@
                    + before.target_path@ + " "@)
            }
        }),
{
    assert(after@.phase == after.phase);
    assert(after@.visited.len() == after.visited@.len());
}

/// A search starts with the filter; without a filter of its own it falls back to nothing, and never
/// to a catch-all that is not allowed.
pub proof fn law_search_starts(config: &CrankerRouterConfig, path: String, s: SocketSearch)
    requires
        call_ensures(CrankerRouterConfig::start_search, (config, path), s),
    ensures
        s.phase is Filtering,
        s.target_path@ == path@,
        s.visited@.len() == 0,
        config.router_socket_filter is None ==> !s.fallback_to_first && !s.fallback_to_catch_all,
        !config.settings.allow_catch_all ==> !s.fallback_to_catch_all,
{
    assert(s@.visited.len() == s.visited@.len());
}

/// A search is started as it is asked for.
pub proof fn law_search_is_started(path: String, first: bool, catch_all: bool, s: SocketSearch)
    requires
        call_ensures(SocketSearch::start, (path, first, catch_all), s),
    ensures
        s.phase is Filtering && s.target_path@ == path@ && s.visited@.len() == 0,
        s.fallback_to_first == first,
        s.fallback_to_catch_all == catch_all,
{
    assert(s@.visited.len() == s.visited@.len());
}


/// Where no filter is asked, a dark socket that comes for the first time is put back and
/// remembered, and the next of the same route is received.
pub proof fn law_dark_socket_is_put_back(
    before: SocketSearch,
    after: SocketSearch,
    id: String,
    catch_all_exists: bool,
    r: Vec<SearchAction>,
)
    requires
        exists|m: &mut SocketSearch|
            *m == before && *final(m) == after && #[trigger] call_ensures(
                SocketSearch::on_event,
                (
                    m,
                    SearchEvent::Candidate {
                        router_socket_id: id,
                        is_removed: false,
                        is_dark: true,
                    },
                    catch_all_exists,
                ),
                r,
            ),
        !(before.phase is Ended),
        !before@.visited.contains(id@),
    ensures
        after@.visited == before@.visited.push(id@) && after.phase == before.phase,
        search_actions(r@) == (if before.phase is CatchAll {
            seq![SearchActionView::PutBackCatchAll, SearchActionView::ReceiveCatchAll]
        } else {
            seq![SearchActionView::PutBack, SearchActionView::Receive]
        }),
{
    assert(after@.phase == after.phase);
    assert(search_actions(r@) =~= (if before.phase is CatchAll {
        seq![SearchActionView::PutBackCatchAll, SearchActionView::ReceiveCatchAll]
    } else {
        seq![SearchActionView::PutBack, SearchActionView::Receive]
    }));
}

} // verus!
