//! The farm: the sockets that wait for clients' requests.

use crate::config::{CrankerRouterConfig, CRANKER_V_1_0};
use crate::dark_host::DarkHost;
use crate::dark_mode_manager::DarkModeManager;
use crate::dash::{set_clone, set_contains, set_insert, set_new, set_remove};
use crate::exceptions::{CrankerRouterException, CrexKind, ExceptionView};
use crate::net::{IpAddr, SocketAddr};
use crate::proxy_info::ProxyInfo;
use crate::route_map::{
    routes_insert, routes_keys, routes_list, routes_new, routes_remove, sockets_insert, sockets_is_empty,
    sockets_list, sockets_new, sockets_remove, times_get, times_insert, times_new,
};
use crate::route_resolver::{
    first_segment_route, may_resolve, DefaultRouteResolver, RouteResolver,
};
use crate::router_socket::RouterSocketInfo;
use crate::{dash, route_map, text};
use dashmap::{DashMap, DashSet};
use vstd::prelude::*;

verus! {

/// A client's request that waits for a socket.
#[derive(Clone, Debug, Hash, PartialEq, Eq)]
pub struct WaitingSocketTask {
    pub target: String,
}

/// The sockets that wait for clients' requests.
pub struct WebSocketFarm {
    /// The routes that clients can ask for.
    routes: DashSet<String>,
    /// The sockets of each route.
    route_to_router_socket_id_to_arc_router_socket_map: DashMap<
        String,
        DashMap<String, RouterSocketInfo>,
    >,
    route_last_removal_times: DashMap<String, i64>,
    idle_count: i32,
    waiting_task_count: i32,
    max_wait_in_millis: i64,
    dark_mode_manager: DarkModeManager,
}

/// What a [`WebSocketFarm`] holds.
#[verifier::ext_equal]
pub struct FarmView {
    pub routes: Set<Seq<char>>,
    pub sockets: Map<Seq<char>, Map<Seq<char>, RouterSocketInfo>>,
    pub removal_times: Map<Seq<char>, i64>,
    pub idle: i32,
    pub waiting: i32,
    pub max_wait: i64,
}

impl FarmView {
    /// Each socket stands under its route and its identifier.
    pub open spec fn wf(self) -> bool {
        forall|route: Seq<char>, id: Seq<char>|
            #![trigger self.sockets[route].dom().contains(id)]
            self.sockets.dom().contains(route) && self.sockets[route].dom().contains(id)
                ==> self.sockets[route][id].route@ == route
                && self.sockets[route][id].router_socket_id@ == id
    }

    /// The sockets of a route.
    pub open spec fn sockets_of(self, route: Seq<char>) -> Map<Seq<char>, RouterSocketInfo> {
        if self.sockets.dom().contains(route) {
            self.sockets[route]
        } else {
            Map::empty()
        }
    }

    /// One more socket waits. Clients can ask for its route.
    pub open spec fn added(self, s: RouterSocketInfo) -> FarmView {
        FarmView {
            routes: self.routes.insert(s.route@),
            sockets: self.sockets.insert(
                s.route@,
                self.sockets_of(s.route@).insert(s.router_socket_id@, s),
            ),
            idle: self.idle.wrapping_add(1),
            ..self
        }
    }

    /// A socket has gone. The route stays.
    pub open spec fn removed(self, route: Seq<char>, id: Seq<char>, now: i64) -> FarmView {
        let f = FarmView { removal_times: self.removal_times.insert(route, now), ..self };
        if self.sockets.dom().contains(route) {
            FarmView {
                sockets: self.sockets.insert(route, self.sockets[route].remove(id)),
                idle: self.idle.wrapping_sub(1),
                ..f
            }
        } else {
            f
        }
    }

    /// The sockets of a connector on a route have gone.
    pub open spec fn deregistered(self, route: Seq<char>, connector_id: Seq<char>) -> FarmView {
        if self.sockets.dom().contains(route) {
            FarmView {
                sockets: self.sockets.insert(
                    route,
                    without_connector(self.sockets[route], connector_id),
                ),
                ..self
            }
        } else {
            self
        }
    }

    /// Whether a route has had no socket since before the time.
    pub open spec fn is_expired(self, route: Seq<char>, cut_off_time: i64) -> bool {
        &&& self.sockets.dom().contains(route)
        &&& self.sockets[route].dom() == Set::<Seq<char>>::empty()
        &&& self.removal_times.dom().contains(route)
        &&& self.removal_times[route] < cut_off_time
    }

    /// The routes that have had no socket since before the time have gone.
    pub open spec fn cleaned(self, cut_off_time: i64) -> FarmView {
        FarmView {
            sockets: Map::new(
                |k: Seq<char>| self.sockets.dom().contains(k) && !self.is_expired(k, cut_off_time),
                |k: Seq<char>| self.sockets[k],
            ),
            routes: Set::new(
                |k: Seq<char>| self.routes.contains(k) && !self.is_expired(k, cut_off_time),
            ),
            ..self
        }
    }

    /// The error of a path for which there is no route.
    pub open spec fn not_found(target_path: Seq<char>) -> ExceptionView {
        ExceptionView::of(
            "no router socket registered for this path yet: "@ + target_path,
        ).with_status_code(404).with_err_kind(CrexKind::NoRouterSocketAvailable_0002)
    }

    /// The error of a path for which no socket came in time.
    pub open spec fn unavailable(self, target_path: Seq<char>) -> ExceptionView {
        ExceptionView::of(
            "No cranker connector available within "@ + text::decimal_int(self.max_wait as int)
                + " ms. target path = "@ + target_path + " "@,
        ).with_status_code(503).with_err_kind(CrexKind::NoRouterSocketAvailable_0002)
    }
}

/// The sockets that are not of a connector.
pub open spec fn without_connector(
    m: Map<Seq<char>, RouterSocketInfo>,
    connector_id: Seq<char>,
) -> Map<Seq<char>, RouterSocketInfo> {
    Map::new(
        |k: Seq<char>| m.dom().contains(k) && m[k].connector_id@ != connector_id,
        |k: Seq<char>| m[k],
    )
}

impl WebSocketFarm {
    pub closed spec fn state(&self) -> FarmView {
        FarmView {
            routes: dash::members(self.routes),
            sockets: route_map::route_sockets(
                self.route_to_router_socket_id_to_arc_router_socket_map,
            ),
            removal_times: route_map::times(self.route_last_removal_times),
            idle: self.idle_count,
            waiting: self.waiting_task_count,
            max_wait: self.max_wait_in_millis,
        }
    }

    /// The hosts in dark mode.
    pub closed spec fn dark(&self) -> DarkModeManager {
        self.dark_mode_manager
    }

    pub fn new(max_wait_in_millis: i64) -> (r: Self)
        ensures
            r.state() == (FarmView {
                routes: Set::empty(),
                sockets: Map::empty(),
                removal_times: Map::empty(),
                idle: 0,
                waiting: 0,
                max_wait: max_wait_in_millis,
            }),
            r.state().wf(),
            r.dark().wf(),
            r.dark().hosts() == Map::<IpAddr, DarkHost>::empty(),
    {
        let r = WebSocketFarm {
            routes: set_new(),
            route_to_router_socket_id_to_arc_router_socket_map: routes_new(),
            route_last_removal_times: times_new(),
            idle_count: 0,
            waiting_task_count: 0,
            max_wait_in_millis,
            dark_mode_manager: DarkModeManager::new(),
        };
        assert(r.state().sockets =~= Map::empty());
        assert(r.state().removal_times =~= Map::empty());
        r
    }

    /// The routes that clients can ask for.
    pub fn current_routes(&self) -> (r: DashSet<String>)
        ensures
            dash::members(r) == self.state().routes,
    {
        set_clone(&self.routes)
    }

    /// The route that serves a path, as the configured resolver sees it.
    pub fn resolve_route(&self, config: &CrankerRouterConfig, target_path: &String) -> (r: String)
        requires
            config.route_resolver matches Some(v) ==> v.accepts(self.state().routes, target_path@),
        ensures
            match config.route_resolver {
                Some(v) => exists|routes: &DashSet<String>|
                    dash::members(*routes) == self.state().routes && #[trigger] may_resolve(
                        &*v,
                        routes,
                        target_path,
                        r,
                    ),
                None => r@ == first_segment_route(self.state().routes, target_path@),
            },
    {
        let routes = self.current_routes();
        match &config.route_resolver {
            Some(v) => {
                let r = v.resolve(&routes, target_path);
                assert(may_resolve(&**v, &routes, target_path, r));
                r
            },
            None => DefaultRouteResolver::new().resolve(&routes, target_path),
        }
    }

    /// A client's request starts to wait for a socket of a route, unless nobody can ask for the
    /// route.
    pub fn start_waiting(&mut self, resolved_route: &str, target_path: &str) -> (r: Result<
        (),
        CrankerRouterException,
    >)
        ensures
            final(self).dark() == old(self).dark(),
            if old(self).state().routes.contains(resolved_route@) {
                &&& r is Ok
                &&& final(self).state() == (FarmView {
                    waiting: old(self).state().waiting.wrapping_add(1),
                    ..old(self).state()
                })
            } else {
                &&& r matches Err(e) && e@ == FarmView::not_found(target_path@)
                &&& final(self).state() == old(self).state()
            },
    {
        if !set_contains(&self.routes, resolved_route) {
            let reason = text::concat(
                "no router socket registered for this path yet: ",
                target_path,
            );
            return Err(
                CrankerRouterException::new(reason).with_status_code(404).with_err_kind(
                    CrexKind::NoRouterSocketAvailable_0002,
                ),
            );
        }
        self.waiting_task_count = self.waiting_task_count.wrapping_add(1);
        Ok(())
    }

    /// A client's request has stopped waiting.
    pub fn stop_waiting(&mut self)
        ensures
            final(self).dark() == old(self).dark(),
            final(self).state() == (FarmView {
                waiting: old(self).state().waiting.wrapping_sub(1),
                ..old(self).state()
            }),
    {
        self.waiting_task_count = self.waiting_task_count.wrapping_sub(1);
    }

    /// A client's request has stopped waiting because no socket came in time. What the listeners
    /// are told and the error are returned.
    pub fn wait_timed_out(
        &mut self,
        resolved_route: String,
        target_path: &str,
        start_ts: i64,
        now: i64,
        local_ip: IpAddr,
    ) -> (r: (ErrorProxyInfo, CrankerRouterException))
        requires
            start_ts >= 0,
            now >= 0,
        ensures
            final(self).dark() == old(self).dark(),
            final(self).state() == (FarmView {
                waiting: old(self).state().waiting.wrapping_sub(1),
                ..old(self).state()
            }),
            r.0 == (ErrorProxyInfo {
                route: resolved_route,
                socket_wait_in_millis: (now - start_ts) as i64,
                local_ip,
            }),
            r.1@ == old(self).state().unavailable(target_path@),
    {
        self.waiting_task_count = self.waiting_task_count.wrapping_sub(1);
        let info = ErrorProxyInfo::new(resolved_route, now - start_ts, local_ip);
        let mut reason = text::concat(
            "No cranker connector available within ",
            text::int_text(self.max_wait_in_millis).as_str(),
        );
        reason.push_str(" ms. target path = ");
        reason.push_str(target_path);
        reason.push_str(" ");
        let e = CrankerRouterException::new(reason).with_status_code(503).with_err_kind(
            CrexKind::NoRouterSocketAvailable_0002,
        );
        (info, e)
    }

    /// One more socket waits for clients' requests.
    pub fn add_router_socket_in_background(&mut self, router_socket: RouterSocketInfo)
        requires
            old(self).state().wf(),
        ensures
            final(self).dark() == old(self).dark(),
            final(self).state() == old(self).state().added(router_socket),
            final(self).state().wf(),
    {
        let ghost f0 = self.state();
        let route = router_socket.route.clone();
        let id = router_socket.router_socket_id.clone();
        let mut of_route = match routes_remove(
            &mut self.route_to_router_socket_id_to_arc_router_socket_map,
            route.as_str(),
        ) {
            Some(m) => m,
            None => sockets_new(),
        };
        assert(route_map::sockets(of_route) =~= f0.sockets_of(route@));
        sockets_insert(&mut of_route, id, router_socket);
        routes_insert(
            &mut self.route_to_router_socket_id_to_arc_router_socket_map,
            route.clone(),
            of_route,
        );
        let _ = set_insert(&mut self.routes, route);
        self.idle_count = self.idle_count.wrapping_add(1);
        assert(self.state().sockets =~= f0.added(router_socket).sockets);
        assert(self.state() =~= f0.added(router_socket));
    }

    /// Takes a socket out. Whether its route was there is returned; the socket counts as removed
    /// in that case.
    pub fn remove_router_socket_in_background(
        &mut self,
        route: String,
        router_socket_id: &str,
        now: i64,
    ) -> (r: bool)
        requires
            old(self).state().wf(),
        ensures
            final(self).dark() == old(self).dark(),
            r == old(self).state().sockets.dom().contains(route@),
            final(self).state() == old(self).state().removed(route@, router_socket_id@, now),
            final(self).state().wf(),
    {
        let ghost f0 = self.state();
        times_insert(&mut self.route_last_removal_times, route.clone(), now);
        let mut success = false;
        if let Some(m) = routes_remove(
            &mut self.route_to_router_socket_id_to_arc_router_socket_map,
            route.as_str(),
        ) {
            let mut m = m;
            sockets_remove(&mut m, router_socket_id);
            routes_insert(
                &mut self.route_to_router_socket_id_to_arc_router_socket_map,
                route.clone(),
                m,
            );
            self.idle_count = self.idle_count.wrapping_sub(1);
            success = true;
        } else {
            assert(f0.sockets.remove(route@) =~= f0.sockets);
        }
        assert(self.state().sockets =~= f0.removed(route@, router_socket_id@, now).sockets);
        assert(self.state() =~= f0.removed(route@, router_socket_id@, now));
        success
    }

    /// Takes the sockets of a connector on a route out.
    pub fn de_register_router_socket_in_background(&mut self, route: String, connector_id: &str)
        requires
            old(self).state().wf(),
        ensures
            final(self).dark() == old(self).dark(),
            final(self).state() == old(self).state().deregistered(route@, connector_id@),
            final(self).state().wf(),
    {
        let ghost f0 = self.state();
        if let Some(m) = routes_remove(
            &mut self.route_to_router_socket_id_to_arc_router_socket_map,
            route.as_str(),
        ) {
            let ghost m0 = route_map::sockets(m);
            let kept = Self::keep_others(m, connector_id);
            routes_insert(
                &mut self.route_to_router_socket_id_to_arc_router_socket_map,
                route.clone(),
                kept,
            );
            assert(self.state().sockets =~= f0.deregistered(route@, connector_id@).sockets);
        } else {
            assert(f0.sockets.remove(route@) =~= f0.sockets);
        }
        assert(self.state() =~= f0.deregistered(route@, connector_id@));
    }

    fn keep_others(m: DashMap<String, RouterSocketInfo>, connector_id: &str) -> (r: DashMap<
        String,
        RouterSocketInfo,
    >)
        ensures
            route_map::sockets(r) == without_connector(route_map::sockets(m), connector_id@),
    {
        let mut m = m;
        let ghost m0 = route_map::sockets(m);
        let ghost want = without_connector(m0, connector_id@);
        let list = sockets_list(&m);
        let mut i: usize = 0;
        while i < list.len()
            invariant
                i <= list.len(),
                want == without_connector(m0, connector_id@),
                forall|a: int, b: int|
                    0 <= a < b < list@.len() ==> (#[trigger] list@[a]).0@ != (
                    #[trigger] list@[b]).0@,
                forall|j: int|
                    0 <= j < list@.len() ==> m0.dom().contains((#[trigger] list@[j]).0@)
                        && m0[list@[j].0@] == list@[j].1,
                forall|k: Seq<char>| #[trigger]
                    route_map::sockets(m).dom().contains(k) ==> m0.dom().contains(k)
                        && route_map::sockets(m)[k] == m0[k],
                forall|k: Seq<char>| #[trigger]
                    want.dom().contains(k) ==> route_map::sockets(m).dom().contains(k),
                forall|j: int|
                    0 <= j < i ==> (list@[j].1.connector_id@ == connector_id@
                        ==> !route_map::sockets(m).dom().contains((#[trigger] list@[j]).0@)),
            decreases list.len() - i,
        {
            if text::str_eq(list[i].1.connector_id.as_str(), connector_id) {
                sockets_remove(&mut m, list[i].0.as_str());
            }
            i = i + 1;
        }
        proof {
            let got = route_map::sockets(m);
            assert forall|k: Seq<char>| #[trigger] got.dom().contains(k) implies want.dom().contains(
                k,
            ) by {
                let j = choose|j: int| 0 <= j < list@.len() && (#[trigger] list@[j]).0@ == k;
                assert(m0[list@[j].0@] == list@[j].1);
            }
            assert(got.dom() =~= want.dom());
            assert(got =~= want);
        }
        m
    }

    /// Forgets the routes that have had no socket for a time. Clients that ask for one get a 404
    /// from then on.
    pub fn clean_routes_in_background(&mut self, routes_keep_time_millis: i64, now: i64)
        requires
            old(self).state().wf(),
            routes_keep_time_millis >= 0,
            now >= 0,
        ensures
            final(self).dark() == old(self).dark(),
            final(self).state() == old(self).state().cleaned((now - routes_keep_time_millis) as i64),
            final(self).state().wf(),
    {
        let cut_off_time: i64 = now - routes_keep_time_millis;
        let ghost f0 = self.state();
        let ghost dark0 = self.dark();
        let ghost want = f0.cleaned(cut_off_time);
        let keys = routes_keys(&self.route_to_router_socket_id_to_arc_router_socket_map);
        let mut i: usize = 0;
        while i < keys.len()
            invariant
                i <= keys.len(),
                self.dark() == dark0,
                want == f0.cleaned(cut_off_time),
                self.state().removal_times == f0.removal_times,
                self.state().idle == f0.idle,
                self.state().waiting == f0.waiting,
                self.state().max_wait == f0.max_wait,
                forall|a: int, b: int|
                    0 <= a < b < keys@.len() ==> (#[trigger] keys@[a])@ != (#[trigger] keys@[b])@,
                forall|j: int|
                    0 <= j < keys@.len() ==> f0.sockets.dom().contains((#[trigger] keys@[j])@),
                forall|k: Seq<char>| #[trigger]
                    self.state().sockets.dom().contains(k) ==> f0.sockets.dom().contains(k)
                        && self.state().sockets[k] == f0.sockets[k],
                forall|k: Seq<char>| #[trigger]
                    want.sockets.dom().contains(k) ==> self.state().sockets.dom().contains(k),
                forall|j: int|
                    i <= j < keys@.len() ==> self.state().sockets.dom().contains(
                        (#[trigger] keys@[j])@,
                    ),
                forall|j: int|
                    0 <= j < i ==> (f0.is_expired(keys@[j]@, cut_off_time)
                        ==> !self.state().sockets.dom().contains((#[trigger] keys@[j])@)
                        && !self.state().routes.contains(keys@[j]@)),
                forall|k: Seq<char>| #[trigger]
                    self.state().routes.contains(k) ==> f0.routes.contains(k),
                forall|k: Seq<char>| #[trigger]
                    want.routes.contains(k) ==> self.state().routes.contains(k),
            decreases keys.len() - i,
        {
            let ghost before = self.state();
            let k = keys[i].clone();
            if let Some(v) = routes_remove(
                &mut self.route_to_router_socket_id_to_arc_router_socket_map,
                k.as_str(),
            ) {
                let old_enough = match times_get(&self.route_last_removal_times, k.as_str()) {
                    Some(t) => t < cut_off_time,
                    None => false,
                };
                let should_remove = sockets_is_empty(&v) && old_enough;
                assert(should_remove == f0.is_expired(k@, cut_off_time));
                if should_remove {
                    set_remove(&mut self.routes, k.as_str());
                } else {
                    routes_insert(
                        &mut self.route_to_router_socket_id_to_arc_router_socket_map,
                        k,
                        v,
                    );
                    assert(self.state().sockets =~= before.sockets);
                }
            }
            assert forall|r: Seq<char>| #[trigger] self.state().routes.contains(r) implies
                f0.routes.contains(r) by {
                assert(before.routes.contains(r));
            }
            i = i + 1;
        }
        proof {
            let got = self.state();
            assert forall|k: Seq<char>| #[trigger] got.sockets.dom().contains(
                k,
            ) implies want.sockets.dom().contains(k) by {
                let j = choose|j: int| 0 <= j < keys@.len() && (#[trigger] keys@[j])@ == k;
                assert(keys@[j]@ == k);
            }
            assert(got.sockets.dom() =~= want.sockets.dom());
            assert(got.sockets =~= want.sockets);
            assert forall|k: Seq<char>| #[trigger] got.routes.contains(k) implies
                want.routes.contains(k) by {
                if f0.is_expired(k, cut_off_time) {
                    let j = choose|j: int| 0 <= j < keys@.len() && (#[trigger] keys@[j])@ == k;
                    assert(keys@[j]@ == k);
                }
            }
            assert(got.routes =~= want.routes);
            assert(got =~= want);
        }
    }

    /// Lets all sockets go.
    pub fn terminate_all(&mut self)
        ensures
            final(self).dark() == old(self).dark(),
            final(self).state() == (FarmView { sockets: Map::empty(), ..old(self).state() }),
            final(self).state().wf(),
    {
        self.route_to_router_socket_id_to_arc_router_socket_map = routes_new();
        assert(self.state().sockets =~= Map::empty());
        assert(self.state() =~= (FarmView { sockets: Map::empty(), ..old(self).state() }));
    }

    /// How many sockets wait, as far as they were counted.
    pub fn idle_count(&self) -> (r: i32)
        ensures
            r == self.state().idle,
    {
        self.idle_count
    }

    /// The sockets of all routes, route by route.
    pub fn get_sockets(&self) -> (r: Vec<(String, Vec<(String, RouterSocketInfo)>)>)
        ensures
            forall|i: int, j: int|
                0 <= i < j < r@.len() ==> (#[trigger] r@[i]).0@ != (#[trigger] r@[j]).0@,
            forall|i: int|
                0 <= i < r@.len() ==> self.state().sockets.dom().contains((#[trigger] r@[i]).0@)
                    && route_map::lists_sockets(r@[i].1@, self.state().sockets[r@[i].0@]),
            forall|k: Seq<char>| #[trigger]
                self.state().sockets.dom().contains(k) ==> exists|i: int|
                    0 <= i < r@.len() && (#[trigger] r@[i]).0@ == k,
    {
        let keys = routes_keys(&self.route_to_router_socket_id_to_arc_router_socket_map);
        let mut r: Vec<(String, Vec<(String, RouterSocketInfo)>)> = Vec::new();
        let mut i: usize = 0;
        while i < keys.len()
            invariant
                i <= keys.len(),
                r@.len() == i,
                forall|j: int|
                    0 <= j < keys@.len() ==> self.state().sockets.dom().contains(
                        (#[trigger] keys@[j])@,
                    ),
                forall|j: int|
                    0 <= j < i ==> (#[trigger] r@[j]).0@ == keys@[j]@ && route_map::lists_sockets(
                        r@[j].1@,
                        self.state().sockets[keys@[j]@],
                    ),
            decreases keys.len() - i,
        {
            assert(self.state().sockets.dom().contains(keys@[i as int]@));
            let k = keys[i].clone();
            if let Some(list) = routes_list(
                &self.route_to_router_socket_id_to_arc_router_socket_map,
                k.as_str(),
            ) {
                r.push((k, list));
            }
            i = i + 1;
        }
        proof {
            assert forall|a: int, b: int| 0 <= a < b < r@.len() implies (#[trigger] r@[a]).0@ != (
            #[trigger] r@[b]).0@ by {
                assert(keys@[a]@ != keys@[b]@);
            }
            assert forall|k: Seq<char>| #[trigger] self.state().sockets.dom().contains(
                k,
            ) implies exists|i: int| 0 <= i < r@.len() && (#[trigger] r@[i]).0@ == k by {
                let j = choose|j: int| 0 <= j < keys@.len() && (#[trigger] keys@[j])@ == k;
                assert(r@[j].0@ == k);
            }
        }
        r
    }

    /// The requests that wait for a socket, by route. None is recorded.
    pub fn get_waiting_tasks(&self) -> (r: Vec<(String, Vec<WaitingSocketTask>)>)
        ensures
            r@.len() == 0,
    {
        Vec::new()
    }

    /// Specifies that the given target destination should not have any
    /// requests sent to it.
    pub fn enable_dark_mode(&mut self, dark_host: DarkHost)
        requires
            old(self).dark().wf(),
        ensures
            final(self).dark().wf(),
            final(self).dark().hosts() == crate::dark_mode_manager::enabled(
                old(self).dark().hosts(),
                dark_host,
            ),
            final(self).state() == old(self).state(),
    {
        self.dark_mode_manager.enable_dark_mode(dark_host);
    }

    /// Removes the target from the set of blocked hosts.
    pub fn disable_dark_mode(&mut self, dark_host: DarkHost)
        requires
            old(self).dark().wf(),
        ensures
            final(self).dark().wf(),
            final(self).dark().hosts() == old(self).dark().hosts().remove(dark_host.address),
            final(self).state() == old(self).state(),
    {
        self.dark_mode_manager.disable_dark_mode(dark_host);
    }

    /// Whether a socket must not be used because its host is in dark mode. Only a socket that
    /// serves one request at a time can be kept from requests.
    pub fn is_dark(&self, socket: &RouterSocketInfo) -> (r: bool)
        ensures
            r == (socket.cranker_version@ == CRANKER_V_1_0@ && self.dark().hosts().dom().contains(
                socket.service_address.ip,
            )),
    {
        text::str_eq(socket.cranker_version, CRANKER_V_1_0) && self.dark_mode_manager.find_host(
            socket.service_address.ip,
        ).is_some()
    }

    /// The hosts in dark mode.
    pub fn dark_mode_manager(&self) -> (r: &DarkModeManager)
        ensures
            *r == self.dark(),
    {
        &self.dark_mode_manager
    }
}

/// What the listeners are told when no socket came in time for a request.
#[derive(Debug)]
pub struct ErrorProxyInfo {
    pub route: String,
    pub socket_wait_in_millis: i64,
    pub local_ip: IpAddr,
}

impl ErrorProxyInfo {
    pub fn new(route: String, socket_wait_in_millis: i64, local_ip: IpAddr) -> (r: Self)
        ensures
            r == (ErrorProxyInfo { route, socket_wait_in_millis, local_ip }),
    {
        ErrorProxyInfo { route, socket_wait_in_millis, local_ip }
    }
}

impl ProxyInfo for ErrorProxyInfo {
    fn router_socket_id(&self) -> (r: String)
        ensures
            r@ == "N/A"@,
    {
        "N/A".to_string()
    }

    fn route(&self) -> (r: String)
        ensures
            r@ == self.route@,
    {
        self.route.clone()
    }

    fn service_address(&self) -> (r: SocketAddr)
        ensures
            r == (SocketAddr { ip: self.local_ip, port: 0 }),
    {
        SocketAddr { ip: self.local_ip, port: 0 }
    }

    fn is_catch_all(&self) -> (r: bool)
        ensures
            r == (self.route@ == "*"@),
    {
        text::str_eq(self.route.as_str(), "*")
    }

    fn connector_id(&self) -> (r: String)
        ensures
            r@ == "N/A"@,
    {
        "N/A".to_string()
    }

    fn duration_millis(&self) -> (r: i64)
        ensures
            r == 0,
    {
        0
    }

    fn bytes_received(&self) -> (r: i64)
        ensures
            r == 0,
    {
        0
    }

    fn bytes_sent(&self) -> (r: i64)
        ensures
            r == 0,
    {
        0
    }

    fn response_body_frames(&self) -> (r: i64)
        ensures
            r == 0,
    {
        0
    }

    fn error_if_any(&self) -> (r: Option<CrankerRouterException>)
        ensures
            r is None,
    {
        None
    }

    fn socket_wait_in_millis(&self) -> (r: i64)
        ensures
            r == self.socket_wait_in_millis,
    {
        self.socket_wait_in_millis
    }
}

/// A client that asks for the route of a socket that waits is not told that there is no such
/// route, and it is not while the socket, once gone, has not been gone for long: only then does
/// cleaning forget the route.
pub proof fn law_route_is_kept_then_forgotten(
    f: FarmView,
    s: RouterSocketInfo,
    removed_at: i64,
    cut_off_time: i64,
)
    requires
        f.sockets_of(s.route@).remove(s.router_socket_id@).dom() == Set::<Seq<char>>::empty(),
    ensures
        ({
            let there = f.added(s);
            let gone = there.removed(s.route@, s.router_socket_id@, removed_at);
            &&& there.routes.contains(s.route@)
            &&& gone.routes.contains(s.route@)
            &&& gone.cleaned(cut_off_time).routes.contains(s.route@) <==> removed_at >= cut_off_time
        }),
{
    let there = f.added(s);
    let gone = there.removed(s.route@, s.router_socket_id@, removed_at);
    assert(gone.sockets[s.route@] =~= f.sockets_of(s.route@).remove(s.router_socket_id@));
}

/// A route that has a socket is not forgotten, and keeps its sockets.
pub proof fn law_cleaning_keeps_served_routes(
    f: FarmView,
    route: Seq<char>,
    id: Seq<char>,
    cut_off_time: i64,
)
    requires
        f.routes.contains(route),
        f.sockets.dom().contains(route),
        f.sockets[route].dom().contains(id),
    ensures
        f.cleaned(cut_off_time).routes.contains(route),
        f.cleaned(cut_off_time).sockets.dom().contains(route),
        f.cleaned(cut_off_time).sockets[route] == f.sockets[route],
{
}

/// Deregistering takes the sockets of that connector on that route and nothing else.
pub proof fn law_deregister(
    f: FarmView,
    route: Seq<char>,
    connector_id: Seq<char>,
    other_route: Seq<char>,
    id: Seq<char>,
)
    requires
        f.sockets.dom().contains(other_route),
        f.sockets[other_route].dom().contains(id),
    ensures
        ({
            let s = f.sockets[other_route][id];
            f.deregistered(route, connector_id).sockets[other_route].dom().contains(id) <==> !(
            other_route == route && s.connector_id@ == connector_id)
        }),
        f.deregistered(route, connector_id).routes == f.routes,
{
}

/// Taking a socket out undoes putting it in: the sockets of every route and the number of those
/// that wait are as before. Only the route stays, and when its socket went.
pub proof fn law_remove_undoes_add(f: FarmView, s: RouterSocketInfo, now: i64, route: Seq<char>)
    requires
        !f.sockets_of(s.route@).dom().contains(s.router_socket_id@),
    ensures
        ({
            let g = f.added(s).removed(s.route@, s.router_socket_id@, now);
            &&& g.sockets_of(route) == f.sockets_of(route)
            &&& g.idle == f.idle
            &&& g.routes == f.routes.insert(s.route@)
            &&& g.removal_times == f.removal_times.insert(s.route@, now)
        }),
{
    let m = f.sockets_of(s.route@);
    assert(m.insert(s.router_socket_id@, s).remove(s.router_socket_id@) =~= m);
}

} // verus!
