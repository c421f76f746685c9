//! What is told to the outside of the connectors of a router.

use crate::config::CRANKER_V_1_0;
use crate::connector_connection::{ConnectionView, ConnectorConnection};
use crate::connector_instance::{ConnectorInstance, InstanceView};
use crate::connector_service::{ConnectorService, ServiceView};
use crate::dark_host::DarkHost;
use crate::net::IpAddr;
use crate::router_socket::RouterSocketInfo;
use crate::websocket_farm::{WaitingSocketTask, WebSocketFarm};
use crate::{dark_mode_manager, text};
use vstd::prelude::*;

verus! {

#[derive(Debug)]
pub struct RouterInfo {
    pub services: Vec<ConnectorService>,
    pub dark_hosts: Vec<DarkHost>,
    pub waiting_tasks: Vec<(String, Vec<WaitingSocketTask>)>,
}

/// A socket that exists, and how many requests it is serving: a negative number if it does not
/// count them.
#[derive(Debug)]
pub struct SocketStatus {
    pub socket: RouterSocketInfo,
    pub inflight: i32,
}

/// Whether one of the hosts has the address.
pub open spec fn is_host(hosts: Seq<DarkHost>, ip: IpAddr) -> bool {
    exists|i: int| 0 <= i < hosts.len() && (#[trigger] hosts[i]).address == ip
}

impl RouterSocketInfo {
    /// Whether the connector's host is in dark mode. Only a socket that serves one request at a
    /// time heeds that.
    pub open spec fn dark_mode(self, hosts: Seq<DarkHost>) -> bool {
        self.cranker_version@ == CRANKER_V_1_0@ && is_host(hosts, self.service_address.ip)
    }

    /// Whether the connector's host is in dark mode.
    pub fn is_dark_mode_on(&self, dark_hosts: &Vec<DarkHost>) -> (r: bool)
        ensures
            r == self.dark_mode(dark_hosts@),
    {
        if !text::str_eq(self.cranker_version, CRANKER_V_1_0) {
            return false;
        }
        let mut i: usize = 0;
        while i < dark_hosts.len()
            invariant
                i <= dark_hosts.len(),
                self.cranker_version@ == CRANKER_V_1_0@,
                forall|j: int|
                    0 <= j < i ==> (#[trigger] dark_hosts@[j]).address != self.service_address.ip,
            decreases dark_hosts.len() - i,
        {
            if dark_hosts[i].same_host(self.service_address.ip) {
                return true;
            }
            i = i + 1;
        }
        false
    }
}

impl SocketStatus {
    /// What is shown of the socket.
    pub open spec fn connection(self) -> ConnectionView {
        ConnectionView {
            domain: self.socket.domain@,
            port: self.socket.service_address.port as i32,
            router_socket_id: self.socket.router_socket_id@,
            protocol: self.socket.cranker_version@,
            inflight: self.inflight,
        }
    }

    /// What is shown of the socket's connector, as long as no socket of it is.
    pub open spec fn instance(self, dark_hosts: Seq<DarkHost>) -> InstanceView {
        InstanceView {
            connection_count: 0,
            dark_mode: self.socket.dark_mode(dark_hosts),
            connector_id: self.socket.connector_id@,
            connections: Seq::empty(),
            ip: self.socket.service_address.ip,
        }
    }

    fn to_connection(&self) -> (r: ConnectorConnection)
        ensures
            r@ == self.connection(),
    {
        ConnectorConnection {
            domain: self.socket.domain.clone(),
            port: self.socket.service_address.port as i32,
            router_socket_id: self.socket.router_socket_id.clone(),
            protocol: self.socket.cranker_version.to_string(),
            inflight: self.inflight,
        }
    }
}

/// The place of a connector in a list, from the `i`th on.
pub open spec fn place_of(v: Seq<InstanceView>, id: Seq<char>, i: int) -> Option<int>
    decreases v.len() - i,
{
    if i >= v.len() {
        None
    } else if v[i].connector_id == id {
        Some(i)
    } else {
        place_of(v, id, i + 1)
    }
}

/// The list with one more socket.
pub open spec fn joined_by(
    v: Seq<InstanceView>,
    s: SocketStatus,
    dark_hosts: Seq<DarkHost>,
) -> Seq<InstanceView> {
    match place_of(v, s.socket.connector_id@, 0) {
        Some(i) => v.update(i, v[i].with(s.connection())),
        None => v.push(s.instance(dark_hosts).with(s.connection())),
    }
}

/// The connectors of some sockets, in the order in which they first come.
pub open spec fn instances(sockets: Seq<SocketStatus>, dark_hosts: Seq<DarkHost>) -> Seq<
    InstanceView,
>
    decreases sockets.len(),
{
    if sockets.len() == 0 {
        Seq::empty()
    } else {
        joined_by(instances(sockets.drop_last(), dark_hosts), sockets.last(), dark_hosts)
    }
}

/// What is shown of a route: its connectors, and the component name of its last socket.
pub open spec fn service(
    route: Seq<char>,
    sockets: Seq<SocketStatus>,
    dark_hosts: Seq<DarkHost>,
) -> ServiceView {
    ServiceView {
        route,
        component_name: if sockets.len() == 0 {
            "[UNKNOWN]"@
        } else {
            sockets.last().socket.component_name@
        },
        connectors: instances(sockets, dark_hosts),
        is_catch_all: route == "*"@,
    }
}

pub open spec fn instance_views(v: Seq<ConnectorInstance>) -> Seq<InstanceView> {
    v.map_values(|c: ConnectorInstance| c@)
}

fn find_instance(v: &Vec<ConnectorInstance>, id: &str) -> (r: Option<usize>)
    ensures
        match r {
            Some(i) => i < v@.len() && place_of(instance_views(v@), id@, 0) == Some(i as int),
            None => place_of(instance_views(v@), id@, 0) is None,
        },
{
    let mut i: usize = 0;
    while i < v.len()
        invariant
            i <= v.len(),
            place_of(instance_views(v@), id@, 0) == place_of(instance_views(v@), id@, i as int),
        decreases v.len() - i,
    {
        assert(instance_views(v@)[i as int] == v@[i as int]@);
        if text::str_eq(v[i].connector_id.as_str(), id) {
            return Some(i);
        }
        i = i + 1;
    }
    None
}

fn add_socket(v: &mut Vec<ConnectorInstance>, s: &SocketStatus, dark_hosts: &Vec<DarkHost>)
    requires
        counted(instance_views(old(v)@)),
    ensures
        instance_views(final(v)@) == joined_by(instance_views(old(v)@), *s, dark_hosts@),
        counted(instance_views(final(v)@)),
{
    let ghost v0 = instance_views(v@);
    let c = s.to_connection();
    match find_instance(v, s.socket.connector_id.as_str()) {
        Some(i) => {
            assert(v0[i as int] == v@[i as int]@);
            let mut inst = v.remove(i);
            let ghost before = inst@;
            inst.connections.push(c);
            assert(inst.connections@.len() == inst.connection_count + 1);
            inst.connection_count = inst.connections.len();
            assert(inst@ =~= before.with(s.connection()));
            v.insert(i, inst);
            assert(instance_views(v@) =~= joined_by(v0, *s, dark_hosts@));
        },
        None => {
            let mut inst = ConnectorInstance {
                connection_count: 0,
                dark_mode: s.socket.is_dark_mode_on(dark_hosts),
                connector_id: s.socket.connector_id.clone(),
                connections: Vec::new(),
                ip: s.socket.service_address.ip,
            };
            assert(inst@ =~= s.instance(dark_hosts@));
            let ghost before = inst@;
            inst.connections.push(c);
            inst.connection_count = 1;
            assert(inst@ =~= before.with(s.connection()));
            v.push(inst);
            assert(instance_views(v@) =~= joined_by(v0, *s, dark_hosts@));
        },
    }
}

/// Whether the count of each connector's sockets is right.
pub open spec fn counted(v: Seq<InstanceView>) -> bool {
    forall|i: int|
        0 <= i < v.len() ==> (#[trigger] v[i]).connection_count == v[i].connections.len()
}

fn connectors_of(sockets: &Vec<SocketStatus>, dark_hosts: &Vec<DarkHost>) -> (r: Vec<
    ConnectorInstance,
>)
    ensures
        instance_views(r@) == instances(sockets@, dark_hosts@),
{
    let mut r: Vec<ConnectorInstance> = Vec::new();
    let mut i: usize = 0;
    assert(instance_views(r@) =~= Seq::empty());
    while i < sockets.len()
        invariant
            i <= sockets.len(),
            instance_views(r@) == instances(sockets@.take(i as int), dark_hosts@),
            counted(instance_views(r@)),
        decreases sockets.len() - i,
    {
        assert(sockets@.take(i + 1).drop_last() =~= sockets@.take(i as int));
        add_socket(&mut r, &sockets[i], dark_hosts);
        i = i + 1;
    }
    assert(sockets@.take(i as int) =~= sockets@);
    r
}

/// What is shown of the routes of a router, in the order in which they are given.
pub fn get_connector_service_list(
    sockets: &Vec<(String, Vec<SocketStatus>)>,
    dark_hosts: &Vec<DarkHost>,
) -> (r: Vec<ConnectorService>)
    ensures
        r@.len() == sockets@.len(),
        forall|i: int|
            0 <= i < r@.len() ==> (#[trigger] r@[i])@ == service(
                sockets@[i].0@,
                sockets@[i].1@,
                dark_hosts@,
            ),
{
    let mut r: Vec<ConnectorService> = Vec::new();
    let mut i: usize = 0;
    while i < sockets.len()
        invariant
            i <= sockets.len(),
            r@.len() == i,
            forall|j: int|
                0 <= j < i ==> (#[trigger] r@[j])@ == service(
                    sockets@[j].0@,
                    sockets@[j].1@,
                    dark_hosts@,
                ),
        decreases sockets.len() - i,
    {
        let list = &sockets[i].1;
        let component_name = if list.len() == 0 {
            "[UNKNOWN]".to_string()
        } else {
            list[list.len() - 1].socket.component_name.clone()
        };
        let s = ConnectorService {
            route: sockets[i].0.clone(),
            component_name,
            connectors: connectors_of(list, dark_hosts),
            is_catch_all: text::str_eq(sockets[i].0.as_str(), "*"),
        };
        assert(s@.connectors == instance_views(s.connectors@));
        r.push(s);
        i = i + 1;
    }
    r
}

/// Gets metadata about the connected services: what is shown of the sockets, the hosts that are
/// in dark mode, and the requests that wait, of which none is recorded.
pub fn collect_info(farm: &WebSocketFarm, sockets: &Vec<(String, Vec<SocketStatus>)>) -> (r:
    RouterInfo)
    requires
        farm.dark().wf(),
    ensures
        dark_mode_manager::lists_hosts(r.dark_hosts@, farm.dark().hosts()),
        r.services@.len() == sockets@.len(),
        forall|i: int|
            0 <= i < r.services@.len() ==> (#[trigger] r.services@[i])@ == service(
                sockets@[i].0@,
                sockets@[i].1@,
                r.dark_hosts@,
            ),
        r.waiting_tasks@.len() == 0,
{
    let dark_hosts = farm.dark_mode_manager().get_dark_hosts();
    let services = get_connector_service_list(sockets, &dark_hosts);
    RouterInfo { services, dark_hosts, waiting_tasks: farm.get_waiting_tasks() }
}

/// The sockets of one connector.
pub open spec fn of_connector(id: Seq<char>) -> spec_fn(SocketStatus) -> bool {
    |s: SocketStatus| s.socket.connector_id@ == id
}

/// What is shown of a socket.
pub open spec fn shown() -> spec_fn(SocketStatus) -> ConnectionView {
    |s: SocketStatus| s.connection()
}

proof fn lemma_place(v: Seq<InstanceView>, id: Seq<char>, i: int)
    requires
        0 <= i,
    ensures
        match place_of(v, id, i) {
            Some(p) => i <= p < v.len() && v[p].connector_id == id,
            None => forall|j: int| i <= j < v.len() ==> (#[trigger] v[j]).connector_id != id,
        },
    decreases v.len() - i,
{
    if i < v.len() {
        lemma_place(v, id, i + 1);
    }
}

/// Each connector is shown once, with all of its sockets and no others, in the order in which
/// they come, and with their number. The connector of each socket is shown.
pub proof fn law_each_connector_is_shown_once(
    sockets: Seq<SocketStatus>,
    dark_hosts: Seq<DarkHost>,
)
    ensures
        ({
            let v = instances(sockets, dark_hosts);
            &&& forall|i: int, j: int|
                0 <= i < j < v.len() ==> (#[trigger] v[i]).connector_id != (
                #[trigger] v[j]).connector_id
            &&& forall|i: int|
                0 <= i < v.len() ==> (#[trigger] v[i]).connections == sockets.filter(
                    of_connector(v[i].connector_id),
                ).map_values(shown())
            &&& counted(v)
            &&& forall|k: int|
                0 <= k < sockets.len() ==> exists|i: int|
                    0 <= i < v.len() && (#[trigger] v[i]).connector_id == (
                    #[trigger] sockets[k]).socket.connector_id@
        }),
    decreases sockets.len(),
{
    reveal(Seq::filter);
    if sockets.len() > 0 {
        let rest = sockets.drop_last();
        let s = sockets.last();
        let id = s.socket.connector_id@;
        let v0 = instances(rest, dark_hosts);
        let v = instances(sockets, dark_hosts);
        law_each_connector_is_shown_once(rest, dark_hosts);
        lemma_place(v0, id, 0);
        assert forall|i: int| 0 <= i < v.len() implies (#[trigger] v[i]).connections
            == sockets.filter(of_connector(v[i].connector_id)).map_values(shown()) by {
            let f = of_connector(v[i].connector_id);
            if i < v0.len() {
                assert(v[i].connector_id == v0[i].connector_id);
                assert(v0[i].connections == rest.filter(f).map_values(shown()));
                if v0[i].connector_id == id {
                    assert(sockets.filter(f) =~= rest.filter(f).push(s));
                    assert(sockets.filter(f).map_values(shown()) =~= rest.filter(f).map_values(
                        shown(),
                    ).push(s.connection()));
                } else {
                    assert(sockets.filter(f) =~= rest.filter(f));
                }
            } else {
                assert forall|k: int| 0 <= k < rest.len() implies !f(#[trigger] rest[k]) by {
                    if f(rest[k]) {
                        let j = choose|j: int|
                            0 <= j < v0.len() && (#[trigger] v0[j]).connector_id
                                == rest[k].socket.connector_id@;
                        assert(v0[j].connector_id == id);
                    }
                }
                lemma_none_pass(rest, f);
                assert(sockets.filter(f) =~= seq![s]);
                assert(seq![s].map_values(shown()) =~= seq![s.connection()]);
            }
        }
        assert forall|k: int| 0 <= k < sockets.len() implies exists|i: int|
            0 <= i < v.len() && (#[trigger] v[i]).connector_id == (
            #[trigger] sockets[k]).socket.connector_id@ by {
            if k < rest.len() {
                assert(rest[k] == sockets[k]);
                let j = choose|j: int|
                    0 <= j < v0.len() && (#[trigger] v0[j]).connector_id
                        == rest[k].socket.connector_id@;
                assert(v[j].connector_id == v0[j].connector_id);
            } else {
                match place_of(v0, id, 0) {
                    Some(p) => {
                        assert(v[p].connector_id == id);
                    },
                    None => {
                        assert(v[v0.len() as int].connector_id == id);
                    },
                }
            }
        }
    }
}

proof fn lemma_none_pass(s: Seq<SocketStatus>, f: spec_fn(SocketStatus) -> bool)
    requires
        forall|k: int| 0 <= k < s.len() ==> !f(#[trigger] s[k]),
    ensures
        s.filter(f) == Seq::<SocketStatus>::empty(),
    decreases s.len(),
{
    reveal(Seq::filter);
    if s.len() > 0 {
        assert forall|k: int| 0 <= k < s.drop_last().len() implies !f(
            #[trigger] s.drop_last()[k],
        ) by {
            assert(s.drop_last()[k] == s[k]);
        }
        lemma_none_pass(s.drop_last(), f);
    }
}

} // verus!
