//! What is shown of a router and of its connectors, and the texts that go with it.

use crate::connect_info::{
    build_transport_params_snapshot, law_le_octets, le_limit, le_value, CrankerConnectInfo,
};
use crate::connector_connection::{ConnectionView, _if_ser_domain, _if_ser_inflight};
use crate::connector_service::ConnectorService;
use crate::cranker_protocol::{
    CrankerProtocolVersionNotFoundException, CrankerProtocolVersionNotSupportedException,
};
use crate::cranker_protocol_request_builder::{header_str, CrankerProtocolRequestBuilder, EndMarker};
use crate::dark_host::DarkHost;
use crate::exceptions::CrankerRouterException;
use crate::forwarded::{is_ows, is_t_char, is_v_char};
use crate::headers::entries;
use crate::net::{HttpVersion, IpAddr, SocketAddr};
use crate::registration::{failed_at_ip_validation, goodbye, health_root, PlainResponse};
use crate::router_info::{
    get_connector_service_list, law_each_connector_is_shown_once, SocketStatus,
};
use crate::router_socket::{CloseFrame, RouterSocketInfo};
use axum::http::HeaderMap;
use vstd::prelude::*;

verus! {

/// A socket that serves one request is dark if and only if one of the hosts has its address; one
/// that serves several never is.
pub proof fn law_dark_mode_is_shown(s: &RouterSocketInfo, hosts: &Vec<DarkHost>, r: bool)
    requires
        call_ensures(RouterSocketInfo::is_dark_mode_on, (s, hosts), r),
    ensures
        r <==> s.cranker_version@ == "cranker_1.0"@ && exists|i: int|
            0 <= i < hosts@.len() && (#[trigger] hosts@[i]).address == s.service_address.ip,
{
}

/// A host is the same as an address if it has it.
pub proof fn law_same_host(h: &DarkHost, ip: IpAddr, r: bool)
    requires
        call_ensures(DarkHost::same_host, (h, ip), r),
    ensures
        r <==> h.address == ip,
{
}

/// Each route is shown in its place, with the component of its last socket, and is the catch-all if
/// its name says so. Each connector on it is shown once, with all of its sockets and no others, in
/// their order, and each socket's connector is shown.
pub proof fn law_services_are_shown(
    sockets: &Vec<(String, Vec<SocketStatus>)>,
    hosts: &Vec<DarkHost>,
    r: Vec<ConnectorService>,
    i: int,
    k: int,
)
    requires
        call_ensures(get_connector_service_list, (sockets, hosts), r),
        0 <= i < sockets@.len(),
    ensures
        r@.len() == sockets@.len(),
        r@[i]@.route == sockets@[i].0@,
        r@[i]@.is_catch_all <==> sockets@[i].0@ == "*"@,
        sockets@[i].1@.len() == 0 ==> r@[i]@.component_name == "[UNKNOWN]"@
            && r@[i]@.connectors.len() == 0,
        sockets@[i].1@.len() > 0 ==> r@[i]@.component_name
            == sockets@[i].1@.last().socket.component_name@,
        ({
            let all = sockets@[i].1@;
            let shown = r@[i]@.connectors;
            &&& forall|a: int, b: int|
                0 <= a < b < shown.len() ==> (#[trigger] shown[a]).connector_id != (
                #[trigger] shown[b]).connector_id
            &&& forall|a: int|
                0 <= a < shown.len() ==> (#[trigger] shown[a]).connections == of(
                    all,
                    shown[a].connector_id,
                ) && shown[a].connection_count == shown[a].connections.len()
            &&& 0 <= k < all.len() ==> exists|a: int|
                0 <= a < shown.len() && (#[trigger] shown[a]).connector_id
                    == all[k].socket.connector_id@
        }),
{
    let all = sockets@[i].1@;
    law_each_connector_is_shown_once(all, hosts@);
    let shown = r@[i]@.connectors;
    assert forall|a: int| 0 <= a < shown.len() implies (#[trigger] shown[a]).connections == of(
        all,
        shown[a].connector_id,
    ) by {
        lemma_of(all, shown[a].connector_id);
    }
    if 0 <= k < all.len() {
        assert(all[k].socket.connector_id@ == all[k].socket.connector_id@);
    }
}

/// What is shown of the sockets of one connector, in their order.
pub open spec fn of(all: Seq<SocketStatus>, id: Seq<char>) -> Seq<ConnectionView>
    decreases all.len(),
{
    if all.len() == 0 {
        Seq::empty()
    } else if all.last().socket.connector_id@ == id {
        of(all.drop_last(), id).push(
            ConnectionView {
                domain: all.last().socket.domain@,
                port: all.last().socket.service_address.port as i32,
                router_socket_id: all.last().socket.router_socket_id@,
                protocol: all.last().socket.cranker_version@,
                inflight: all.last().inflight,
            },
        )
    } else {
        of(all.drop_last(), id)
    }
}

proof fn lemma_of(all: Seq<SocketStatus>, id: Seq<char>)
    ensures
        all.filter(crate::router_info::of_connector(id)).map_values(crate::router_info::shown())
            == of(all, id),
    decreases all.len(),
{
    reveal(Seq::filter);
    let f = crate::router_info::of_connector(id);
    if all.len() > 0 {
        lemma_of(all.drop_last(), id);
        let rest = all.drop_last().filter(f);
        if all.last().socket.connector_id@ == id {
            assert(all.filter(f) =~= rest.push(all.last()));
            assert(all.filter(f).map_values(crate::router_info::shown()) =~= rest.map_values(
                crate::router_info::shown(),
            ).push(all.last().connection()));
        } else {
            assert(all.filter(f) =~= rest);
        }
    } else {
        assert(all.filter(f).map_values(crate::router_info::shown()) =~= Seq::empty());
    }
}

/// The domain is left out where it is the catch-all, and the number of requests where it is not
/// counted.
pub proof fn law_what_is_left_out(domain: &String, inflight: &i32, no_domain: bool, no_count: bool)
    requires
        call_ensures(_if_ser_domain, (domain,), no_domain),
        call_ensures(_if_ser_inflight, (inflight,), no_count),
    ensures
        no_domain <==> domain@ == "*"@,
        no_count <==> *inflight < 0,
{
}

/// The characters of a token are letters, digits and fifteen others; white space is a blank or
/// a tab; and what is visible in ASCII stands from the exclamation mark up to the tilde.
pub proof fn law_characters(c: char, token: bool, blank: bool, visible: bool)
    requires
        call_ensures(is_t_char, (c,), token),
        call_ensures(is_ows, (c,), blank),
        call_ensures(is_v_char, (c,), visible),
    ensures
        token <==> ('a' <= c <= 'z') || ('A' <= c <= 'Z') || ('0' <= c <= '9') || seq![
            '!',
            '#',
            '$',
            '%',
            '&',
            '\'',
            '*',
            '+',
            '-',
            '.',
            '^',
            '_',
            '`',
            '|',
            '~',
        ].contains(c),
        blank <==> c == ' ' || c == '\t',
        visible <==> '!' <= c <= '~',
        token ==> visible,
{
    let others = seq!['!', '#', '$', '%', '&', '\'', '*', '+', '-', '.', '^', '_', '`', '|', '~'];
    assert(others[0] == '!' && others[1] == '#' && others[2] == '$' && others[3] == '%');
    assert(others[4] == '&' && others[5] == '\'' && others[6] == '*' && others[7] == '+');
    assert(others[8] == '-' && others[9] == '.' && others[10] == '^' && others[11] == '_');
    assert(others[12] == '`' && others[13] == '|' && others[14] == '~');
}

/// The answers to connectors and to those who ask for the router's health.
pub proof fn law_plain_answers(
    ip: &str,
    route: &str,
    id: &str,
    refused: PlainResponse,
    health: PlainResponse,
    last: CloseFrame,
)
    requires
        call_ensures(failed_at_ip_validation, (ip, route, id), refused),
        call_ensures(health_root, (), health),
        call_ensures(goodbye, (), last),
    ensures
        refused.status == 403,
        refused.body@
            == "Fail to establish websocket connection to cranker connector because of not supported ip address="@
            + ip@ + ". Route="@ + route@ + ". Connector Id="@ + id@,
        health.status == 200 && health.body@ == "{\"isAvailable\":true}"@,
        last.code == 1000 && last.reason@ == "Deregister complete"@,
{
}

/// What is said of a version that is not spoken, or that was not asked for.
pub proof fn law_version_errors(
    version: String,
    e: CrankerProtocolVersionNotSupportedException,
    f: CrankerProtocolVersionNotFoundException,
    said: String,
    other: String,
)
    requires
        call_ensures(CrankerProtocolVersionNotSupportedException::new, (version,), e),
        call_ensures(CrankerProtocolVersionNotSupportedException::to_string, (&e,), said),
        call_ensures(CrankerProtocolVersionNotFoundException::to_string, (&f,), other),
    ensures
        said@ == "Cranker version "@ + version@ + " not supported!"@,
        other@
            == "Version is null. Please set header Sec-WebSocket-Protocol for cranker protocol negotiation"@,
{
}

/// The versions of HTTP have their names.
pub proof fn law_http_versions(v: HttpVersion, r: &'static str)
    requires
        call_ensures(HttpVersion::as_str, (&v,), r),
    ensures
        r@ == (match v {
            HttpVersion::Http09 => "HTTP/0.9"@,
            HttpVersion::Http10 => "HTTP/1.0"@,
            HttpVersion::Http11 => "HTTP/1.1"@,
            HttpVersion::Http2 => "HTTP/2.0"@,
            HttpVersion::Http3 => "HTTP/3.0"@,
        }),
{
}

/// The builder of a request's message keeps what it is given, each part by itself.
pub proof fn law_request_builder(
    line: String,
    headers: &HeaderMap,
    fresh: CrankerProtocolRequestBuilder,
    lined: CrankerProtocolRequestBuilder,
    headed: CrankerProtocolRequestBuilder,
    pending: CrankerProtocolRequestBuilder,
    none: CrankerProtocolRequestBuilder,
    ended: CrankerProtocolRequestBuilder,
    made: Result<String, CrankerRouterException>,
    bodiless: Result<String, CrankerRouterException>,
    last: Result<String, CrankerRouterException>,
    fresh_ended: CrankerProtocolRequestBuilder,
)
    requires
        call_ensures(CrankerProtocolRequestBuilder::new, (), fresh),
        call_ensures(CrankerProtocolRequestBuilder::with_request_line, (fresh, line), lined),
        call_ensures(CrankerProtocolRequestBuilder::with_request_headers, (lined, headers), headed),
        call_ensures(CrankerProtocolRequestBuilder::with_request_body_pending, (headed,), pending),
        call_ensures(CrankerProtocolRequestBuilder::with_request_has_no_body, (headed,), none),
        call_ensures(CrankerProtocolRequestBuilder::with_request_body_ended, (headed,), ended),
        call_ensures(CrankerProtocolRequestBuilder::with_request_body_ended, (fresh,), fresh_ended),
        call_ensures(CrankerProtocolRequestBuilder::build, (pending,), made),
        call_ensures(CrankerProtocolRequestBuilder::build, (none,), bodiless),
        call_ensures(CrankerProtocolRequestBuilder::build, (fresh_ended,), last),
    ensures
        made matches Ok(m) && m@ == line@ + "\n"@ + header_str(entries(*headers)) + "\n"@ + "_1"@,
        bodiless matches Ok(m) && m@ == line@ + "\n"@ + header_str(entries(*headers)) + "\n"@
            + "_2"@,
        last matches Ok(m) && m@ == "_3"@,
        ended.end_marker == Some(EndMarker::RequestBodyEnded) && ended.request_line == Some(line),
{
}

/// Where a connector comes from is kept, and what is known of its encryption.
pub proof fn law_connect_info(
    addr: SocketAddr,
    sni: Option<String>,
    alpn: Option<Vec<u8>>,
    version: Option<String>,
    suite: Option<String>,
    certs: Option<Vec<Vec<u8>>>,
    params: Option<Vec<u8>>,
    tcp: CrankerConnectInfo,
    tls: CrankerConnectInfo,
    quic: CrankerConnectInfo,
)
    requires
        call_ensures(CrankerConnectInfo::from_tcp, (addr,), tcp),
        call_ensures(CrankerConnectInfo::from_tls, (addr, sni, alpn, version, suite), tls),
        call_ensures(
            CrankerConnectInfo::from_quinn_connection,
            (addr, sni, alpn, certs, params),
            quic,
        ),
    ensures
        tcp.remote_addr == addr && tcp.tls_info is None,
        tls.remote_addr == addr && (tls.tls_info matches Some(t) && t.sni == sni && t.alpn == alpn
            && t.protocol_version == version && t.cipher_suite == suite && t.peer_certs is None
            && t.quic_transport_parameters is None),
        quic.remote_addr == addr && (quic.tls_info matches Some(t) && t.sni == sni && t.alpn == alpn
            && t.protocol_version is None && t.cipher_suite is None && t.peer_certs == certs
            && t.quic_transport_parameters == params),
{
}

/// The parameters of a transport stand one behind the other, each with its key, the number of its
/// bytes and its value, the least significant byte first; the size of a datagram only if it is
/// known.
pub proof fn law_transport_params(size: Option<u64>, space: u64, rtt: u64, r: Option<Vec<u8>>)
    requires
        call_ensures(build_transport_params_snapshot, (size, space, rtt), r),
    ensures
        r matches Some(v) && {
            let n: int = if size is Some {
                10
            } else {
                0
            };
            &&& v@.len() == n + 20
            &&& size is Some ==> v@[0] == 0x20 && v@[1] == 8 && le_value(v@.subrange(2, 10))
                == size->0
            &&& v@[n] == 0x21 && v@[n + 1] == 8 && le_value(v@.subrange(n + 2, n + 10)) == space
            &&& v@[n + 10] == 0x22 && v@[n + 11] == 8 && le_value(v@.subrange(n + 12, n + 20))
                == rtt
        },
{
    reveal_with_fuel(le_limit, 9);
    law_le_octets(space as int, 8);
    law_le_octets(rtt as int, 8);
    let v = r->0@;
    let n: int = if size is Some {
        10
    } else {
        0
    };
    if size is Some {
        law_le_octets(size->0 as int, 8);
        assert(v.subrange(2, 10) =~= crate::connect_info::le_octets(size->0 as int, 8));
    }
    assert(v.subrange(n + 2, n + 10) =~= crate::connect_info::le_octets(space as int, 8));
    assert(v.subrange(n + 12, n + 20) =~= crate::connect_info::le_octets(rtt as int, 8));
}

} // verus!
