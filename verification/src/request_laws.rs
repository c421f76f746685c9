//! How a client's request starts, and what is counted of it while it is under way.

use crate::client_request::{ClientRequest, V3Start};
use crate::config::CrankerRouterConfig;
use crate::cranker_protocol_request_builder::header_str;
use crate::exceptions::{CrankerRouterException, CrexKind};
use crate::frames;
use crate::headers::entries;
use crate::listeners::{come_to, leave, outcome};
use crate::proxy_info::ProxyInfoData;
use crate::request_context::{RequestContext, StreamState};
use crate::router_socket::{ClientRequestIdentifier, RouterSocketInfo, WsMessage};
use crate::router_socket_v3::{
    effects, failed, sends, EffectView, RouterSocketV3, V3Effect,
};
use axum::http::HeaderMap;
use vstd::prelude::*;
use vstd::utf8::encode_utf8;

verus! {

/// A new request has sent and received nothing, and its body may be read.
pub proof fn law_new_context(id: i32, now: i64, c: RequestContext, got: i32)
    requires
        call_ensures(RequestContext::new, (id, now), c),
        call_ensures(RequestContext::request_id, (&c,), got),
    ensures
        got == id && c@.request_id == id && c@.start == now,
        c@.pending == 0 && c@.acked == 0 && c@.writable && c@.readers.len() == 0,
        c@.from_client == 0 && c@.to_client == 0 && c@.frames == 0 && c@.duration == 0,
        c@.error is None && !c@.rst_sent && c@.state is Open && c@.header_text.len() == 0,
        !c@.can_respond && c@.response_open && c@.being_sent,
{
}

/// Bytes on their way to the target are counted; with more than 65536 of them on their way no more
/// may be read, and with no more than that what may be read does not change.
pub proof fn law_sent_bytes_are_counted(
    before: RequestContext,
    after: RequestContext,
    n: i32,
)
    requires
        exists|m: &mut RequestContext|
            *m == before && *final(m) == after && #[trigger] call_ensures(
                RequestContext::inc_rtr_to_tgt_pending_ack_bytes,
                (m, n),
                (),
            ),
        i32::MIN <= before@.pending + n <= i32::MAX,
    ensures
        after@.pending == before@.pending + n,
        after@.pending > 65536 ==> !after@.writable,
        after@.pending <= 65536 ==> after@.writable == before@.writable,
        after@.readers == before@.readers && after@.acked == before@.acked && after@.from_client
            == before@.from_client && after@.to_client == before@.to_client,
{
}

/// Bytes that the connector has acknowledged are not on their way any more. Whoever waits is let go
/// when fewer than 16384 are, and not before.
pub proof fn law_acknowledged_bytes_are_counted(
    before: RequestContext,
    after: RequestContext,
    n: i32,
    r: Vec<u64>,
)
    requires
        exists|m: &mut RequestContext|
            *m == before && *final(m) == after && #[trigger] call_ensures(
                RequestContext::target_connector_ack_bytes,
                (m, n),
                r,
            ),
        i32::MIN <= before@.pending - n <= i32::MAX,
        i32::MIN <= before@.acked + n <= i32::MAX,
    ensures
        after@.pending == before@.pending - n,
        after@.acked == before@.acked + n,
        !before@.writable && after@.pending < 16384 ==> after@.writable && r@ == before@.readers
            && after@.readers.len() == 0,
        before@.writable || after@.pending >= 16384 ==> after@.writable == before@.writable
            && r@.len() == 0 && after@.readers == before@.readers,
{
}

/// Those who wait are let go together, if more may be read.
pub proof fn law_waiting_readers(before: RequestContext, after: RequestContext, r: Vec<u64>)
    requires
        exists|m: &mut RequestContext|
            *m == before && *final(m) == after && #[trigger] call_ensures(
                RequestContext::write_it_maybe,
                (m,),
                r,
            ),
    ensures
        before@.writable ==> r@ == before@.readers && after@.readers.len() == 0,
        !before@.writable ==> r@.len() == 0 && after@.readers == before@.readers,
        after@.pending == before@.pending && after@.writable == before@.writable,
{
}

/// A request is over when its stream is closed or has failed.
pub proof fn law_completed(s: StreamState, r: bool)
    requires
        call_ensures(StreamState::is_completed, (&s,), r),
    ensures
        r <==> s is Closed || s is Error,
{
}

/// The listeners see of a request what was counted of it.
pub proof fn law_context_is_shown(
    c: &RequestContext,
    socket: &RouterSocketInfo,
    r: ProxyInfoData,
)
    requires
        call_ensures(RequestContext::info, (c, socket), r),
    ensures
        r@.bytes_received == c@.from_client && r@.bytes_sent == c@.to_client,
        r@.response_body_frames == c@.frames && r@.duration_millis == c@.duration,
        r@.error == c@.error && r@.route == socket.route@,
        r@.router_socket_id == socket.router_socket_id@ && r@.connector_id == socket.connector_id@,
        r@.service_address == socket.service_address && r@.socket_wait_in_millis == 0,
{
}

/// Without listeners, the headers for the target are those that are made for it.
pub proof fn law_headers_to_target(
    req: &ClientRequest,
    config: &CrankerRouterConfig,
    info: &ProxyInfoData,
    r: Result<HeaderMap, CrankerRouterException>,
)
    requires
        call_ensures(ClientRequest::headers_to_target, (req, config, info), r),
        config.proxy_listeners@.len() == 0,
    ensures
        r matches Ok(h) && entries(h) == req.target_entries(config.settings),
{
}

/// Without listeners, [`RouterSocketV3::on_client_req`] starts a request under the next number: its
/// frames carry the request line and the headers for the target, whole, and the last says whether
/// a body follows.
pub proof fn law_request_is_started(
    before: RouterSocketV3,
    after: RouterSocketV3,
    config: &CrankerRouterConfig,
    req: &ClientRequest,
    now: i64,
    r: V3Start,
)
    requires
        exists|m: &mut RouterSocketV3|
            *m == before && *final(m) == after && #[trigger] call_ensures(
                RouterSocketV3::on_client_req,
                (m, config, req, false, now),
                r,
            ),
        config.proxy_listeners@.len() == 0,
        before.state().uplink_open,
        before.state().last_id < i32::MAX,
    ensures
        r.result matches Ok((id, map)) && id == before.state().last_id + 1 && entries(map)
            == req.target_entries(config.settings) && after.state().live.dom().contains(id)
            && after.state().last_id == id && exists|sent: Seq<Seq<u8>>|
            effects(r.effects@) == #[trigger] sends(sent) && frames::payloads(sent)
                == encode_utf8(
                req.method@ + " "@ + (match req.orig_uri.path_and_query {
                    Some(p) => p@,
                    None => Seq::empty(),
                }) + " HTTP/1.1"@ + "\n"@ + header_str(entries(map)),
            ) && forall|i: int|
                0 <= i < sent.len() ==> (#[trigger] sent[i])[0] == 1 && (sent[i][1] % 2 == 1
                    <==> !req.has_body),
{
    let (h, answers, maps) = choose|
        h: Result<HeaderMap, CrankerRouterException>,
        answers: Seq<Result<(), CrankerRouterException>>,
        maps: Seq<HeaderMap>,
    |
        #[trigger] come_to(answers, config.proxy_listeners@.len(), outcome(h)) && #[trigger] leave(
            maps,
            answers.len(),
            req.target_entries(config.settings),
            h,
        ) && crate::client_request::starts_v3(
            before.socket(),
            before.state(),
            *req,
            h,
            now,
            r,
            after.state(),
        );
    let id = (before.state().last_id + 1) as i32;
    let map = h->Ok_0;
    let text = crate::client_request::head_text(
        req.method@,
        crate::forwarded::opt_text(req.orig_uri.path_and_query),
        entries(map),
    );
    let sent = frames::header_frames(id, true, !req.has_body, text);
    frames::law_header_frames(id, true, !req.has_body, text);
    assert(effects(r.effects@) == sends(sent));
    assert forall|i: int| 0 <= i < sent.len() implies (#[trigger] sent[i])[0] == 1 && (sent[i][1]
        % 2 == 1 <==> !req.has_body) by {}
}

/// A socket that was removed takes no request, and nothing is sent over it.
pub proof fn law_removed_socket_takes_no_request(
    before: RouterSocketV3,
    after: RouterSocketV3,
    config: &CrankerRouterConfig,
    req: &ClientRequest,
    now: i64,
    r: V3Start,
)
    requires
        exists|m: &mut RouterSocketV3|
            *m == before && *final(m) == after && #[trigger] call_ensures(
                RouterSocketV3::on_client_req,
                (m, config, req, true, now),
                r,
            ),
    ensures
        r.result is Err,
        r.effects@.len() == 0,
        after.state() == before.state(),
{
}

/// A new connection serves no request; the first that it takes has the number 1, and each further
/// one the next.
pub proof fn law_requests_are_numbered(
    info: RouterSocketInfo,
    fresh: RouterSocketV3,
    before: RouterSocketV3,
    after: RouterSocketV3,
    now: i64,
    r: Result<i32, CrankerRouterException>,
    k: i32,
)
    requires
        call_ensures(RouterSocketV3::new, (info,), fresh),
        exists|m: &mut RouterSocketV3|
            *m == before && *final(m) == after && #[trigger] call_ensures(
                RouterSocketV3::open_request,
                (m, false, now),
                r,
            ),
        before.state().last_id < i32::MAX,
    ensures
        fresh.state().last_id == 0 && !fresh.state().live.dom().contains(k)
            && fresh.state().uplink_open && fresh.socket() == info,
        r matches Ok(id) && id == before.state().last_id + 1 && after.state().last_id == id
            && after.state().live.dom().contains(id) && after.state().live[id].start == now
            && after.state().live[id].request_id == id,
        k != before.state().last_id + 1 && before.state().live.dom().contains(k)
            ==> after.state().live.dom().contains(k) && after.state().live[k]
            == before.state().live[k],
{
}

/// What is told of a request is told of the one that was asked for, and of no request that is not
/// known; asking changes nothing.
pub proof fn law_request_is_shown(
    before: RouterSocketV3,
    after: RouterSocketV3,
    id: i32,
    r: Option<ProxyInfoData>,
)
    requires
        exists|m: &mut RouterSocketV3|
            *m == before && *final(m) == after && #[trigger] call_ensures(
                RouterSocketV3::request_info,
                (m, id),
                r,
            ),
    ensures
        after.state() == before.state(),
        before.state().live.dom().contains(id) ==> (r matches Some(info) && info@.bytes_received
            == before.state().live[id].from_client && info@.bytes_sent
            == before.state().live[id].to_client && info@.error == before.state().live[id].error
            && info@.duration_millis == before.state().live[id].duration),
        !before.state().live.dom().contains(id) && !before.state().retired.dom().contains(id)
            ==> r is None,
{
}

/// A request that fails is answered with the error and is over, the listeners see the error and how
/// long it took, and no other request is touched.
pub proof fn law_request_fails(
    before: RouterSocketV3,
    after: RouterSocketV3,
    id: i32,
    e: CrankerRouterException,
    now: i64,
    r: Vec<V3Effect>,
    k: i32,
)
    requires
        exists|m: &mut RouterSocketV3|
            *m == before && *final(m) == after && #[trigger] call_ensures(
                RouterSocketV3::notify_client_request_error,
                (m, id, e, now),
                r,
            ),
        before.state().wf(),
        before.state().live.dom().contains(id),
    ensures
        !after.state().live.dom().contains(id),
        effects(r@).len() == 2,
        effects(r@)[0] matches EffectView::Fail(to, told) && to == id && {
            let c = before.state().live[id];
            let is_new = c.can_respond && c.from_client == 0;
            if e@.opt_err_kind == Some(CrexKind::Timeout_0001) && !is_new {
                told.opt_status_code == Some(504u16) && told.reason == "504 Gateway Timeout"@
                    + seq![' '] + (e@.reason + "closing cli req early due to timeout"@)
            } else if e@.opt_err_kind == Some(CrexKind::Timeout_0001) {
                told == e@
            } else if is_new {
                told.opt_status_code == Some(502u16) && told.reason == "502 Bad Gateway"@ + seq![
                    ' ',
                ] + e@.reason
            } else {
                told.opt_status_code == e@.opt_status_code && told.reason == e@.reason
                    + "closing cli req early due to cranker wss conn err"@
            }
        },
        effects(r@)[1] matches EffectView::Completed(info) && info.error == Some(e@)
            && info.duration_millis == (now - before.state().live[id].start) as i64,
        k != id && before.state().live.dom().contains(k) ==> after.state().live.dom().contains(k)
            && after.state().live[k] == before.state().live[k],
{
    reveal(failed);
    let prior = "504 Gateway Timeout"@;
    assert(prior.push(' ') =~= prior + seq![' ']);
    let prior = "502 Bad Gateway"@;
    assert(prior.push(' ') =~= prior + seq![' ']);
}

/// What is sent goes out as it is, as long as the connection takes something.
pub proof fn law_message_goes_out(
    socket: &RouterSocketV3,
    m: WsMessage,
    r: Result<WsMessage, CrankerRouterException>,
)
    requires
        call_ensures(RouterSocketV3::send_data, (socket, m), r),
    ensures
        socket.state().uplink_open ==> r == Ok::<WsMessage, CrankerRouterException>(m),
        !socket.state().uplink_open ==> r is Err,
{
}

/// The requests under way are counted.
pub proof fn law_requests_are_counted(socket: &RouterSocketV3, r: i32)
    requires
        call_ensures(RouterSocketV3::inflight_count, (socket,), r),
    ensures
        r == socket.state().live.dom().len(),
{
}

/// The listeners are told that a request is over with the time that it took; of one that is not
/// under way they are told nothing.
pub proof fn law_completion_is_raised(
    before: RouterSocketV3,
    after: RouterSocketV3,
    ident: ClientRequestIdentifier,
    now: i64,
    r: Vec<V3Effect>,
)
    requires
        exists|m: &mut RouterSocketV3|
            *m == before && *final(m) == after && #[trigger] call_ensures(
                RouterSocketV3::raise_completion_event,
                (m, Some(ident), now),
                r,
            ),
    ensures
        before.state().live.dom().contains(ident.request_id) ==> effects(r@).len() == 1 && (
        effects(r@)[0] matches EffectView::Completed(info) && info.duration_millis == (now
            - before.state().live[ident.request_id].start) as i64 && info.bytes_sent
            == before.state().live[ident.request_id].to_client),
        !before.state().live.dom().contains(ident.request_id) ==> r@.len() == 0 && after.state()
            == before.state(),
{
}


/// An error of the connection is kept with every request under way, and nothing else of them changes;
/// without one they are as they were.
pub proof fn law_error_is_kept(
    before: RouterSocketV3,
    after: RouterSocketV3,
    e: Option<CrankerRouterException>,
    k: i32,
)
    requires
        exists|m: &mut RouterSocketV3|
            *m == before && *final(m) == after && #[trigger] call_ensures(
                RouterSocketV3::try_provide_general_error,
                (m, e),
                (),
            ),
    ensures
        e is None ==> after.state() == before.state(),
        after.state().live.dom().contains(k) <==> before.state().live.dom().contains(k),
        before.state().live.dom().contains(k) && e is Some ==> after.state().live[k].error == Some(
            e->0@,
        ) && after.state().live[k].to_client == before.state().live[k].to_client
            && after.state().live[k].from_client == before.state().live[k].from_client
            && after.state().live[k].response_open == before.state().live[k].response_open,
        after.state().last_id == before.state().last_id && after.state().uplink_open
            == before.state().uplink_open,
{
}

/// A request that was sent is known as such while it is under way, and is forgotten if it is over.
pub proof fn law_request_was_sent(before: RouterSocketV3, after: RouterSocketV3, id: i32)
    requires
        exists|m: &mut RouterSocketV3|
            *m == before && *final(m) == after && #[trigger] call_ensures(
                RouterSocketV3::request_sent,
                (m, id),
                (),
            ),
        before.state().wf(),
    ensures
        before.state().live.dom().contains(id) ==> after.state().live.dom().contains(id)
            && !after.state().live[id].being_sent && after.state().live[id].to_client
            == before.state().live[id].to_client,
        !before.state().live.dom().contains(id) ==> !after.state().live.dom().contains(id)
            && !after.state().retired.dom().contains(id),
{
    if before.state().live.dom().contains(id) {
        assert(before.state().live[id].request_id == id);
    }
}

/// A connection that was closed for sending takes nothing more, and its requests are as they were.
pub proof fn law_uplink_is_closed(before: RouterSocketV3, after: RouterSocketV3)
    requires
        exists|m: &mut RouterSocketV3|
            *m == before && *final(m) == after && #[trigger] call_ensures(
                RouterSocketV3::close_uplink,
                (m,),
                (),
            ),
    ensures
        !after.state().uplink_open,
        after.state().live == before.state().live && after.state().last_id
            == before.state().last_id,
{
}

} // verus!
