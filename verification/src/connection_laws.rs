//! What goes over a connection to a connector, and what is done about what comes over it.

use crate::config::{CRANKER_V_1_0, CRANKER_V_3_0};
use crate::exceptions::{CrankerRouterException, CrexKind};
use crate::frames::{
    all_octets, data_messages, get_error_code, get_error_message, header_message, header_messages,
    judge_is_header_end_from_flags, judge_is_stream_end_from_flags, law_header_frames, payloads,
    read_frame, rst_message, window_update_message, Frame,
};
use crate::net::{RequestUri, SocketAddr};
use crate::octets::octets;
use crate::router_socket::{
    create_request_line, harvest_router_socket, is_put_back, is_reason_cuttable,
    pipe_and_queue_the_wss_send_task_and_handle_err_chan,
    pipe_underlying_wss_recv_and_send_err_to_err_chan_if_necessary, send_actions, Harvest,
    MessageView, RecvAction, RecvEvent, RouterSocketInfo, SendAction, SendActionView, SendEvent,
    WsMessage,
};
use crate::v3_response_laws::{four_bytes, law_wire, wire};
use bytes::Bytes;
use vstd::prelude::*;
use vstd::utf8::{encode_utf8, encode_utf8_decode_utf8, encode_utf8_valid_utf8};

verus! {

/// The frames that the router makes, as they go over the connection.
pub proof fn law_frames_are_made(
    id: i32,
    is_end: bool,
    is_header_end: bool,
    n: i32,
    bin: Bytes,
    line: &str,
    msg: String,
    data: Bytes,
    end: Bytes,
    header: Bytes,
    rst: Bytes,
    update: Bytes,
)
    requires
        id >= 0,
        n >= 0,
        call_ensures(data_messages, (id, is_end, Some(bin)), data),
        call_ensures(data_messages, (id, is_end, None), end),
        call_ensures(header_message, (id, is_header_end, is_end, line), header),
        call_ensures(rst_message, (id, n, msg), rst),
        call_ensures(window_update_message, (id, n), update),
    ensures
        ({
            let last: u8 = if is_end {
                1
            } else {
                0
            };
            &&& octets(data) == wire(0, last, id, octets(bin))
            &&& octets(end) == wire(0, last, id, Seq::empty())
            &&& octets(header) == wire(
                1,
                if is_header_end {
                    (4 + last) as u8
                } else {
                    last
                },
                id,
                encode_utf8(line@),
            )
            &&& octets(rst) == wire(3, 0, id, four_bytes(n as int) + encode_utf8(msg@))
            &&& octets(update) == wire(8, 0, id, four_bytes(n as int))
        }),
{
    let last: u8 = if is_end {
        1
    } else {
        0
    };
    let flags: u8 = if is_header_end {
        (4 + last) as u8
    } else {
        last
    };
    assert(crate::octets::be_octets(n) =~= four_bytes(n as int));
    law_wire(0, last, id, octets(bin));
    law_wire(0, last, id, Seq::empty());
    law_wire(1, flags, id, encode_utf8(line@));
    law_wire(3, 0, id, four_bytes(n as int) + encode_utf8(msg@));
    law_wire(8, 0, id, four_bytes(n as int));
}

/// A header text goes out whole, in frames of its request, of which the last ends the headers and
/// no other does where there are several.
pub proof fn law_header_text_is_framed(
    id: i32,
    is_header_end: bool,
    is_end: bool,
    line: String,
    r: Vec<Bytes>,
)
    requires
        call_ensures(header_messages, (id, is_header_end, is_end, line), r),
    ensures
        payloads(all_octets(r@)) == encode_utf8(line@),
        encode_utf8(line@).len() < 16000 ==> r@.len() == 1,
        encode_utf8(line@).len() >= 16000 ==> forall|i: int|
            0 <= i < r@.len() ==> (octets(#[trigger] r@[i])[1] / 4 % 2 == 1 <==> i == r@.len()
                - 1),
        forall|i: int|
            0 <= i < r@.len() ==> octets(#[trigger] r@[i]).len() >= 6 && octets(r@[i])[0] == 1 && (
            octets(r@[i])[1] % 2 == 1 <==> is_end),
{
    law_header_frames(id, is_header_end, is_end, line@);
    let all = all_octets(r@);
    assert(all.len() == r@.len());
    assert forall|i: int| 0 <= i < r@.len() implies octets(#[trigger] r@[i]).len() >= 6 && octets(
        r@[i],
    )[0] == 1 && (octets(r@[i])[1] % 2 == 1 <==> is_end) by {
        assert(all[i] == octets(r@[i]));
    }
    if encode_utf8(line@).len() >= 16000 {
        assert forall|i: int| 0 <= i < r@.len() implies (octets(#[trigger] r@[i])[1] / 4 % 2 == 1
            <==> i == r@.len() - 1) by {
            assert(all[i] == octets(r@[i]));
        }
    }
}

/// A frame is read as it comes over the connection: its type, its flags, its request and what it
/// carries. What is too short to be a frame is not read.
pub proof fn law_frame_is_read(
    msg_type: u8,
    flags: u8,
    id: i32,
    payload: Seq<u8>,
    bin: Bytes,
    r: Option<Frame>,
    ends_stream: bool,
    ends_header: bool,
)
    requires
        id >= 0,
        call_ensures(read_frame, (bin,), r),
        call_ensures(judge_is_stream_end_from_flags, (flags,), ends_stream),
        call_ensures(judge_is_header_end_from_flags, (flags,), ends_header),
    ensures
        octets(bin) == wire(msg_type, flags, id, payload) ==> (r matches Some(f) && f.msg_type
            == msg_type && f.flags == flags && f.req_id == id && octets(f.payload) == payload),
        octets(bin).len() < 6 <==> r is None,
        ends_stream <==> flags & 1 == 1,
        ends_header <==> flags & 4 == 4,
{
    law_wire(msg_type, flags, id, payload);
    if octets(bin) == wire(msg_type, flags, id, payload) {
        assert(r->0@.payload == payload);
    }
    assert((flags & 1 == 1) == (flags % 2 == 1)) by (bit_vector);
    assert((flags & 4 == 4) == (flags / 4 % 2 == 1)) by (bit_vector);
}

/// Why a connector gives a request up is read as it was written: a number, and a text behind it.
pub proof fn law_reason_is_read(
    n: i32,
    msg: Seq<char>,
    before: Bytes,
    after: Bytes,
    code: i32,
    r: String,
)
    requires
        n >= 0,
        exists|m: &mut Bytes|
            *m == before && *final(m) == after && #[trigger] call_ensures(
                get_error_code,
                (m,),
                code,
            ),
        call_ensures(get_error_message, (&after,), r),
    ensures
        octets(before) == four_bytes(n as int) + encode_utf8(msg) ==> code == n && r@ == msg,
        octets(before).len() < 4 ==> code == -1 && octets(after) == octets(before),
{
    if octets(before) == four_bytes(n as int) + encode_utf8(msg) {
        let o = crate::octets::be_octets(n);
        assert(o =~= four_bytes(n as int));
        crate::octets::law_be_octets(n);
        assert(octets(before)[0] == o[0] && octets(before)[1] == o[1] && octets(before)[2] == o[2]
            && octets(before)[3] == o[3]);
        assert(octets(after) =~= encode_utf8(msg));
        encode_utf8_valid_utf8(msg);
        encode_utf8_decode_utf8(msg);
        if msg.len() == 0 {
            assert(msg =~= Seq::empty());
        }
    }
}

/// The request line has the method, the path with its query, and the version.
pub proof fn law_request_line(method: &str, uri: &RequestUri, r: String)
    requires
        call_ensures(create_request_line, (method, uri), r),
    ensures
        uri.path_and_query matches Some(p) ==> r@ == method@ + " "@ + p@ + " HTTP/1.1"@,
        uri.path_and_query is None ==> r@ == method@ + " "@ + " HTTP/1.1"@,
{
    if uri.path_and_query is None {
        assert(r@ =~= method@ + " "@ + " HTTP/1.1"@);
    }
}

/// A socket is what its connector said of it, by the version that was agreed on; its identifier
/// has 36 characters. One that serves one request has the catch-all domain. No other version makes
/// a socket.
pub proof fn law_socket_is_made(
    connector_id: String,
    component_name: String,
    version: &'static str,
    domain: String,
    route: String,
    addr: SocketAddr,
    r: Harvest,
)
    requires
        call_ensures(
            harvest_router_socket,
            (connector_id, component_name, version, domain, route, addr),
            r,
        ),
    ensures
        version@ == "cranker_1.0"@ <==> r is V1,
        version@ == "cranker_3.0"@ <==> r is V3,
        r matches Harvest::V1(s) ==> says_of(s, connector_id, component_name, version, route, addr)
            && s.domain@ == "*"@,
        r matches Harvest::V3(s) ==> says_of(s, connector_id, component_name, version, route, addr)
            && s.domain@ == domain@,
{
    reveal_strlit("cranker_1.0");
    reveal_strlit("cranker_3.0");
    assert(CRANKER_V_1_0@[8] == '1' && CRANKER_V_3_0@[8] == '3');
}

/// Whether a socket is what its connector said of it.
pub open spec fn says_of(
    s: RouterSocketInfo,
    connector_id: String,
    component_name: String,
    version: &'static str,
    route: String,
    addr: SocketAddr,
) -> bool {
    &&& s.router_socket_id@.len() == 36
    &&& s.connector_id@ == connector_id@
    &&& s.component_name@ == component_name@
    &&& s.cranker_version@ == version@
    &&& s.route@ == route@
    &&& s.service_address == addr
}

/// A socket that serves several requests goes back at once, and one that serves one does not.
pub proof fn law_put_back(version: &str, r: bool)
    requires
        call_ensures(is_put_back, (version,), r),
    ensures
        version@ == "cranker_3.0"@ ==> r,
        version@ == "cranker_1.0"@ ==> !r,
{
    reveal_strlit("cranker_1.0");
    reveal_strlit("cranker_3.0");
    assert(CRANKER_V_1_0@[8] == '1' && CRANKER_V_3_0@[8] == '3');
}

/// A message that comes is handed to the socket as it is. What goes wrong with it is reported, and
/// the next is waited for in any case.
pub proof fn law_message_is_handed_over(
    m: WsMessage,
    told: Result<(), CrankerRouterException>,
    is_removed: bool,
    handled: RecvAction,
    next: RecvAction,
)
    requires
        call_ensures(
            pipe_underlying_wss_recv_and_send_err_to_err_chan_if_necessary,
            (RecvEvent::Received(m), is_removed),
            handled,
        ),
        call_ensures(
            pipe_underlying_wss_recv_and_send_err_to_err_chan_if_necessary,
            (RecvEvent::Handled(told), is_removed),
            next,
        ),
    ensures
        handled matches RecvAction::Handle(h) && h@ == m@,
        next matches RecvAction::Next(e) && match told {
            Ok(_) => e is None,
            Err(t) => e matches Some(e) && e@ == t@,
        },
{
}

/// A connection on which nothing came for too long is closed with a timeout. Where receiving fails
/// or ends, that is reported if it is news: a failure always, and an end as long as the socket was
/// not removed.
pub proof fn law_receiving_ends(
    shown: String,
    is_removed: bool,
    idle: RecvAction,
    failed: RecvAction,
    ended: RecvAction,
)
    requires
        call_ensures(
            pipe_underlying_wss_recv_and_send_err_to_err_chan_if_necessary,
            (RecvEvent::IdleTimeout, is_removed),
            idle,
        ),
        call_ensures(
            pipe_underlying_wss_recv_and_send_err_to_err_chan_if_necessary,
            (RecvEvent::Failed(shown), is_removed),
            failed,
        ),
        call_ensures(
            pipe_underlying_wss_recv_and_send_err_to_err_chan_if_necessary,
            (RecvEvent::Ended, is_removed),
            ended,
        ),
    ensures
        idle matches RecvAction::SendThenReport(m, e) && m@ == MessageView::Close(
            Some((1001u16, "timeout"@)),
        ) && e@.opt_err_kind == Some(CrexKind::Timeout_0001) && e@.reason
            == "uwss read idle timeout"@,
        failed matches RecvAction::Stop(v) && v@.len() == (if is_removed {
            1int
        } else {
            2int
        }) && v@[0]@.reason == "underlying wss recv err: "@ + shown@ + "."@ && (!is_removed
            ==> v@[1]@.reason == "underlying wss already closed but still is_removed = false"@),
        ended matches RecvAction::Stop(v) && v@.len() == (if is_removed {
            0int
        } else {
            1int
        }) && (!is_removed ==> v@[0]@.reason
            == "underlying wss already closed but still is_removed = false"@),
{
    let f = failed->Stop_0@;
    let e = ended->Stop_0@;
    let shown_f = crate::router_socket::exception_views(f);
    let shown_e = crate::router_socket::exception_views(e);
    assert(shown_f.len() == f.len());
    assert(shown_e.len() == e.len());
    assert(shown_f[0] == f[0]@);
    if !is_removed {
        assert(shown_f[1] == f[1]@);
        assert(shown_e[0] == e[0]@);
    }
}

/// A message that is to be sent goes out once, as it is, and its bytes are counted where it carries
/// something of a request.
pub proof fn law_task_is_sent(m: WsMessage, is_removed: bool, r: Vec<SendAction>)
    requires
        call_ensures(
            pipe_and_queue_the_wss_send_task_and_handle_err_chan,
            (SendEvent::Task(m), is_removed),
            r,
        ),
    ensures
        send_actions(r@) == (match m {
            WsMessage::Text(s) => seq![
                SendActionView::CountBytes(encode_utf8(s@).len() as i32),
                SendActionView::Send(MessageView::Text(s@)),
            ],
            WsMessage::Binary(b) => seq![
                SendActionView::CountBytes(octets(b).len() as i32),
                SendActionView::Send(MessageView::Binary(octets(b))),
            ],
            _ => seq![SendActionView::Send(m@)],
        }),
{
}

/// A message that could not be sent is reported, but for a ping or a pong of a socket that was
/// removed, on which the connection is closed. When no more are to be sent sending stops, and after
/// silence a ping is sent as long as the socket is there.
pub proof fn law_sending_goes_on(
    m: WsMessage,
    shown: String,
    socket_exists: bool,
    is_removed: bool,
    failed: Vec<SendAction>,
    closed: Vec<SendAction>,
    silent: Vec<SendAction>,
)
    requires
        call_ensures(
            pipe_and_queue_the_wss_send_task_and_handle_err_chan,
            (SendEvent::SendFailed { message: m, shown }, is_removed),
            failed,
        ),
        call_ensures(
            pipe_and_queue_the_wss_send_task_and_handle_err_chan,
            (SendEvent::TasksClosed, is_removed),
            closed,
        ),
        call_ensures(
            pipe_and_queue_the_wss_send_task_and_handle_err_chan,
            (SendEvent::NoWrite { socket_exists }, is_removed),
            silent,
        ),
    ensures
        (m is Ping || m is Pong) && is_removed ==> send_actions(failed@) == seq![
            SendActionView::CloseConnection,
            SendActionView::Stop,
        ],
        !((m is Ping || m is Pong) && is_removed) ==> send_actions(failed@).len() == 1 && (
        send_actions(failed@)[0] matches SendActionView::Report(e) && e.reason == (match m {
            WsMessage::Text(_) => "err sending txt to uwss"@,
            WsMessage::Binary(_) => "err sending bin to uwss"@,
            WsMessage::Ping(_) => "err sending ping to uwss"@,
            WsMessage::Pong(_) => "err sending pong to uwss"@,
            WsMessage::Close(_) => "err sending close to uwss"@,
        }) + " : "@ + shown@ && e.opt_status_code is None && e.opt_err_kind is None),
        send_actions(closed@) == seq![SendActionView::Stop],
        send_actions(silent@) == (if socket_exists {
            seq![SendActionView::Enqueue(MessageView::Ping(encode_utf8("ping"@)))]
        } else {
            seq![SendActionView::StopPinging]
        }),
{
}

/// An error on a connection is kept for the listeners unless the socket was removed, no more
/// messages are taken, and the connector is told the reason, cut to a hundred bytes where it is
/// longer. Once that was sent the socket leaves the farm, all that goes on over it is ended with
/// the error, and sending stops.
pub proof fn law_error_ends_the_connection(
    e: CrankerRouterException,
    is_removed: bool,
    first: Vec<SendAction>,
    second: Vec<SendAction>,
)
    requires
        call_ensures(
            pipe_and_queue_the_wss_send_task_and_handle_err_chan,
            (SendEvent::Error(e), is_removed),
            first,
        ),
        call_ensures(
            pipe_and_queue_the_wss_send_task_and_handle_err_chan,
            (SendEvent::CloseSent(e), is_removed),
            second,
        ),
    ensures
        ({
            let out = send_actions(first@);
            let n = if is_removed {
                0int
            } else {
                1int
            };
            &&& out.len() == n + 3
            &&& !is_removed ==> out[0] == SendActionView::ProvideError(e@)
            &&& out[n] == SendActionView::CloseTasks
            &&& out[n + 1] == SendActionView::Flush
            &&& out[n + 2] matches SendActionView::Send(MessageView::Close(Some((code, reason))))
                && code == 1011 && (if encode_utf8(e@.reason).len() > 100 {
                encode_utf8(reason) == encode_utf8(e@.reason).take(100)
            } else {
                reason == e@.reason
            })
        }),
        send_actions(second@) == (if is_removed {
            Seq::empty()
        } else {
            seq![SendActionView::RemoveFromFarm]
        }) + seq![SendActionView::Terminate(e@), SendActionView::Stop],
{
}

/// A reason of up to a hundred bytes can always be sent.
pub proof fn law_short_reason_is_sent(reason: &str, r: bool)
    requires
        call_ensures(is_reason_cuttable, (reason,), r),
    ensures
        encode_utf8(reason@).len() <= 100 ==> r,
        encode_utf8(reason@).len() > 100 ==> r == vstd::utf8::is_char_boundary(
            encode_utf8(reason@),
            100,
        ),
{
}

} // verus!
