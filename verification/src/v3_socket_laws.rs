//! What a connection of several requests does with what comes in and what goes out.

use crate::client_request::ClientRequest;
use crate::config::CrankerRouterConfig;
use crate::cranker_protocol_response::builder_head;
use crate::exceptions::CrankerRouterException;
use crate::exchange::{ExchangeAction, ExchangeEvent, V3Exchanged};
use crate::headers::values_of;
use crate::octets::{be_octets, octets};
use crate::request_context::ContextView;
use crate::response_laws::{
    given_values, law_message_is_taken_apart, law_response_has_the_headers, lemma_none_empty,
    lines_of, status_line, stays_behind, GivenHeader,
};
use crate::router_socket::{CloseFrame, MessageView, WsMessage};
use crate::router_socket_v3::{
    all_closed, all_failed, effects, failed, BinaryOutcome, CloseOutcome, EffectView, RouterSocketV3,
    V3Effect, V3View,
};
use crate::v3_laws::law_close_completes_every_request;
use crate::v3_response_laws::{
    body_of, law_acknowledged, law_data_reaches_the_client, law_flags_and_types, law_given_up,
    law_header_reaches_the_client, law_strange_frame, law_wire, wire,
};
use crate::{frames, router_socket_v3, text};
use bytes::Bytes;
use vstd::prelude::*;
use vstd::utf8::{decode_utf8, encode_utf8, valid_utf8};

verus! {

/// [`RouterSocketV3::on_binary`] hands a piece of a response's body over to the client, whole and
/// before anything else is done, whether it is the last or not; the listeners get the same piece.
/// With the last piece the response takes nothing more, and the request is over.
pub proof fn law_piece_is_handed_over(
    before: RouterSocketV3,
    after: RouterSocketV3,
    bin: Bytes,
    flags: u8,
    id: i32,
    payload: Seq<u8>,
    now: i64,
    r: BinaryOutcome,
)
    requires
        exists|m: &mut RouterSocketV3|
            *m == before && *final(m) == after && #[trigger] call_ensures(
                RouterSocketV3::on_binary,
                (m, bin, false, now),
                r,
            ),
        before.state().wf(),
        before.state().live.dom().contains(id),
        before.state().live[id].can_respond,
        octets(bin) == wire(0, flags, id, payload),
        payload.len() > 0,
    ensures
        effects(r.effects@).len() > 0,
        effects(r.effects@)[0] == EffectView::Body(id, payload),
        body_of(effects(r.effects@), id) == payload,
        after.state().live.dom().contains(id) <==> flags & 1 == 0,
        flags & 1 == 1 ==> effects(r.effects@)[1] is BodyReceived,
        flags & 1 == 1 && before.state().live[id].response_open ==> effects(r.effects@)[2]
            == EffectView::CloseResponse(id) && effects(r.effects@)[3] is Completed,
        before.state().uplink_open ==> effects(r.effects@).last() == EffectView::Send(
            wire(8, 0, id, be_octets(payload.len() as i32)),
        ),
        r.chunk matches Some((info, b)) && octets(b) == payload && info@.bytes_sent
            == before.state().live[id].to_client.wrapping_add(payload.len() as i64)
            && info@.response_body_frames == before.state().live[id].frames.wrapping_add(1),
{
    law_data_reaches_the_client(before.socket(), before.state(), flags, id, payload, now);
    law_wire(0, flags, id, payload);
    law_flags_and_types(flags);
    assert(flags & 1 == 0 || flags & 1 == 1) by (bit_vector);
}

/// [`RouterSocketV3::on_binary`] gathers the header text of a response and hands it over with the
/// frame that ends the headers.
pub proof fn law_header_text_is_handed_over(
    before: RouterSocketV3,
    after: RouterSocketV3,
    bin: Bytes,
    flags: u8,
    id: i32,
    payload: Seq<u8>,
    is_removed: bool,
    now: i64,
    r: BinaryOutcome,
)
    requires
        exists|m: &mut RouterSocketV3|
            *m == before && *final(m) == after && #[trigger] call_ensures(
                RouterSocketV3::on_binary,
                (m, bin, is_removed, now),
                r,
            ),
        before.state().wf(),
        before.state().uplink_open,
        before.state().live.dom().contains(id),
        before.state().live[id].can_respond,
        octets(bin) == wire(1, flags, id, payload),
        valid_utf8(payload),
        payload.len() <= i32::MAX,
    ensures
        ({
            let gathered = before.state().live[id].header_text + decode_utf8(payload);
            &&& flags & 4 == 4 ==> effects(r.effects@)[0] == EffectView::HeaderText(id, gathered)
            &&& flags & 1 == 0 && flags & 4 == 0 ==> effects(r.effects@) == seq![
                EffectView::Send(wire(8, 0, id, be_octets(payload.len() as i32))),
            ]
            &&& flags & 1 == 0 ==> after.state().live.dom().contains(id)
                && after.state().live[id].header_text == gathered
            &&& flags & 1 == 1 ==> !after.state().live.dom().contains(id)
        }),
{
    law_header_reaches_the_client(
        before.socket(),
        before.state(),
        flags,
        id,
        payload,
        is_removed,
        now,
    );
    assert((flags & 1 == 0 || flags & 1 == 1) && (flags & 4 == 0 || flags & 4 == 4))
        by (bit_vector);
    if flags & 1 == 0 && flags & 4 == 0 {
        assert(effects(r.effects@) =~= seq![
            EffectView::Send(wire(8, 0, id, be_octets(payload.len() as i32))),
        ]);
    }
}

/// [`RouterSocketV3::on_binary`] takes an acknowledgement off the bytes on their way, and lets
/// those who wait go on once they are below the low mark.
pub proof fn law_acknowledgement_is_taken(
    before: RouterSocketV3,
    after: RouterSocketV3,
    bin: Bytes,
    flags: u8,
    id: i32,
    n: i32,
    is_removed: bool,
    now: i64,
    r: BinaryOutcome,
)
    requires
        exists|m: &mut RouterSocketV3|
            *m == before && *final(m) == after && #[trigger] call_ensures(
                RouterSocketV3::on_binary,
                (m, bin, is_removed, now),
                r,
            ),
        before.state().wf(),
        before.state().live.dom().contains(id),
        octets(bin) == wire(8, flags, id, be_octets(n)),
        before.state().live[id].pending - n >= i32::MIN,
        before.state().live[id].pending - n <= i32::MAX,
    ensures
        ({
            let c = before.state().live[id];
            let d = after.state().live[id];
            let freed = !c.writable && c.pending - n < 16384;
            &&& after.state().live.dom().contains(id)
            &&& d.pending == c.pending - n
            &&& d.writable == (c.writable || freed)
            &&& effects(r.effects@).len() == (if freed {
                c.readers.len()
            } else {
                0
            })
            &&& freed ==> d.readers.len() == 0
        }),
{
    law_acknowledged(before.socket(), before.state(), flags, id, n, is_removed, now);
    assert(before.state().live[id].request_id == id);
}

/// [`RouterSocketV3::send_body_chunk`] sends a piece of a request's body in a frame of the request,
/// as it is, and counts its bytes.
pub proof fn law_piece_is_sent(
    before: RouterSocketV3,
    after: RouterSocketV3,
    id: i32,
    bytes: Bytes,
    r: (Vec<V3Effect>, Result<(), CrankerRouterException>),
)
    requires
        exists|m: &mut RouterSocketV3|
            *m == before && *final(m) == after && #[trigger] call_ensures(
                RouterSocketV3::send_body_chunk,
                (m, id, bytes),
                r,
            ),
        before.state().wf(),
        before.state().live.dom().contains(id),
        before.state().uplink_open,
        before.state().live[id].pending + octets(bytes).len() <= i32::MAX,
        before.state().live[id].from_client + octets(bytes).len() <= i64::MAX,
        octets(bytes).len() <= i32::MAX,
    ensures
        r.1 is Ok,
        effects(r.0@) == seq![EffectView::Send(wire(0, 0, id, octets(bytes)))],
        ({
            let c = before.state().live[id];
            let d = after.state().live[id];
            let n = octets(bytes).len();
            &&& after.state().live.dom().contains(id)
            &&& d.pending == c.pending + n
            &&& d.from_client == c.from_client + n
            &&& d.writable == (c.writable && c.pending + n <= 65536)
        }),
{
    assert(before.state().live[id].request_id == id);
    law_wire(0, 0, id, octets(bytes));
}

/// [`RouterSocketV3::send_header`] sends the header text, whole, in header frames of the request,
/// of which the last ends the headers; from then on the target may answer.
pub proof fn law_header_text_is_sent(
    before: RouterSocketV3,
    after: RouterSocketV3,
    id: i32,
    header_text: String,
    is_stream_end: bool,
    r: (Vec<V3Effect>, Result<(), CrankerRouterException>),
    i: int,
)
    requires
        exists|m: &mut RouterSocketV3|
            *m == before && *final(m) == after && #[trigger] call_ensures(
                RouterSocketV3::send_header,
                (m, id, header_text, is_stream_end),
                r,
            ),
        before.state().wf(),
        before.state().live.dom().contains(id),
        before.state().uplink_open,
        0 <= i < effects(r.0@).len(),
    ensures
        r.1 is Ok,
        after.state().live.dom().contains(id) && after.state().live[id].can_respond,
        0 <= before.state().live[id].from_client && before.state().live[id].from_client
            + encode_utf8(header_text@).len() <= i64::MAX ==> after.state().live[id].from_client
            == before.state().live[id].from_client + encode_utf8(header_text@).len(),
        effects(r.0@)[i] matches EffectView::Send(f) && f.len() >= 6 && f.take(6) == wire(
            1,
            f[1],
            id,
            Seq::empty(),
        ) && (f[1] & 4 == 4 <==> i == effects(r.0@).len() - 1) && (f[1] & 1 == 1
            <==> is_stream_end),
        exists|sent: Seq<Seq<u8>>|
            #[trigger] router_socket_v3::sends(sent) == effects(r.0@) && frames::payloads(sent)
                == encode_utf8(header_text@),
{
    let line = header_text@;
    let sent = frames::header_frames(id, true, is_stream_end, line);
    assert(before.state().live[id].request_id == id);
    frames::law_header_frames(id, true, is_stream_end, line);
    assert(router_socket_v3::sends(sent) == effects(r.0@));
    let f = sent[i];
    assert(effects(r.0@)[i] == EffectView::Send(f));
    let is_last = i == sent.len() - 1;
    let flags = frames::header_flags(is_last, is_stream_end);
    let payload = f.skip(6);
    let part = if encode_utf8(line).len() < frames::HEADER_CHUNK_SIZE {
        line
    } else {
        frames::chunk(line, i)
    };
    assert(f == frames::frame(1, flags, id, encode_utf8(part)));
    law_wire(1, flags, id, encode_utf8(part));
    assert(f.take(6) =~= wire(1, f[1], id, Seq::empty()));
    law_flags_and_types(flags);
    frames::law_header_flags(is_last, is_stream_end);
    lemma_can_respond(before.state().context(id), sent);
    let c = before.state().live[id];
    if 0 <= c.from_client && c.from_client + encode_utf8(line).len() <= i64::MAX {
        assert forall|k: int| 0 <= k < sent.len() implies 6 <= (#[trigger] sent[k]).len()
            <= i32::MAX by {
            let part = if encode_utf8(line).len() < frames::HEADER_CHUNK_SIZE {
                line
            } else {
                frames::chunk(line, k)
            };
            lemma_encoded_len(part);
            assert(sent[k].len() == 6 + encode_utf8(part).len());
        }
        lemma_header_is_counted(c, sent);
    }
}

proof fn lemma_encoded_len(s: Seq<char>)
    ensures
        encode_utf8(s).len() <= 4 * s.len(),
    decreases s.len(),
{
    if s.len() > 0 {
        lemma_encoded_len(s.drop_first());
    }
}

/// The bytes of the frames that were sent are counted.
proof fn lemma_header_is_counted(c: ContextView, sent: Seq<Seq<u8>>)
    requires
        0 <= c.from_client,
        c.from_client + frames::payloads(sent).len() <= i64::MAX,
        forall|k: int| 0 <= k < sent.len() ==> 6 <= (#[trigger] sent[k]).len() <= i32::MAX,
    ensures
        router_socket_v3::header_sent(c, sent).from_client == c.from_client + frames::payloads(
            sent,
        ).len(),
    decreases sent.len(),
{
    if sent.len() > 0 {
        let front = sent.drop_last();
        assert forall|k: int| 0 <= k < front.len() implies 6 <= (#[trigger] front[k]).len()
            <= i32::MAX by {
            assert(front[k] == sent[k]);
        }
        assert(6 <= sent[sent.len() - 1].len() <= i32::MAX);
        assert(frames::payloads(sent).len() == frames::payloads(front).len() + sent.last().len()
            - 6);
        lemma_header_is_counted(c, front);
    }
}

proof fn lemma_can_respond(c: ContextView, sent: Seq<Seq<u8>>)
    ensures
        router_socket_v3::header_sent(c, sent).can_respond,
        router_socket_v3::header_sent(c, sent).request_id == c.request_id,
    decreases sent.len(),
{
    if sent.len() > 0 {
        lemma_can_respond(c, sent.drop_last());
    }
}

/// [`RouterSocketV3::keep_reading`] lets the one who asks read on, or makes it wait behind those
/// who wait already.
pub proof fn law_reader_waits(
    before: RouterSocketV3,
    after: RouterSocketV3,
    id: i32,
    ticket: u64,
    r: bool,
)
    requires
        exists|m: &mut RouterSocketV3|
            *m == before && *final(m) == after && #[trigger] call_ensures(
                RouterSocketV3::keep_reading,
                (m, id, ticket),
                r,
            ),
        before.state().wf(),
        before.state().live.dom().contains(id),
    ensures
        r == before.state().live[id].writable,
        r ==> after.state() == before.state(),
        !r ==> after.state().live[id].readers == before.state().live[id].readers.push(ticket),
{
    assert(before.state().live[id].request_id == id);
}

/// [`RouterSocketV3::on_ping`] answers a ping with what it carried.
pub proof fn law_ping_is_answered(
    socket: &RouterSocketV3,
    ping: Bytes,
    r: Result<WsMessage, CrankerRouterException>,
)
    requires
        call_ensures(RouterSocketV3::on_ping, (socket, ping), r),
        socket.state().uplink_open,
    ensures
        r matches Ok(m) && m@ == MessageView::Pong(octets(ping)),
{
}

/// [`RouterSocketV3::reset_stream`] ends a request, and the frame for the connector carries the
/// code and the message.
pub proof fn law_stream_is_reset(
    before: RouterSocketV3,
    after: RouterSocketV3,
    id: i32,
    code: i32,
    message: String,
    r: Option<Bytes>,
)
    requires
        exists|m: &mut RouterSocketV3|
            *m == before && *final(m) == after && #[trigger] call_ensures(
                RouterSocketV3::reset_stream,
                (m, id, code, message),
                r,
            ),
        before.state().wf(),
        before.state().live.dom().contains(id),
    ensures
        !after.state().live.dom().contains(id),
        before.state().live[id].rst_sent ==> r is None,
        before.state().live[id].state is Open && !before.state().live[id].rst_sent ==> (r matches Some(
            b,
        ) && octets(b) == wire(3, 0, id, be_octets(code) + encode_utf8(message@))),
{
    assert(before.state().live[id].request_id == id);
    law_wire(3, 0, id, be_octets(code) + encode_utf8(message@));
}

proof fn lemma_all_failed(
    socket: crate::router_socket::RouterSocketInfo,
    s: V3View,
    ids: Seq<i32>,
    e: crate::exceptions::ExceptionView,
    now: i64,
    id: i32,
)
    requires
        s.wf(),
        ids.no_duplicates(),
        forall|i: int| 0 <= i < ids.len() ==> s.live.dom().contains(#[trigger] ids[i]),
    ensures
        ({
            let step = all_failed(socket, s, ids, e, now);
            &&& ids.contains(id) ==> exists|i: int, j: int|
                #![trigger step.effects[i], step.effects[j]]
                0 <= i < j < step.effects.len() && step.effects[i] is Fail
                    && step.effects[i]->Fail_0 == id && step.effects[j] is Completed
                    && step.effects[j]->Completed_0.error == Some(e)
            &&& forall|k: i32|
                !ids.contains(k) && #[trigger] s.live.dom().contains(k)
                    ==> step.state.live.dom().contains(k) && step.state.live[k] == s.live[k]
            &&& step.state.wf()
        }),
    decreases ids.len(),
{
    if ids.len() > 0 {
        let front = ids.drop_last();
        let last = ids.last();
        assert(ids[ids.len() - 1] == last);
        assert forall|i: int| 0 <= i < front.len() implies s.live.dom().contains(
            #[trigger] front[i],
        ) by {
            assert(front[i] == ids[i]);
        }
        lemma_all_failed(socket, s, front, e, now, id);
        let before = all_failed(socket, s, front, e, now);
        assert(!front.contains(last)) by {
            if front.contains(last) {
                let j = choose|j: int| 0 <= j < front.len() && front[j] == last;
                assert(ids[j] == last);
            }
        }
        assert(before.state.live.dom().contains(last));
        let c = before.state.live[last];
        assert(c.request_id == last);
        reveal(failed);
        let step = all_failed(socket, s, ids, e, now);
        let n = before.effects.len() as int;
        assert forall|k: i32|
            !ids.contains(k) && #[trigger] s.live.dom().contains(
                k,
            ) implies step.state.live.dom().contains(k) && step.state.live[k] == s.live[k] by {
            assert(k != last);
            assert(!front.contains(k)) by {
                if front.contains(k) {
                    let j = choose|j: int| 0 <= j < front.len() && front[j] == k;
                    assert(ids[j] == k);
                }
            }
        }
        if ids.contains(id) {
            if id == last {
                assert(step.effects[n] is Fail && step.effects[n + 1] is Completed);
            } else {
                let j = choose|j: int| 0 <= j < ids.len() && ids[j] == id;
                assert(front[j] == id);
                let (a, b) = choose|i: int, j: int|
                    #![trigger before.effects[i], before.effects[j]]
                    0 <= i < j < before.effects.len() && before.effects[i] is Fail
                        && before.effects[i]->Fail_0 == id && before.effects[j] is Completed
                        && before.effects[j]->Completed_0.error == Some(e);
                assert(step.effects[a] == before.effects[a] && step.effects[b]
                    == before.effects[b]);
            }
        }
    }
}

/// [`RouterSocketV3::terminate_all_conn`] ends every request under way: its client is told, and its
/// listeners are told that it is over, with the error.
pub proof fn law_all_are_terminated(
    before: RouterSocketV3,
    after: RouterSocketV3,
    e: CrankerRouterException,
    now: i64,
    r: Vec<V3Effect>,
    id: i32,
)
    requires
        exists|m: &mut RouterSocketV3|
            *m == before && *final(m) == after && #[trigger] call_ensures(
                RouterSocketV3::terminate_all_conn,
                (m, Some(e), now),
                r,
            ),
        before.state().wf(),
        before.state().live.dom().contains(id),
    ensures
        !after.state().live.dom().contains(id),
        exists|i: int, j: int|
            #![trigger effects(r@)[i], effects(r@)[j]]
            0 <= i < j < effects(r@).len() && effects(r@)[i] is Fail && effects(r@)[i]->Fail_0 == id
                && effects(r@)[j] is Completed && effects(r@)[j]->Completed_0.error == Some(e@),
{
    let s = before.state();
    let ids = choose|ids: Seq<i32>|
        {
            &&& ids.no_duplicates()
            &&& ids.to_set() == s.live.dom()
            &&& (router_socket_v3::Step { state: after.state(), effects: effects(r@) })
                == #[trigger] all_failed(before.socket(), s, ids, e@, now)
        };
    assert(ids.to_set().contains(id));
    assert forall|i: int| 0 <= i < ids.len() implies s.live.dom().contains(#[trigger] ids[i]) by {
        assert(ids.to_set().contains(ids[i]));
    }
    lemma_all_failed(before.socket(), s, ids, e@, now, id);
}

/// [`RouterSocketV3::on_close`] ends every request under way, and its listeners are told so; unless
/// all was well, with an error. The socket is to be taken out of the farm unless it was.
pub proof fn law_all_are_closed(
    before: RouterSocketV3,
    after: RouterSocketV3,
    frame: Option<CloseFrame>,
    is_removed: bool,
    now: i64,
    r: CloseOutcome,
    id: i32,
)
    requires
        exists|m: &mut RouterSocketV3|
            *m == before && *final(m) == after && #[trigger] call_ensures(
                RouterSocketV3::on_close,
                (m, frame, is_removed, now),
                r,
            ),
        before.state().wf(),
        before.state().live.dom().contains(id),
    ensures
        r.take_out == !is_removed,
        !after.state().live.dom().contains(id),
        exists|i: int|
            0 <= i < effects(r.effects@).len() && (#[trigger] effects(r.effects@)[i]) is Completed
                && effects(r.effects@)[i]->Completed_0.bytes_sent == before.state().live[id].to_client
                && effects(r.effects@)[i]->Completed_0.duration_millis == (now
                - before.state().live[id].start) as i64 && ((frame is None || frame->0.code != 1000)
                ==> effects(r.effects@)[i]->Completed_0.error is Some),
{
    let s = before.state();
    let (code, reason) = router_socket_v3::close_parts(crate::router_socket::opt_close(frame));
    let ids = choose|ids: Seq<i32>|
        {
            &&& ids.no_duplicates()
            &&& ids.to_set() == s.live.dom()
            &&& (router_socket_v3::Step { state: after.state(), effects: effects(r.effects@) })
                == #[trigger] all_closed(before.socket(), s, ids, code, reason, now)
        };
    law_close_completes_every_request(before.socket(), s, ids, code, reason, now, id);
    let shown = router_socket_v3::closed_context(
        router_socket_v3::cut_off(s.live[id], code, reason),
        now,
    ).info(before.socket());
    let i = choose|i: int|
        0 <= i < effects(r.effects@).len() && effects(r.effects@)[i] == EffectView::Completed(shown);
    assert(effects(r.effects@)[i] is Completed);
}

/// Without listeners, a piece of a request's body that was read goes to the connector as it is, and
/// more is read unless more than the high mark is on its way.
pub proof fn law_exchange_sends_the_body(
    before: RouterSocketV3,
    after: RouterSocketV3,
    config: &CrankerRouterConfig,
    req: &ClientRequest,
    id: i32,
    bytes: Bytes,
    ticket: u64,
    now: i64,
    r: V3Exchanged,
)
    requires
        exists|m: &mut RouterSocketV3|
            *m == before && *final(m) == after && #[trigger] call_ensures(
                RouterSocketV3::send_request_over_websocket_v3,
                (m, config, req, id, ExchangeEvent::Chunk(bytes), ticket, now),
                r,
            ),
        config.proxy_listeners@.len() == 0,
        before.state().wf(),
        before.state().uplink_open,
        before.state().live.dom().contains(id),
        octets(bytes).len() <= i32::MAX,
        before.state().live[id].pending + octets(bytes).len() <= i32::MAX,
    ensures
        effects(r.effects@) == seq![EffectView::Send(wire(0, 0, id, octets(bytes)))],
        ({
            let c = before.state().live[id];
            if c.writable && c.pending + octets(bytes).len() <= 65536 {
                r.action is ReadBody
            } else {
                r.action == ExchangeAction::Wait(ticket)
            }
        }),
{
    assert(before.state().live[id].request_id == id);
    law_wire(0, 0, id, octets(bytes));
}

/// Without listeners, the header text of a response becomes the client's answer: its status and its
/// headers are those that the target gave.
pub proof fn law_exchange_answers(
    before: RouterSocketV3,
    after: RouterSocketV3,
    config: &CrankerRouterConfig,
    req: &ClientRequest,
    id: i32,
    message: String,
    ticket: u64,
    now: i64,
    r: V3Exchanged,
    version: Seq<char>,
    status: u16,
    phrase: Seq<char>,
    hs: Seq<GivenHeader>,
    name: Seq<char>,
)
    requires
        exists|m: &mut RouterSocketV3|
            *m == before && *final(m) == after && #[trigger] call_ensures(
                RouterSocketV3::send_request_over_websocket_v3,
                (m, config, req, id, ExchangeEvent::Header(message), ticket, now),
                r,
            ),
        config.proxy_listeners@.len() == 0,
        before.state().wf(),
        before.state().live.dom().contains(id),
        !version.contains(' '),
        !version.contains('\n'),
        !phrase.contains('\n'),
        100 <= status <= 999,
        hs.len() <= 6554,
        forall|i: int| 0 <= i < hs.len() ==> (#[trigger] hs[i]).wf(),
        forall|i: int| 0 <= i < hs.len() ==> !(#[trigger] hs[i]).line().contains('\n'),
        message@ == text::join(
            seq![status_line(version, status, phrase)] + lines_of(hs),
            seq!['\n'],
        ),
    ensures
        r.action matches ExchangeAction::Respond(b) && builder_head(b) matches Some((code, es))
            && code == status && values_of(es, name) == (if stays_behind(name) {
            Seq::empty()
        } else {
            given_values(hs.reverse(), name)
        }),
{
    let lines = lines_of(hs);
    assert forall|i: int| 0 <= i < lines.len() implies !(#[trigger] lines[i]).contains('\n') by {
        assert(lines[i] == hs[i].line());
    }
    law_message_is_taken_apart(version, status, phrase, lines);
    let back = hs.reverse();
    assert(lines.reverse() =~= lines_of(back));
    assert forall|i: int| 0 <= i < back.len() implies (#[trigger] back[i]).wf() by {
        assert(back[i] == hs[hs.len() - 1 - i]);
    }
    assert forall|i: int| 0 <= i < lines_of(back).len() implies (
    #[trigger] lines_of(back)[i]).len() > 0 by {
        assert(back[i].wf());
    }
    lemma_none_empty(lines_of(back));
    law_response_has_the_headers(status, back, name);
}


/// [`RouterSocketV3::on_binary`] ends a request that the connector gives up: the client is told,
/// and the listeners see the code and the message that the connector gave.
pub proof fn law_request_is_given_up(
    before: RouterSocketV3,
    after: RouterSocketV3,
    bin: Bytes,
    flags: u8,
    id: i32,
    code: i32,
    message: Seq<char>,
    is_removed: bool,
    now: i64,
    r: BinaryOutcome,
)
    requires
        exists|m: &mut RouterSocketV3|
            *m == before && *final(m) == after && #[trigger] call_ensures(
                RouterSocketV3::on_binary,
                (m, bin, is_removed, now),
                r,
            ),
        before.state().wf(),
        before.state().live.dom().contains(id),
        octets(bin) == wire(3, flags, id, be_octets(code) + encode_utf8(message)),
    ensures
        !after.state().live.dom().contains(id),
        effects(r.effects@).len() == 2,
        effects(r.effects@)[0] matches EffectView::Fail(to, _) && to == id,
        effects(r.effects@)[1] matches EffectView::Completed(info) && (info.error matches Some(e)
            && ("stream closed by connector, error code: "@ + text::decimal_int(code as int)
            + ", error message: "@ + message).is_prefix_of(e.reason)),
        r.chunk is None,
{
    law_given_up(before.socket(), before.state(), flags, id, code, message, is_removed, now);
    law_wire(3, flags, id, be_octets(code) + encode_utf8(message));
}

/// [`RouterSocketV3::on_binary`] lets a frame that is too short, or of a type that there is not,
/// change nothing.
pub proof fn law_strange_frame_is_passed_over(
    before: RouterSocketV3,
    after: RouterSocketV3,
    bin: Bytes,
    is_removed: bool,
    now: i64,
    r: BinaryOutcome,
)
    requires
        exists|m: &mut RouterSocketV3|
            *m == before && *final(m) == after && #[trigger] call_ensures(
                RouterSocketV3::on_binary,
                (m, bin, is_removed, now),
                r,
            ),
        before.state().wf(),
        octets(bin).len() < 6 || !(octets(bin)[0] == 0 || octets(bin)[0] == 1 || octets(bin)[0] == 3
            || octets(bin)[0] == 8),
    ensures
        after.state() == before.state(),
        effects(r.effects@).len() == 0,
        r.chunk is None,
{
    law_strange_frame(before.socket(), before.state(), octets(bin), is_removed, now);
}


/// Over a socket that was removed the listeners get no piece of a response.
pub proof fn law_removed_socket_hands_no_piece_over(
    before: RouterSocketV3,
    after: RouterSocketV3,
    bin: Bytes,
    now: i64,
    r: BinaryOutcome,
)
    requires
        exists|m: &mut RouterSocketV3|
            *m == before && *final(m) == after && #[trigger] call_ensures(
                RouterSocketV3::on_binary,
                (m, bin, true, now),
                r,
            ),
    ensures
        r.chunk is None,
{
}

} // verus!
