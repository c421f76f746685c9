//! What holds of the responses that come over a connection of several requests, whatever frames
//! come in.

use crate::request_context::ContextView;
use crate::router_socket::RouterSocketInfo;
use crate::router_socket_v3::{
    after, failed, frame_came, law_frame_keeps_wf, EffectView, Step, V3View,
};
use crate::v3_laws::law_frame_concerns_one_request;
use crate::{frames, octets, router_socket_v3, text};
use vstd::prelude::*;
use vstd::utf8::{decode_utf8, encode_utf8, valid_utf8};

verus! {

/// The four bytes of a number from zero on, the most significant first.
pub open spec fn four_bytes(n: int) -> Seq<u8> {
    seq![
        (n / 0x100_0000) as u8,
        (n / 0x1_0000 % 0x100) as u8,
        (n / 0x100 % 0x100) as u8,
        (n % 0x100) as u8,
    ]
}

/// A frame as it goes over the connection: its type, its flags, the number of its request in four
/// bytes and what it carries.
pub open spec fn wire(msg_type: u8, flags: u8, id: i32, payload: Seq<u8>) -> Seq<u8> {
    seq![msg_type, flags] + four_bytes(id as int) + payload
}

/// A frame is read as it goes over the connection.
pub proof fn law_wire(msg_type: u8, flags: u8, id: i32, payload: Seq<u8>)
    requires
        id >= 0,
    ensures
        frames::frame(msg_type, flags, id, payload) == wire(msg_type, flags, id, payload),
        frames::parts(wire(msg_type, flags, id, payload)) == Some(
            frames::FrameView { msg_type, flags, req_id: id as int, payload },
        ),
{
    assert(frames::frame(msg_type, flags, id, payload) =~= wire(msg_type, flags, id, payload));
    frames::law_frame_is_read_back(msg_type, flags, id, payload);
}

/// The lowest bit of the flags says that the stream ends, the third that the headers end, and the
/// types of the frames have their numbers.
pub proof fn law_flags_and_types(flags: u8)
    ensures
        frames::ends_stream(flags) <==> flags & 1 == 1,
        frames::ends_header(flags) <==> flags & 4 == 4,
        frames::header_flags(true, true) == 5,
        frames::header_flags(true, false) == 4,
        frames::header_flags(false, true) == 1,
        frames::header_flags(false, false) == 0,
        frames::MESSAGE_TYPE_DATA == 0,
        frames::MESSAGE_TYPE_HEADER == 1,
        frames::MESSAGE_TYPE_RST_STREAM == 3,
        frames::MESSAGE_TYPE_WINDOW_UPDATE == 8,
{
    assert((flags % 2 == 1) == (flags & 1 == 1)) by (bit_vector);
    assert((flags / 4 % 2 == 1) == (flags & 4 == 4)) by (bit_vector);
}

/// What the client gets of the body of a request's response.
pub open spec fn body_of(effects: Seq<EffectView>, id: i32) -> Seq<u8>
    decreases effects.len(),
{
    if effects.len() == 0 {
        Seq::empty()
    } else {
        let before = body_of(effects.drop_last(), id);
        match effects.last() {
            EffectView::Body(k, b) if k == id => before + b,
            _ => before,
        }
    }
}

proof fn lemma_body_of_both(a: Seq<EffectView>, b: Seq<EffectView>, id: i32)
    ensures
        body_of(a + b, id) == body_of(a, id) + body_of(b, id),
    decreases b.len(),
{
    if b.len() == 0 {
        assert(a + b =~= a);
        assert(body_of(a, id) + body_of(b, id) =~= body_of(a, id));
    } else {
        lemma_body_of_both(a, b.drop_last(), id);
        assert((a + b).drop_last() =~= a + b.drop_last());
        assert((a + b).last() == b.last());
        assert(body_of(a + b, id) =~= body_of(a, id) + body_of(b, id));
    }
}

/// Whether nothing of a request's body is among the effects.
pub open spec fn no_body(effects: Seq<EffectView>, id: i32) -> bool {
    forall|i: int|
        0 <= i < effects.len() ==> !((#[trigger] effects[i]) is Body && effects[i]->Body_0 == id)
}

proof fn lemma_no_body(effects: Seq<EffectView>, id: i32)
    requires
        no_body(effects, id),
    ensures
        body_of(effects, id) == Seq::<u8>::empty(),
    decreases effects.len(),
{
    if effects.len() > 0 {
        let front = effects.drop_last();
        assert forall|i: int| 0 <= i < front.len() implies !((#[trigger] front[i]) is Body
            && front[i]->Body_0 == id) by {
            assert(front[i] == effects[i]);
        }
        lemma_no_body(front, id);
        let last = effects[effects.len() - 1];
        assert(!(last is Body && last->Body_0 == id));
    }
}

/// A piece of a response's body reaches the client whole and before the response is closed, whether
/// it is the last or not. It is counted, the connector is told how many bytes it may send again,
/// and with the last piece, and only with it, the request is over.
pub proof fn law_data_reaches_the_client(
    socket: RouterSocketInfo,
    s: V3View,
    flags: u8,
    id: i32,
    payload: Seq<u8>,
    now: i64,
)
    requires
        s.wf(),
        s.live.dom().contains(id),
        s.live[id].can_respond,
        payload.len() > 0,
    ensures
        ({
            let step = frame_came(socket, s, wire(0, flags, id, payload), false, now);
            let c = ContextView { frames: s.live[id].frames.wrapping_add(1), ..s.live[id] };
            let ended = ContextView {
                response_open: false,
                duration: (now - c.start) as i64,
                ..c
            };
            let counted = c.to_client.wrapping_add(payload.len() as i64);
            let ends = flags & 1 == 1;
            &&& step.effects == seq![EffectView::Body(id, payload)] + (if ends {
                seq![EffectView::BodyReceived(c.info(socket))] + (if c.response_open {
                    seq![EffectView::CloseResponse(id)]
                } else {
                    Seq::empty()
                }) + seq![EffectView::Completed(ended.info(socket))]
            } else {
                Seq::empty()
            }) + (if s.uplink_open {
                seq![EffectView::Send(wire(8, 0, id, octets::be_octets(payload.len() as i32)))]
            } else {
                Seq::empty()
            })
            &&& body_of(step.effects, id) == payload
            &&& step.state.live.dom().contains(id) == !ends
            &&& !ends ==> step.state.live[id] == ContextView { to_client: counted, ..c }
            &&& ends && c.being_sent ==> step.state.retired.dom().contains(id)
                && step.state.retired[id] == ContextView { to_client: counted, ..ended }
        }),
{
    reveal(router_socket_v3::closed_effects);
    assert(s.live[id].request_id == id);
    law_wire(0, flags, id, payload);
    law_wire(8, 0, id, octets::be_octets(payload.len() as i32));
    law_flags_and_types(flags);
    let step = frame_came(socket, s, wire(0, flags, id, payload), false, now);
    let c = ContextView { frames: s.live[id].frames.wrapping_add(1), ..s.live[id] };
    let ended = ContextView { response_open: false, duration: (now - c.start) as i64, ..c };
    let body = seq![EffectView::Body(id, payload)];
    let rest = (if flags & 1 == 1 {
        seq![EffectView::BodyReceived(c.info(socket))] + (if c.response_open {
            seq![EffectView::CloseResponse(id)]
        } else {
            Seq::empty()
        }) + seq![EffectView::Completed(ended.info(socket))]
    } else {
        Seq::empty()
    }) + (if s.uplink_open {
        seq![EffectView::Send(wire(8, 0, id, octets::be_octets(payload.len() as i32)))]
    } else {
        Seq::empty()
    });
    assert(step.effects =~= body + rest);
    lemma_body_of_both(body, rest, id);
    lemma_no_body(rest, id);
    assert(body.drop_last() =~= Seq::empty());
    assert(body_of(body.drop_last(), id) == Seq::<u8>::empty());
    assert(body_of(body, id) =~= payload);
    assert(body_of(step.effects, id) =~= payload);
}

/// What comes of several frames, one after the other.
pub open spec fn all_came(
    socket: RouterSocketInfo,
    s: V3View,
    bins: Seq<Seq<u8>>,
    now: i64,
) -> Step
    decreases bins.len(),
{
    if bins.len() == 0 {
        Step { state: s, effects: Seq::empty() }
    } else {
        let before = all_came(socket, s, bins.drop_last(), now);
        let next = frame_came(socket, before.state, bins.last(), false, now);
        Step { state: next.state, effects: before.effects + next.effects }
    }
}

/// Whether a frame is one of a request.
pub open spec fn is_frame_of(bin: Seq<u8>, id: i32) -> bool {
    bin.len() >= 6 && bin.subrange(2, 6) == four_bytes(id as int)
}

/// What the frames of a request carry, one behind the other.
pub open spec fn carried(bins: Seq<Seq<u8>>, id: i32) -> Seq<u8>
    decreases bins.len(),
{
    if bins.len() == 0 {
        Seq::empty()
    } else if is_frame_of(bins.last(), id) {
        carried(bins.drop_last(), id) + bins.last().skip(6)
    } else {
        carried(bins.drop_last(), id)
    }
}

proof fn lemma_four_bytes(a: u8, b: u8, c: u8, d: u8, id: i32)
    requires
        id >= 0,
    ensures
        seq![a, b, c, d] == four_bytes(id as int) <==> octets::be_value(a, b, c, d) == id,
{
    let o = seq![a, b, c, d];
    let f = four_bytes(id as int);
    let n = id as u32;
    assert(n < 0x8000_0000 ==> ((a == n / 0x100_0000 && b == n / 0x1_0000 % 0x100 && c == n / 0x100
        % 0x100 && d == n % 0x100) <==> n == (a as u32) * 0x100_0000 + (b as u32) * 0x1_0000 + (
    c as u32) * 0x100 + (d as u32))) by (bit_vector);
    assert(f[0] == n / 0x100_0000 && f[1] == n / 0x1_0000 % 0x100 && f[2] == n / 0x100 % 0x100
        && f[3] == n % 0x100);
    assert(o[0] == a && o[1] == b && o[2] == c && o[3] == d);
    if octets::be_value(a, b, c, d) == id {
        assert(o =~= f);
    }
}

proof fn lemma_frame_of(bin: Seq<u8>, id: i32)
    requires
        id >= 0,
    ensures
        is_frame_of(bin, id) <==> (frames::parts(bin) matches Some(f) && f.req_id == id),
        is_frame_of(bin, id) ==> bin == wire(bin[0], bin[1], id, bin.skip(6)),
{
    if bin.len() >= 6 {
        lemma_four_bytes(bin[2], bin[3], bin[4], bin[5], id);
        assert(bin.subrange(2, 6) =~= seq![bin[2], bin[3], bin[4], bin[5]]);
        if is_frame_of(bin, id) {
            assert(bin =~= seq![bin[0], bin[1]] + bin.subrange(2, 6) + bin.skip(6));
        }
    }
}

proof fn lemma_closed_no_body(
    socket: RouterSocketInfo,
    s: V3View,
    c: ContextView,
    code: u16,
    now: i64,
    id: i32,
)
    ensures
        no_body(router_socket_v3::closed(socket, s, c, code, now).effects, id),
{
    reveal(router_socket_v3::closed_effects);
}

proof fn lemma_failed_no_body(
    socket: RouterSocketInfo,
    s: V3View,
    c: ContextView,
    e: crate::exceptions::ExceptionView,
    now: i64,
    id: i32,
)
    ensures
        no_body(failed(socket, s, c, e, now).effects, id),
{
    reveal(failed);
}

proof fn lemma_no_body_of_both(a: Seq<EffectView>, b: Seq<EffectView>, id: i32)
    requires
        no_body(a, id),
        no_body(b, id),
    ensures
        no_body(a + b, id),
{
    let all = a + b;
    assert forall|i: int| 0 <= i < all.len() implies !((#[trigger] all[i]) is Body
        && all[i]->Body_0 == id) by {
        if i < a.len() {
            assert(all[i] == a[i]);
        } else {
            assert(all[i] == b[i - a.len()]);
        }
    }
}

proof fn lemma_data_no_body(
    socket: RouterSocketInfo,
    s: V3View,
    c: ContextView,
    flags: u8,
    payload: Seq<u8>,
    now: i64,
    id: i32,
)
    requires
        c.request_id != id,
    ensures
        no_body(router_socket_v3::data_came(socket, s, c, flags, payload, false, now).effects, id),
{
    let k = c.request_id;
    lemma_failed_no_body(socket, s, c, router_socket_v3::too_early_error(socket, k), now, id);
    lemma_closed_no_body(socket, s, c, 1000, now, id);
    let c1 = ContextView { frames: c.frames.wrapping_add(1), ..c };
    lemma_closed_no_body(socket, s, c1, 1000, now, id);
    let body = seq![EffectView::Body(k, payload)];
    let update = router_socket_v3::window_update(s, k, payload.len() as i32);
    let first = router_socket_v3::closed(socket, s, c1, 1000, now).effects;
    lemma_no_body_of_both(body, first, id);
    lemma_no_body_of_both(body + first, update, id);
    lemma_no_body_of_both(body, update, id);
}

proof fn lemma_header_no_body(
    socket: RouterSocketInfo,
    s: V3View,
    c: ContextView,
    flags: u8,
    payload: Seq<u8>,
    now: i64,
    id: i32,
)
    ensures
        no_body(router_socket_v3::header_came(socket, s, c, flags, payload, now).effects, id),
{
    let k = c.request_id;
    lemma_failed_no_body(socket, s, c, router_socket_v3::too_early_error(socket, k), now, id);
    lemma_failed_no_body(socket, s, c, router_socket_v3::too_long_error(socket, k), now, id);
    lemma_failed_no_body(
        socket,
        s,
        c,
        router_socket_v3::no_text_error(socket, k, payload),
        now,
        id,
    );
    let c1 = ContextView { header_text: c.header_text + decode_utf8(payload), ..c };
    let header = if frames::ends_header(flags) {
        seq![EffectView::HeaderText(k, c1.header_text)]
    } else {
        Seq::empty()
    };
    let update = router_socket_v3::window_update(s, k, payload.len() as i32);
    let first = router_socket_v3::closed(socket, s, c1, 1000, now);
    let e = router_socket_v3::send_data_error(socket);
    let c2 = router_socket_v3::closed_context(c1, now);
    lemma_closed_no_body(socket, s, c1, 1000, now, id);
    lemma_failed_no_body(socket, first.state, c2, e, now, id);
    lemma_failed_no_body(socket, s.put(c1), c1, e, now, id);
    lemma_no_body_of_both(header, first.effects, id);
    lemma_no_body_of_both(header + first.effects, update, id);
    lemma_no_body_of_both(
        header + first.effects,
        failed(socket, first.state, c2, e, now).effects,
        id,
    );
    lemma_no_body_of_both(header, update, id);
    lemma_no_body_of_both(header, failed(socket, s.put(c1), c1, e, now).effects, id);
}

proof fn lemma_no_body_of_others(
    socket: RouterSocketInfo,
    s: V3View,
    bin: Seq<u8>,
    now: i64,
    id: i32,
)
    requires
        s.wf(),
        id >= 0,
        !is_frame_of(bin, id),
    ensures
        no_body(frame_came(socket, s, bin, false, now).effects, id),
{
    lemma_frame_of(bin, id);
    if let Some(f) = frames::parts(bin) {
        let k = f.req_id as i32;
        if s.live.dom().contains(k) {
            let c = s.live[k];
            assert(c.request_id == k);
            lemma_data_no_body(socket, s, c, f.flags, f.payload, now, id);
            lemma_header_no_body(socket, s, c, f.flags, f.payload, now, id);
            lemma_failed_no_body(
                socket,
                s,
                c,
                router_socket_v3::rst_error(socket, k, f.payload),
                now,
                id,
            );
        }
    }
}

/// The client gets the body of its response whole: all that the frames of the request carry, in
/// their order, whatever comes for other requests in between.
pub proof fn law_body_is_whole(
    socket: RouterSocketInfo,
    s: V3View,
    bins: Seq<Seq<u8>>,
    now: i64,
    id: i32,
)
    requires
        s.wf(),
        s.live.dom().contains(id),
        s.live[id].can_respond,
        forall|i: int|
            0 <= i < bins.len() && is_frame_of(#[trigger] bins[i], id) ==> bins[i][0] == 0 && (i
                < bins.len() - 1 ==> bins[i][1] & 1 == 0),
    ensures
        body_of(all_came(socket, s, bins, now).effects, id) == carried(bins, id),
        all_came(socket, s, bins, now).state.wf(),
        (bins.len() > 0 && is_frame_of(bins.last(), id) ==> bins.last()[1] & 1 == 0) ==> {
            let t = all_came(socket, s, bins, now).state;
            t.live.dom().contains(id) && t.live[id].can_respond
        },
    decreases bins.len(),
{
    if bins.len() > 0 {
        let front = bins.drop_last();
        let bin = bins.last();
        assert(bin == bins[bins.len() - 1]);
        assert forall|i: int| 0 <= i < front.len() && is_frame_of(#[trigger] front[i], id) implies
            front[i][0] == 0 && (i < front.len() - 1 ==> front[i][1] & 1 == 0) by {
            assert(front[i] == bins[i]);
        }
        if front.len() > 0 {
            assert(front.last() == bins[bins.len() - 2]);
        }
        law_body_is_whole(socket, s, front, now, id);
        let before = all_came(socket, s, front, now);
        let t = before.state;
        let next = frame_came(socket, t, bin, false, now);
        assert(t.live[id].request_id == id);
        law_frame_keeps_wf(socket, t, bin, false, now);
        lemma_body_of_both(before.effects, next.effects, id);
        lemma_frame_of(bin, id);
        if is_frame_of(bin, id) {
            let payload = bin.skip(6);
            law_wire(bin[0], bin[1], id, payload);
            law_flags_and_types(bin[1]);
            let flags = bin[1];
            assert(flags & 1 == 0 || flags & 1 == 1) by (bit_vector);
            if payload.len() > 0 {
                law_data_reaches_the_client(socket, t, bin[1], id, payload, now);
            } else {
                reveal(router_socket_v3::closed_effects);
                lemma_no_body(next.effects, id);
                assert(payload =~= Seq::empty());
            }
        } else {
            lemma_no_body_of_others(socket, t, bin, now, id);
            lemma_no_body(next.effects, id);
            law_frame_concerns_one_request(socket, t, bin, false, now, id);
        }
        assert(body_of(all_came(socket, s, bins, now).effects, id) =~= carried(bins, id));
    }
}

/// The header text of a response is gathered from its frames; with the frame that ends the headers,
/// and with no other, it reaches the client. A frame that ends the stream too ends the request.
pub proof fn law_header_reaches_the_client(
    socket: RouterSocketInfo,
    s: V3View,
    flags: u8,
    id: i32,
    payload: Seq<u8>,
    is_removed: bool,
    now: i64,
)
    requires
        s.wf(),
        s.live.dom().contains(id),
        s.live[id].can_respond,
        s.uplink_open,
        valid_utf8(payload),
        payload.len() <= i32::MAX,
    ensures
        ({
            let step = frame_came(socket, s, wire(1, flags, id, payload), is_removed, now);
            let c = ContextView {
                header_text: s.live[id].header_text + decode_utf8(payload),
                ..s.live[id]
            };
            let ended = ContextView {
                response_open: false,
                duration: (now - c.start) as i64,
                ..c
            };
            let ends = flags & 1 == 1;
            &&& step.effects == (if flags & 4 == 4 {
                seq![EffectView::HeaderText(id, c.header_text)]
            } else {
                Seq::empty()
            }) + (if ends {
                seq![EffectView::BodyReceived(c.info(socket))] + (if c.response_open {
                    seq![EffectView::CloseResponse(id)]
                } else {
                    Seq::empty()
                }) + seq![EffectView::Completed(ended.info(socket))]
            } else {
                Seq::empty()
            }) + seq![EffectView::Send(wire(8, 0, id, octets::be_octets(payload.len() as i32)))]
            &&& step.state.live.dom().contains(id) == !ends
            &&& !ends ==> step.state == s.put(c)
        }),
{
    reveal(router_socket_v3::closed_effects);
    assert(s.live[id].request_id == id);
    law_wire(1, flags, id, payload);
    law_wire(8, 0, id, octets::be_octets(payload.len() as i32));
    law_flags_and_types(flags);
    let step = frame_came(socket, s, wire(1, flags, id, payload), is_removed, now);
    let c = ContextView {
        header_text: s.live[id].header_text + decode_utf8(payload),
        ..s.live[id]
    };
    let ended = ContextView { response_open: false, duration: (now - c.start) as i64, ..c };
    assert(step.effects =~= (if flags & 4 == 4 {
        seq![EffectView::HeaderText(id, c.header_text)]
    } else {
        Seq::empty()
    }) + (if flags & 1 == 1 {
        seq![EffectView::BodyReceived(c.info(socket))] + (if c.response_open {
            seq![EffectView::CloseResponse(id)]
        } else {
            Seq::empty()
        }) + seq![EffectView::Completed(ended.info(socket))]
    } else {
        Seq::empty()
    }) + seq![EffectView::Send(wire(8, 0, id, octets::be_octets(payload.len() as i32)))]);
}

/// The header texts that reach the client of a request.
pub open spec fn headers_of(effects: Seq<EffectView>, id: i32) -> Seq<Seq<char>>
    decreases effects.len(),
{
    if effects.len() == 0 {
        Seq::empty()
    } else {
        let before = headers_of(effects.drop_last(), id);
        match effects.last() {
            EffectView::HeaderText(k, t) if k == id => before.push(t),
            _ => before,
        }
    }
}

proof fn lemma_encoded_len(s: Seq<char>)
    ensures
        encode_utf8(s).len() <= 4 * s.len(),
    decreases s.len(),
{
    if s.len() > 0 {
        lemma_encoded_len(s.drop_first());
    }
}

/// Whether a request waits for the rest of its header text, of which so much has come.
spec fn waits_with(s: V3View, id: i32, text: Seq<char>) -> bool {
    &&& s.wf()
    &&& s.uplink_open
    &&& s.live.dom().contains(id)
    &&& s.live[id].can_respond
    &&& s.live[id].header_text == text
}

proof fn lemma_header_frame(
    socket: RouterSocketInfo,
    s: V3View,
    id: i32,
    is_last: bool,
    gathered: Seq<char>,
    part: Seq<char>,
    now: i64,
)
    requires
        waits_with(s, id, gathered),
        part.len() <= 16000 || encode_utf8(part).len() < 16000,
    ensures
        ({
            let bin = frames::frame(1, frames::header_flags(is_last, false), id, encode_utf8(part));
            let step = frame_came(socket, s, bin, false, now);
            &&& waits_with(step.state, id, gathered + part)
            &&& forall|first: Seq<EffectView>| #[trigger]
                headers_of(first + step.effects, id) == (if is_last {
                    headers_of(first, id).push(gathered + part)
                } else {
                    headers_of(first, id)
                })
        }),
{
    let flags = frames::header_flags(is_last, false);
    let payload = encode_utf8(part);
    lemma_encoded_len(part);
    vstd::utf8::encode_utf8_valid_utf8(part);
    vstd::utf8::encode_utf8_decode_utf8(part);
    law_wire(1, flags, id, payload);
    let bin = frames::frame(1, flags, id, payload);
    law_frame_keeps_wf(socket, s, bin, false, now);
    law_header_reaches_the_client(socket, s, flags, id, payload, false, now);
    assert(4u8 & 1 == 0 && 0u8 & 1 == 0 && 4u8 & 4 == 4 && 0u8 & 4 == 0) by (bit_vector);
    let step = frame_came(socket, s, bin, false, now);
    let sent = EffectView::Send(wire(8, 0, id, octets::be_octets(payload.len() as i32)));
    assert(step.effects =~= if is_last {
        seq![EffectView::HeaderText(id, gathered + part), sent]
    } else {
        seq![sent]
    });
    assert forall|first: Seq<EffectView>| #[trigger]
        headers_of(first + step.effects, id) == (if is_last {
            headers_of(first, id).push(gathered + part)
        } else {
            headers_of(first, id)
        }) by {
        let all = first + step.effects;
        assert(all.last() == sent);
        if is_last {
            assert(all.drop_last().last() == EffectView::HeaderText(id, gathered + part));
            assert(all.drop_last().drop_last() =~= first);
            assert(headers_of(all.drop_last(), id) == headers_of(first, id).push(gathered + part));
        } else {
            assert(all.drop_last() =~= first);
        }
    }
}

proof fn lemma_header_frames(
    socket: RouterSocketInfo,
    s: V3View,
    id: i32,
    line: Seq<char>,
    n: int,
    now: i64,
)
    requires
        waits_with(s, id, Seq::empty()),
        encode_utf8(line).len() >= frames::HEADER_CHUNK_SIZE,
        0 <= n <= frames::chunk_count(line),
    ensures
        ({
            let bins = frames::header_frames(id, true, false, line).take(n);
            let step = all_came(socket, s, bins, now);
            let upto = if n * frames::HEADER_CHUNK_SIZE < line.len() {
                n * frames::HEADER_CHUNK_SIZE
            } else {
                line.len() as int
            };
            &&& waits_with(step.state, id, line.take(upto))
            &&& headers_of(step.effects, id) == (if n == frames::chunk_count(line) {
                seq![line]
            } else {
                Seq::empty()
            })
        }),
    decreases n,
{
    let all = frames::header_frames(id, true, false, line);
    let bins = all.take(n);
    lemma_encoded_len(line);
    assert(frames::chunk_count(line) > 0);
    if n == 0 {
        assert(bins =~= Seq::empty());
        assert(line.take(0) =~= Seq::empty());
    } else {
        lemma_header_frames(socket, s, id, line, n - 1, now);
        assert(bins.drop_last() =~= all.take(n - 1));
        let part = frames::chunk(line, n - 1);
        let is_last = n == frames::chunk_count(line);
        let from = (n - 1) * frames::HEADER_CHUNK_SIZE;
        assert(from < line.len());
        let before = all_came(socket, s, all.take(n - 1), now);
        lemma_header_frame(socket, before.state, id, is_last, line.take(from), part, now);
        assert(bins.last() == frames::frame(
            1,
            frames::header_flags(is_last, false),
            id,
            encode_utf8(part),
        ));
        let upto = if n * frames::HEADER_CHUNK_SIZE < line.len() {
            n * frames::HEADER_CHUNK_SIZE
        } else {
            line.len() as int
        };
        assert(line.take(from) + part =~= line.take(upto));
        if is_last {
            assert(line.take(upto) =~= line);
            assert(headers_of(before.effects, id).push(line) =~= seq![line]);
        }
    }
}

/// A header text that comes in frames, however long it is, reaches the client as it was, and once.
pub proof fn law_header_text_is_whole(
    socket: RouterSocketInfo,
    s: V3View,
    id: i32,
    line: Seq<char>,
    now: i64,
)
    requires
        s.wf(),
        s.uplink_open,
        s.live.dom().contains(id),
        s.live[id].can_respond,
        s.live[id].header_text.len() == 0,
    ensures
        headers_of(
            all_came(socket, s, frames::header_frames(id, true, false, line), now).effects,
            id,
        ) == seq![line],
{
    let bins = frames::header_frames(id, true, false, line);
    assert(s.live[id].header_text =~= Seq::empty());
    if encode_utf8(line).len() < frames::HEADER_CHUNK_SIZE {
        assert(bins.drop_last() =~= Seq::empty());
        let none = all_came(socket, s, bins.drop_last(), now);
        assert(none.effects =~= Seq::empty());
        lemma_header_frame(socket, s, id, true, Seq::empty(), line, now);
        assert(Seq::<char>::empty() + line =~= line);
        assert(headers_of(none.effects, id).push(line) =~= seq![line]);
    } else {
        lemma_header_frames(socket, s, id, line, frames::chunk_count(line), now);
        assert(bins.take(frames::chunk_count(line)) =~= bins);
    }
}

/// A request that the connector gives up is over, its client is told, and the listeners see the
/// code and the message that the connector gave.
pub proof fn law_given_up(
    socket: RouterSocketInfo,
    s: V3View,
    flags: u8,
    id: i32,
    code: i32,
    message: Seq<char>,
    is_removed: bool,
    now: i64,
)
    requires
        s.wf(),
        s.live.dom().contains(id),
    ensures
        ({
            let payload = octets::be_octets(code) + encode_utf8(message);
            let step = frame_came(socket, s, wire(3, flags, id, payload), is_removed, now);
            let shown = "stream closed by connector, error code: "@ + text::decimal_int(code as int)
                + ", error message: "@ + message;
            &&& !step.state.live.dom().contains(id)
            &&& step.effects.len() == 2
            &&& step.effects[0] is Fail && step.effects[0]->Fail_0 == id
            &&& step.effects[1] is Completed
            &&& step.effects[1]->Completed_0.error matches Some(e) && shown.is_prefix_of(e.reason)
        }),
{
    reveal(failed);
    let payload = octets::be_octets(code) + encode_utf8(message);
    assert(s.live[id].request_id == id);
    law_wire(3, flags, id, payload);
    octets::law_be_octets(code);
    let o = octets::be_octets(code);
    assert(payload[0] == o[0] && payload[1] == o[1] && payload[2] == o[2] && payload[3] == o[3]);
    assert(payload.skip(4) =~= encode_utf8(message));
    vstd::utf8::encode_utf8_valid_utf8(message);
    vstd::utf8::encode_utf8_decode_utf8(message);
    if encode_utf8(message).len() == 0 {
        lemma_empty_code(message);
    }
    let shown = "stream closed by connector, error code: "@ + text::decimal_int(code as int)
        + ", error message: "@ + message;
    let e = router_socket_v3::rst_error(socket, id, payload);
    assert(e.reason =~= shown + (","@ + router_socket_v3::error_place(socket, id)));
}

proof fn lemma_empty_code(s: Seq<char>)
    requires
        encode_utf8(s).len() == 0,
    ensures
        s == Seq::<char>::empty(),
{
    vstd::utf8::encode_utf8_decode_utf8(s);
    assert(encode_utf8(s) =~= Seq::empty());
    assert(s =~= Seq::empty());
}

/// An acknowledgement lowers the count of the bytes on their way. Whoever waits to read more is let
/// go by the one that brings it below the low mark, and reading goes on from then.
pub proof fn law_acknowledged(
    socket: RouterSocketInfo,
    s: V3View,
    flags: u8,
    id: i32,
    n: i32,
    is_removed: bool,
    now: i64,
)
    requires
        s.wf(),
        s.live.dom().contains(id),
    ensures
        ({
            let step = frame_came(
                socket,
                s,
                wire(8, flags, id, octets::be_octets(n)),
                is_removed,
                now,
            );
            let c = s.live[id];
            let pending = c.pending.wrapping_sub(n);
            let freed = !c.writable && pending < 16384;
            &&& step.state == s.put(
                ContextView {
                    acked: c.acked.wrapping_add(n),
                    pending,
                    writable: c.writable || freed,
                    readers: if freed {
                        Seq::empty()
                    } else {
                        c.readers
                    },
                    ..c
                },
            )
            &&& step.effects.len() == (if freed {
                c.readers.len()
            } else {
                0
            })
            &&& freed ==> forall|i: int|
                0 <= i < c.readers.len() ==> (#[trigger] step.effects[i]) == EffectView::Release(
                    id,
                    c.readers[i],
                )
        }),
{
    assert(s.live[id].request_id == id);
    law_wire(8, flags, id, octets::be_octets(n));
    octets::law_be_octets(n);
}

/// A frame that is too short, of a request that is not under way or of a type that there is not
/// changes nothing.
pub proof fn law_strange_frame(
    socket: RouterSocketInfo,
    s: V3View,
    bin: Seq<u8>,
    is_removed: bool,
    now: i64,
)
    requires
        bin.len() < 6 || !(bin[0] == 0 || bin[0] == 1 || bin[0] == 3 || bin[0] == 8) || (forall|
            id: i32,
        |
            is_frame_of(bin, id) ==> !#[trigger] s.live.dom().contains(id)),
        s.wf(),
    ensures
        frame_came(socket, s, bin, is_removed, now).state == s,
        frame_came(socket, s, bin, is_removed, now).effects.len() == 0,
{
    if let Some(f) = frames::parts(bin) {
        let id = f.req_id as i32;
        if s.live.dom().contains(id) {
            lemma_frame_of(bin, id);
        }
    }
}

/// Nothing of a response reaches the client before its request was sent, or over a connection that
/// was removed: the request fails instead.
pub proof fn law_untimely_response_fails(
    socket: RouterSocketInfo,
    s: V3View,
    msg_type: u8,
    flags: u8,
    id: i32,
    payload: Seq<u8>,
    is_removed: bool,
    now: i64,
)
    requires
        s.wf(),
        s.live.dom().contains(id),
        (!s.live[id].can_respond && (msg_type == 0 || msg_type == 1)) || (is_removed && msg_type == 0
            && payload.len() > 0),
    ensures
        ({
            let step = frame_came(socket, s, wire(msg_type, flags, id, payload), is_removed, now);
            &&& !step.state.live.dom().contains(id)
            &&& exists|i: int|
                0 <= i < step.effects.len() && (#[trigger] step.effects[i]) is Fail
                    && step.effects[i]->Fail_0 == id
            &&& forall|i: int|
                0 <= i < step.effects.len() ==> !((#[trigger] step.effects[i]) is Body)
                    && !(step.effects[i] is HeaderText)
        }),
{
    reveal(failed);
    reveal(router_socket_v3::closed_effects);
    assert(s.live[id].request_id == id);
    law_wire(msg_type, flags, id, payload);
    let step = frame_came(socket, s, wire(msg_type, flags, id, payload), is_removed, now);
    let n = step.effects.len() as int;
    assert(step.effects[0] is Fail || step.effects[n - 1] is Fail || step.effects[n - 2] is Fail);
}

/// What a client is told of an error: with the status 502 while nothing of its request was sent,
/// with 504 when the time ran out after that, and otherwise with the status that the error has.
/// The reason is always part of it.
pub proof fn law_error_to_client(c: ContextView, e: crate::exceptions::ExceptionView)
    ensures
        ({
            let told = router_socket_v3::error_to_client(c, e);
            let not_started = c.can_respond && c.from_client == 0;
            let timeout = e.opt_err_kind == Some(crate::exceptions::CrexKind::Timeout_0001);
            &&& told.opt_err_kind == e.opt_err_kind
            &&& told.opt_status_code == (if not_started {
                if timeout {
                    e.opt_status_code
                } else {
                    Some(502)
                }
            } else if timeout {
                Some(504)
            } else {
                e.opt_status_code
            })
            &&& told.reason == (if not_started {
                if timeout {
                    e.reason
                } else {
                    "502 Bad Gateway"@ + seq![' '] + e.reason
                }
            } else if timeout {
                "504 Gateway Timeout"@ + seq![' '] + (e.reason
                    + "closing cli req early due to timeout"@)
            } else {
                e.reason + "closing cli req early due to cranker wss conn err"@
            })
        }),
{
    let told = router_socket_v3::error_to_client(c, e);
    assert("502 Bad Gateway"@.push(' ') =~= "502 Bad Gateway"@ + seq![' ']);
    assert("504 Gateway Timeout"@.push(' ') =~= "504 Gateway Timeout"@ + seq![' ']);
}

/// A request that is closed tells its listeners that the body has come and that it is over, and
/// takes nothing more for its response. Its client is told of an error where nothing of the request
/// was sent and the connector gave an error's code, and only there.
pub proof fn law_closing(
    socket: RouterSocketInfo,
    s: V3View,
    c: ContextView,
    code: u16,
    now: i64,
)
    ensures
        ({
            let step = router_socket_v3::closed(socket, s, c, code, now);
            let ended = ContextView {
                response_open: false,
                duration: (now - c.start) as i64,
                ..c
            };
            let e = crate::exceptions::ExceptionView {
                reason: if code == 1011 {
                    "ws code 1011"@
                } else {
                    "ws code 1008"@
                },
                opt_status_code: Some(
                    if code == 1011 {
                        502u16
                    } else {
                        400u16
                    },
                ),
                opt_err_kind: None,
            };
            &&& step.effects == seq![EffectView::BodyReceived(c.info(socket))] + (if c.can_respond
                && c.from_client == 0 && (code == 1011 || code == 1008) {
                seq![EffectView::Fail(c.request_id, e)]
            } else {
                Seq::empty()
            }) + (if c.response_open {
                seq![EffectView::CloseResponse(c.request_id)]
            } else {
                Seq::empty()
            }) + seq![EffectView::Completed(ended.info(socket))]
            &&& !step.state.live.dom().contains(c.request_id)
            &&& c.being_sent ==> step.state.retired.dom().contains(c.request_id)
                && step.state.retired[c.request_id] == ended
            &&& !c.being_sent ==> step.state.retired == s.retired
        }),
{
    reveal(router_socket_v3::closed_effects);
    let step = router_socket_v3::closed(socket, s, c, code, now);
}

/// Sending a piece of a request's body counts its bytes, and with more than the high mark on their
/// way no more is read.
pub proof fn law_sending_is_counted(c: ContextView, n: nat)
    requires
        n <= i32::MAX,
    ensures
        ({
            let sent = router_socket_v3::chunk_sent(c, n);
            let pending = c.pending.wrapping_add(n as i32);
            sent == ContextView {
                pending,
                writable: c.writable && pending <= 65536,
                from_client: c.from_client.wrapping_add(n as i64),
                ..c
            }
        }),
{
}

/// A new request has the next number, has sent and got nothing, and waits for its headers to be
/// sent.
pub proof fn law_new_request(s: V3View, now: i64)
    requires
        s.last_id < i32::MAX,
    ensures
        ({
            let t = router_socket_v3::opened(s, now);
            let id = (s.last_id + 1) as i32;
            let c = t.live[id];
            &&& t.last_id == s.last_id + 1
            &&& t.live.dom() == s.live.dom().insert(id)
            &&& c.request_id == id && c.start == now
            &&& c.from_client == 0 && c.to_client == 0 && c.frames == 0 && c.pending == 0 && c.acked
                == 0
            &&& c.writable && c.readers.len() == 0
            &&& !c.can_respond && c.response_open && c.being_sent
            &&& c.header_text.len() == 0
            &&& c.error is None
            &&& t.retired == s.retired && t.uplink_open == s.uplink_open
        }),
{
    let t = router_socket_v3::opened(s, now);
    assert(t.live.dom() =~= s.live.dom().insert((s.last_id + 1) as i32));
}

/// What the listeners are told of a request: the socket's names and what was counted.
pub proof fn law_info(c: ContextView, socket: RouterSocketInfo)
    ensures
        ({
            let info = c.info(socket);
            &&& info.router_socket_id == socket.router_socket_id@
            &&& info.route == socket.route@
            &&& info.connector_id == socket.connector_id@
            &&& info.service_address == socket.service_address
            &&& info.bytes_received == c.from_client
            &&& info.bytes_sent == c.to_client
            &&& info.response_body_frames == c.frames
            &&& info.duration_millis == c.duration
            &&& info.error == c.error
        }),
{
}


/// A piece without bytes hands nothing over: as the last of a response it ends the request all the
/// same, and as any other it changes nothing.
pub proof fn law_empty_piece(
    socket: RouterSocketInfo,
    s: V3View,
    flags: u8,
    id: i32,
    is_removed: bool,
    now: i64,
)
    requires
        s.wf(),
        s.live.dom().contains(id),
        s.live[id].can_respond,
    ensures
        ({
            let step = frame_came(socket, s, wire(0, flags, id, Seq::empty()), is_removed, now);
            let c = s.live[id];
            &&& flags & 1 == 0 ==> step.state == s && step.effects.len() == 0
            &&& flags & 1 == 1 ==> {
                &&& !step.state.live.dom().contains(id)
                &&& step.effects[0] is BodyReceived
                &&& step.effects.last() matches EffectView::Completed(info) && info.duration_millis
                    == (now - c.start) as i64 && info.bytes_sent == c.to_client && info.error
                    == c.error
                &&& c.response_open ==> step.effects.len() == 3 && step.effects[1]
                    == EffectView::CloseResponse(id)
                &&& !c.response_open ==> step.effects.len() == 2
            }
        }),
{
    reveal(router_socket_v3::closed_effects);
    assert(s.live[id].request_id == id);
    law_wire(0, flags, id, Seq::empty());
    law_flags_and_types(flags);
    assert(flags & 1 == 0 || flags & 1 == 1) by (bit_vector);
}

/// A header frame that is no text, like one that is too long to be acknowledged, fails the request,
/// and no header text reaches the client.
pub proof fn law_no_text_fails(
    socket: RouterSocketInfo,
    s: V3View,
    flags: u8,
    id: i32,
    payload: Seq<u8>,
    is_removed: bool,
    now: i64,
)
    requires
        s.wf(),
        s.live.dom().contains(id),
        !valid_utf8(payload) || payload.len() > i32::MAX,
    ensures
        ({
            let step = frame_came(socket, s, wire(1, flags, id, payload), is_removed, now);
            &&& !step.state.live.dom().contains(id)
            &&& step.effects.len() == 2
            &&& step.effects[0] matches EffectView::Fail(to, _) && to == id
            &&& step.effects[1] matches EffectView::Completed(info) && info.error is Some
        }),
{
    reveal(failed);
    assert(s.live[id].request_id == id);
    law_wire(1, flags, id, payload);
}

/// Of an acknowledgement the first four bytes count, and one of fewer bytes changes nothing.
pub proof fn law_acknowledgement_is_four_bytes(
    socket: RouterSocketInfo,
    s: V3View,
    flags: u8,
    id: i32,
    n: i32,
    rest: Seq<u8>,
    is_removed: bool,
    now: i64,
)
    requires
        s.wf(),
        s.live.dom().contains(id),
    ensures
        frame_came(
            socket,
            s,
            wire(8, flags, id, octets::be_octets(n) + rest),
            is_removed,
            now,
        ) == frame_came(socket, s, wire(8, flags, id, octets::be_octets(n)), is_removed, now),
        rest.len() < 4 ==> frame_came(socket, s, wire(8, flags, id, rest), is_removed, now).state
            == s && frame_came(
            socket,
            s,
            wire(8, flags, id, rest),
            is_removed,
            now,
        ).effects.len() == 0,
{
    assert(s.live[id].request_id == id);
    law_wire(8, flags, id, octets::be_octets(n) + rest);
    law_wire(8, flags, id, octets::be_octets(n));
    law_wire(8, flags, id, rest);
}

/// A request on a connection that the connector closed keeps the error that it had; without one it
/// gets the code and the reason as its error, unless all was well. Nothing else of it changes.
pub proof fn law_cut_off(c: ContextView, code: u16, reason: Seq<char>)
    ensures
        ({
            let d = router_socket_v3::cut_off(c, code, reason);
            &&& c.error is Some || code == 1000 ==> d == c
            &&& c.error is None && code != 1000 ==> (d.error matches Some(e) && e.reason
                == "upstream server error: ws code="@ + text::decimal_int(code as int)
                + ", reason="@ + reason && e.opt_status_code is None && e.opt_err_kind is None)
            &&& d.to_client == c.to_client && d.from_client == c.from_client && d.frames == c.frames
                && d.request_id == c.request_id && d.response_open == c.response_open
        }),
{
}

} // verus!
