//! A connection by protocol version 3: many requests share it.
//!
//! The socket decides what has to be done about what comes in; the effects that it returns are
//! to be carried out in their order.

use crate::context_map::{map_insert, map_keys, map_len, map_new, map_remove};
use crate::exceptions::{CrankerRouterException, CrexKind, ExceptionView};
use crate::frames::{
    data_messages, get_error_code, get_error_message, header_messages,
    judge_is_header_end_from_flags, judge_is_stream_end_from_flags, read_frame, rst_message,
    window_update_message, HEADER_LEN_IN_BYTES, MESSAGE_TYPE_DATA, MESSAGE_TYPE_HEADER,
    MESSAGE_TYPE_RST_STREAM, MESSAGE_TYPE_WINDOW_UPDATE,
};
use crate::octets::{get_i32, octets_clone, octets_to_vec, remaining};
use crate::proxy_info::{ProxyInfoData, ProxyInfoView};
use crate::request_context::{ContextView, RequestContext};
use crate::router_socket::{
    opt_close, removed_socket_error, ClientRequestIdentifier, CloseFrame, MessageView,
    RouterSocketInfo, WsMessage,
};
use crate::{context_map, frames, octets, text};
use bytes::Bytes;
use dashmap::DashMap;
use vstd::prelude::*;
use vstd::utf8::{decode_utf8, valid_utf8};

verus! {

/// Something to be done about a request.
pub enum V3Effect {
    /// Send a frame to the connector.
    Send(Bytes),
    /// Hand the header text of the response over.
    HeaderText(i32, String),
    /// Hand a piece of the response's body over.
    Body(i32, Bytes),
    /// Hand an error over in place of the header text, and of the next piece of the body.
    Fail(i32, CrankerRouterException),
    /// Take nothing more for the response.
    CloseResponse(i32),
    /// Tell the listeners that the response's body has come in full.
    BodyReceived(ProxyInfoData),
    /// Tell the listeners that the request is over.
    Completed(ProxyInfoData),
    /// Let the one who waits under this ticket read more of the request's body.
    Release(i32, u64),
}

/// What an effect is about.
#[verifier::ext_equal]
pub enum EffectView {
    Send(Seq<u8>),
    HeaderText(i32, Seq<char>),
    Body(i32, Seq<u8>),
    Fail(i32, ExceptionView),
    CloseResponse(i32),
    BodyReceived(ProxyInfoView),
    Completed(ProxyInfoView),
    Release(i32, u64),
}

impl View for V3Effect {
    type V = EffectView;

    open spec fn view(&self) -> EffectView {
        match self {
            V3Effect::Send(b) => EffectView::Send(octets::octets(*b)),
            V3Effect::HeaderText(id, s) => EffectView::HeaderText(*id, s@),
            V3Effect::Body(id, b) => EffectView::Body(*id, octets::octets(*b)),
            V3Effect::Fail(id, e) => EffectView::Fail(*id, e@),
            V3Effect::CloseResponse(id) => EffectView::CloseResponse(*id),
            V3Effect::BodyReceived(i) => EffectView::BodyReceived(i@),
            V3Effect::Completed(i) => EffectView::Completed(i@),
            V3Effect::Release(id, t) => EffectView::Release(*id, *t),
        }
    }
}

/// What the effects of a sequence are about.
pub open spec fn effects(v: Seq<V3Effect>) -> Seq<EffectView> {
    v.map_values(|e: V3Effect| e@)
}

/// Adds one effect.
fn emit(out: &mut Vec<V3Effect>, e: V3Effect)
    ensures
        effects(final(out)@) == effects(old(out)@).push(e@),
{
    out.push(e);
    assert(effects(out@) =~= effects(old(out)@).push(e@));
}

/// A connection by protocol version 3.
pub struct RouterSocketV3 {
    info: RouterSocketInfo,
    /// The requests that are under way.
    context_map: DashMap<i32, RequestContext>,
    /// The requests that are over although they are still being sent.
    retired: DashMap<i32, RequestContext>,
    req_id_generator: i32,
    /// Whether frames can be sent to the connector.
    is_uplink_open: bool,
}

/// What a [`RouterSocketV3`] holds.
#[verifier::ext_equal]
pub struct V3View {
    pub live: Map<i32, ContextView>,
    pub retired: Map<i32, ContextView>,
    pub last_id: i32,
    pub uplink_open: bool,
}

/// What the requests of a map hold.
pub open spec fn context_views(m: Map<i32, RequestContext>) -> Map<i32, ContextView> {
    Map::new(|k: i32| m.dom().contains(k), |k: i32| m[k]@)
}

impl V3View {
    /// Each request stands under its number, no number was given out twice, and none is to come
    /// again.
    pub open spec fn wf(self) -> bool {
        &&& self.last_id >= 0
        &&& forall|k: i32| #[trigger]
            self.live.dom().contains(k) ==> 1 <= k <= self.last_id && self.live[k].request_id == k
                && self.live[k].start >= 0 && !self.retired.dom().contains(k)
        &&& forall|k: i32| #[trigger]
            self.retired.dom().contains(k) ==> 1 <= k <= self.last_id && self.retired[k].request_id
                == k && self.retired[k].start >= 0
    }

    /// A request under way has changed.
    pub open spec fn put(self, c: ContextView) -> V3View {
        V3View { live: self.live.insert(c.request_id, c), ..self }
    }

    /// A request under way is over. It is kept aside while it is still being sent.
    pub open spec fn over(self, c: ContextView) -> V3View {
        V3View {
            live: self.live.remove(c.request_id),
            retired: if c.being_sent {
                self.retired.insert(c.request_id, c)
            } else {
                self.retired
            },
            ..self
        }
    }

    /// A request, whether under way or over.
    pub open spec fn known(self, id: i32) -> bool {
        self.live.dom().contains(id) || self.retired.dom().contains(id)
    }

    pub open spec fn context(self, id: i32) -> ContextView {
        if self.live.dom().contains(id) {
            self.live[id]
        } else {
            self.retired[id]
        }
    }

    /// A request, whether under way or over, has changed.
    pub open spec fn update(self, c: ContextView) -> V3View {
        if self.live.dom().contains(c.request_id) {
            V3View { live: self.live.insert(c.request_id, c), ..self }
        } else {
            V3View { retired: self.retired.insert(c.request_id, c), ..self }
        }
    }
}

/// What comes of an event: the socket afterwards and the effects.
#[verifier::ext_equal]
pub struct Step {
    pub state: V3View,
    pub effects: Seq<EffectView>,
}

/// The request with the time that it took.
pub open spec fn completed(c: ContextView, now: i64) -> ContextView {
    ContextView { duration: (now - c.start) as i64, ..c }
}

/// The error that a client gets whose request the connector turned down.
pub open spec fn early_failure(code: u16) -> Option<ExceptionView> {
    if code == 1011 {
        Some(ExceptionView::of("ws code 1011"@).with_status_code(502))
    } else if code == 1008 {
        Some(ExceptionView::of("ws code 1008"@).with_status_code(400))
    } else {
        None
    }
}

/// What has to be done when a request is closed with a web socket status code.
#[verifier::opaque]
pub open spec fn closed_effects(
    socket: RouterSocketInfo,
    c: ContextView,
    code: u16,
    now: i64,
) -> Seq<EffectView> {
    let received = seq![EffectView::BodyReceived(c.info(socket))];
    let failed = if c.not_started() && early_failure(code) is Some {
        seq![EffectView::Fail(c.request_id, early_failure(code)->0)]
    } else {
        Seq::empty()
    };
    let shut = if c.response_open {
        seq![EffectView::CloseResponse(c.request_id)]
    } else {
        Seq::empty()
    };
    received + failed + shut + seq![EffectView::Completed(closed_context(c, now).info(socket))]
}

/// A request that was closed.
pub open spec fn closed_context(c: ContextView, now: i64) -> ContextView {
    completed(ContextView { response_open: false, ..c }, now)
}

/// A request under way is closed with a web socket status code.
pub open spec fn closed(
    socket: RouterSocketInfo,
    s: V3View,
    c: ContextView,
    code: u16,
    now: i64,
) -> Step {
    Step {
        state: s.over(closed_context(c, now)),
        effects: closed_effects(socket, c, code, now),
    }
}

/// The error of a request under way on a connection that the connector closed.
pub open spec fn close_error(code: u16, reason: Seq<char>) -> ExceptionView {
    ExceptionView::of(
        "upstream server error: ws code="@ + text::decimal_int(code as int) + ", reason="@ + reason,
    )
}

/// A request under way on a connection that the connector closed. Unless all was well, it has not
/// been served, and so has an error.
pub open spec fn cut_off(c: ContextView, code: u16, reason: Seq<char>) -> ContextView {
    if code == 1000 || c.error is Some {
        c
    } else {
        ContextView { error: Some(close_error(code, reason)), ..c }
    }
}

/// The status code and the reason with which a connection was closed.
pub open spec fn close_parts(frame: Option<(u16, Seq<char>)>) -> (u16, Seq<char>) {
    match frame {
        Some(parts) => parts,
        None => (4000, "closed by router"@),
    }
}

/// Several requests under way are closed because their connection was, one after the other.
pub open spec fn all_closed(
    socket: RouterSocketInfo,
    s: V3View,
    ids: Seq<i32>,
    code: u16,
    reason: Seq<char>,
    now: i64,
) -> Step
    decreases ids.len(),
{
    if ids.len() == 0 {
        Step { state: s, effects: Seq::empty() }
    } else {
        let before = all_closed(socket, s, ids.drop_last(), code, reason, now);
        let c = cut_off(before.state.live[ids.last()], code, reason);
        after(before.effects, closed(socket, before.state, c, code, now))
    }
}

/// What a client is told of an error.
pub open spec fn error_to_client(c: ContextView, e: ExceptionView) -> ExceptionView {
    if e.opt_err_kind == Some(CrexKind::Timeout_0001) {
        if c.not_started() {
            e
        } else {
            e.with_status_code(504).append("closing cli req early due to timeout"@).prepend(
                "504 Gateway Timeout"@,
            )
        }
    } else if c.not_started() {
        e.with_status_code(502).prepend("502 Bad Gateway"@)
    } else {
        e.append("closing cli req early due to cranker wss conn err"@)
    }
}

/// A request runs into an error: the client is told, and a request under way is over.
#[verifier::opaque]
pub open spec fn failed(
    socket: RouterSocketInfo,
    s: V3View,
    c: ContextView,
    e: ExceptionView,
    now: i64,
) -> Step {
    let told = EffectView::Fail(c.request_id, error_to_client(c, e));
    let c = ContextView { error: Some(e), ..c };
    if s.live.dom().contains(c.request_id) {
        let c = completed(c, now);
        Step { state: s.over(c), effects: seq![told, EffectView::Completed(c.info(socket))] }
    } else if s.retired.dom().contains(c.request_id) {
        Step {
            state: V3View { retired: s.retired.insert(c.request_id, c), ..s },
            effects: seq![told],
        }
    } else {
        Step { state: s, effects: seq![told] }
    }
}

/// The error of a frame that cannot be sent to the connector any more.
pub open spec fn send_data_error(socket: RouterSocketInfo) -> ExceptionView {
    ExceptionView::of(
        "failed to send_data: SendError(..). route = "@ + socket.route@
            + " , router socket id = "@ + socket.router_socket_id@,
    )
}

/// The error of a response that comes before its request.
pub open spec fn too_early_error(socket: RouterSocketInfo, req_id: i32) -> ExceptionView {
    ExceptionView::of(
        "recv data/bin before handle cli req. route = "@ + socket.route@
            + " , router socket id = "@ + socket.router_socket_id@ + " , req id = "@
            + text::decimal_int(req_id as int),
    )
}

/// The error of a response on a socket that was removed.
pub open spec fn removed_error(req_id: i32, flags: u8) -> ExceptionView {
    ExceptionView::of(
        "recv bin msg from connector but router socket already removed. req_id="@
            + text::decimal_int(req_id as int) + ", flags="@ + text::decimal_int(flags as int),
    )
}

/// The request and the socket that an error is about.
pub open spec fn error_place(socket: RouterSocketInfo, req_id: i32) -> Seq<char> {
    " req id = "@ + text::decimal_int(req_id as int) + " , router socket id = "@
        + socket.router_socket_id@ + " , route = "@ + socket.route@
}

/// The error of a header frame that is too long to be acknowledged.
pub open spec fn too_long_error(socket: RouterSocketInfo, req_id: i32) -> ExceptionView {
    ExceptionView::of(
        "failed to handle remaining bin msg len, it's even larger than i32::MAX ? ex : TryFromIntError(()) ,"@
            + error_place(socket, req_id),
    )
}

/// The error of a header frame that is no text.
pub open spec fn no_text_error(
    socket: RouterSocketInfo,
    req_id: i32,
    payload: Seq<u8>,
) -> ExceptionView {
    ExceptionView::of(
        "failed to convert binary to header text in utf8 : "@ + text::utf8_error_debug(payload)
            + ","@ + error_place(socket, req_id),
    )
}

/// The error of a request that the connector gave up.
pub open spec fn rst_error(
    socket: RouterSocketInfo,
    req_id: i32,
    payload: Seq<u8>,
) -> ExceptionView {
    ExceptionView::of(
        "stream closed by connector, error code: "@ + text::decimal_int(
            frames::error_code(payload),
        ) + ", error message: "@ + frames::error_message(frames::behind_error_code(payload))
            + ","@ + error_place(socket, req_id),
    )
}

/// One step after another, the effects of the first in front.
pub open spec fn after(first: Seq<EffectView>, step: Step) -> Step {
    Step { state: step.state, effects: first + step.effects }
}

/// The frame that lets the connector send `n` more bytes, if it can be sent.
pub open spec fn window_update(s: V3View, req_id: i32, n: i32) -> Seq<EffectView> {
    if s.uplink_open {
        seq![
            EffectView::Send(
                frames::frame(MESSAGE_TYPE_WINDOW_UPDATE, 0, req_id, octets::be_octets(n)),
            ),
        ]
    } else {
        Seq::empty()
    }
}

/// A piece of the response's body came in.
pub open spec fn data_came(
    socket: RouterSocketInfo,
    s: V3View,
    c: ContextView,
    flags: u8,
    payload: Seq<u8>,
    is_removed: bool,
    now: i64,
) -> Step {
    let end = frames::ends_stream(flags);
    let id = c.request_id;
    if !c.can_respond {
        failed(socket, s, c, too_early_error(socket, id), now)
    } else if payload.len() == 0 {
        if end {
            closed(socket, s, c, 1000, now)
        } else {
            Step { state: s, effects: Seq::empty() }
        }
    } else {
        let c = ContextView { frames: c.frames.wrapping_add(1), ..c };
        if is_removed {
            if end {
                let first = closed(socket, s, c, 1000, now);
                let c = closed_context(c, now);
                after(
                    first.effects,
                    failed(socket, first.state, c, removed_error(id, flags), now),
                )
            } else {
                failed(socket, s.put(c), c, removed_error(id, flags), now)
            }
        } else {
            let body = seq![EffectView::Body(id, payload)];
            let update = window_update(s, id, payload.len() as i32);
            let n = payload.len() as i64;
            if end {
                let first = closed(socket, s, c, 1000, now);
                let c = closed_context(c, now);
                let c = ContextView { to_client: c.to_client.wrapping_add(n), ..c };
                Step {
                    state: if c.being_sent {
                        V3View { retired: first.state.retired.insert(id, c), ..first.state }
                    } else {
                        first.state
                    },
                    effects: body + first.effects + update,
                }
            } else {
                let c = ContextView { to_client: c.to_client.wrapping_add(n), ..c };
                Step { state: s.put(c), effects: body + update }
            }
        }
    }
}

/// Whether a piece of the response's body goes to the listeners as well.
pub open spec fn is_chunk_for_listeners(
    c: ContextView,
    msg_type: u8,
    payload: Seq<u8>,
    is_removed: bool,
) -> bool {
    msg_type == MESSAGE_TYPE_DATA && c.can_respond && payload.len() > 0 && !is_removed
}

/// The request as the listeners see it along with a piece of the response's body.
pub open spec fn chunk_context(
    c: ContextView,
    flags: u8,
    payload: Seq<u8>,
    now: i64,
) -> ContextView {
    let c = ContextView {
        frames: c.frames.wrapping_add(1),
        to_client: c.to_client.wrapping_add(payload.len() as i64),
        ..c
    };
    if frames::ends_stream(flags) {
        closed_context(c, now)
    } else {
        c
    }
}

/// A piece of the response's headers came in.
pub open spec fn header_came(
    socket: RouterSocketInfo,
    s: V3View,
    c: ContextView,
    flags: u8,
    payload: Seq<u8>,
    now: i64,
) -> Step {
    let id = c.request_id;
    if !c.can_respond {
        failed(socket, s, c, too_early_error(socket, id), now)
    } else if payload.len() > i32::MAX {
        failed(socket, s, c, too_long_error(socket, id), now)
    } else if !valid_utf8(payload) {
        failed(socket, s, c, no_text_error(socket, id, payload), now)
    } else {
        header_taken(
            socket,
            s,
            ContextView { header_text: c.header_text + decode_utf8(payload), ..c },
            flags,
            payload.len() as i32,
            now,
        )
    }
}

/// The header text of the response has grown by a frame of `n` bytes.
pub open spec fn header_taken(
    socket: RouterSocketInfo,
    s: V3View,
    c: ContextView,
    flags: u8,
    n: i32,
    now: i64,
) -> Step {
    let id = c.request_id;
    let header = if frames::ends_header(flags) {
        seq![EffectView::HeaderText(id, c.header_text)]
    } else {
        Seq::empty()
    };
    let update = window_update(s, id, n);
    if frames::ends_stream(flags) {
        let first = closed(socket, s, c, 1000, now);
        if s.uplink_open {
            Step { state: first.state, effects: header + first.effects + update }
        } else {
            after(
                header + first.effects,
                failed(socket, first.state, closed_context(c, now), send_data_error(socket), now),
            )
        }
    } else if s.uplink_open {
        Step { state: s.put(c), effects: header + update }
    } else {
        after(header, failed(socket, s.put(c), c, send_data_error(socket), now))
    }
}

/// The tickets that are let go.
pub open spec fn releases(id: i32, tickets: Seq<u64>) -> Seq<EffectView> {
    tickets.map_values(|t: u64| EffectView::Release(id, t))
}

/// A frame came in. What is too short, of no known request or of no known type is passed over.
pub open spec fn frame_came(
    socket: RouterSocketInfo,
    s: V3View,
    bin: Seq<u8>,
    is_removed: bool,
    now: i64,
) -> Step {
    let nothing = Step { state: s, effects: Seq::empty() };
    match frames::parts(bin) {
        None => nothing,
        Some(f) => {
            let id = f.req_id as i32;
            if !s.live.dom().contains(id) {
                nothing
            } else {
                let c = s.live[id];
                if f.msg_type == MESSAGE_TYPE_DATA {
                    data_came(socket, s, c, f.flags, f.payload, is_removed, now)
                } else if f.msg_type == MESSAGE_TYPE_HEADER {
                    header_came(socket, s, c, f.flags, f.payload, now)
                } else if f.msg_type == MESSAGE_TYPE_RST_STREAM {
                    failed(socket, s, c, rst_error(socket, id, f.payload), now)
                } else if f.msg_type == MESSAGE_TYPE_WINDOW_UPDATE && f.payload.len() >= 4 {
                    let n = octets::be_value(
                        f.payload[0],
                        f.payload[1],
                        f.payload[2],
                        f.payload[3],
                    ) as i32;
                    Step {
                        state: s.put(c.acknowledged(n)),
                        effects: releases(id, c.released_by(n)),
                    }
                } else {
                    nothing
                }
            }
        },
    }
}

/// The piece of the response's body that goes to the listeners, with the request as they see it.
pub open spec fn chunk_of(
    socket: RouterSocketInfo,
    s: V3View,
    bin: Seq<u8>,
    is_removed: bool,
    now: i64,
) -> Option<(ProxyInfoView, Seq<u8>)> {
    match frames::parts(bin) {
        None => None,
        Some(f) => {
            let id = f.req_id as i32;
            if s.live.dom().contains(id) && is_chunk_for_listeners(
                s.live[id],
                f.msg_type,
                f.payload,
                is_removed,
            ) {
                Some(
                    (
                        chunk_context(s.live[id], f.flags, f.payload, now).info(socket),
                        f.payload,
                    ),
                )
            } else {
                None
            }
        },
    }
}

/// A new request, under the next number.
pub open spec fn opened(s: V3View, now: i64) -> V3View {
    let id = (s.last_id + 1) as i32;
    V3View { last_id: id, live: s.live.insert(id, ContextView::start(id, now)), ..s }
}

/// How many bytes of a frame are payload.
pub open spec fn payload_len(frame: Seq<u8>) -> int {
    frame.len() - HEADER_LEN_IN_BYTES
}

/// A request of which the frames of the header text were sent.
pub open spec fn header_sent(c: ContextView, sent: Seq<Seq<u8>>) -> ContextView
    decreases sent.len(),
{
    if sent.len() == 0 {
        ContextView { can_respond: true, ..c }
    } else {
        let before = header_sent(c, sent.drop_last()).sending(payload_len(sent.last()) as i32);
        ContextView {
            from_client: before.from_client.wrapping_add(
                (payload_len(sent.last()) as i32) as i64,
            ),
            ..before
        }
    }
}

/// Frames that are sent to the connector.
pub open spec fn sends(sent: Seq<Seq<u8>>) -> Seq<EffectView> {
    sent.map_values(|f: Seq<u8>| EffectView::Send(f))
}

/// A request whose first header frame could not be sent.
pub open spec fn header_not_sent(c: ContextView, frames: Seq<Seq<u8>>) -> ContextView {
    ContextView { can_respond: true, ..c }.sending(payload_len(frames[0]) as i32)
}

/// A request of which one more piece of the body was sent.
pub open spec fn chunk_sent(c: ContextView, n: nat) -> ContextView {
    let before = c.sending(n as i32);
    ContextView { from_client: before.from_client.wrapping_add(n as i64), ..before }
}

/// A request, whether under way or over, runs into an error.
pub open spec fn request_failed(
    socket: RouterSocketInfo,
    s: V3View,
    id: i32,
    e: ExceptionView,
    now: i64,
) -> Step {
    if s.known(id) {
        failed(socket, s, s.context(id), e, now)
    } else {
        Step { state: s, effects: Seq::empty() }
    }
}

/// Several requests run into an error, one after the other.
pub open spec fn all_failed(
    socket: RouterSocketInfo,
    s: V3View,
    ids: Seq<i32>,
    e: ExceptionView,
    now: i64,
) -> Step
    decreases ids.len(),
{
    if ids.len() == 0 {
        Step { state: s, effects: Seq::empty() }
    } else {
        let before = all_failed(socket, s, ids.drop_last(), e, now);
        after(before.effects, request_failed(socket, before.state, ids.last(), e, now))
    }
}

/// The error that ends all requests, whether a reason is known or not.
pub open spec fn termination_error(e: Option<ExceptionView>) -> ExceptionView {
    match e {
        Some(e) => e,
        None => ExceptionView::of(
            "terminating all connections on cranker router v3 for unknown reason"@,
        ),
    }
}

/// Every request under way with an error.
pub open spec fn all_with_error(s: V3View, e: ExceptionView) -> V3View {
    V3View { live: s.live.map_values(|c: ContextView| ContextView { error: Some(e), ..c }), ..s }
}

/// The error of a ping that cannot be answered.
pub open spec fn pong_error(socket: RouterSocketInfo) -> ExceptionView {
    ExceptionView::of(
        "failed to pong back CrankerRouterException { reason: "@ + text::str_debug(
            send_data_error(socket).reason,
        ) + ", opt_status_code: None, opt_err_kind: None }"@,
    )
}

/// What comes of a frame.
pub struct BinaryOutcome {
    pub effects: Vec<V3Effect>,
    /// A piece of the response's body for the listeners that ask for it, who are told of it with
    /// [`RouterSocketV3::response_chunk_came`].
    pub chunk: Option<(ProxyInfoData, Bytes)>,
}

impl RouterSocketV3 {
    /// The connection.
    pub closed spec fn socket(&self) -> RouterSocketInfo {
        self.info
    }

    /// The connection.
    pub fn info(&self) -> (r: &RouterSocketInfo)
        ensures
            *r == self.socket(),
    {
        &self.info
    }

    pub closed spec fn state(&self) -> V3View {
        V3View {
            live: context_views(context_map::held(self.context_map)),
            retired: context_views(context_map::held(self.retired)),
            last_id: self.req_id_generator,
            uplink_open: self.is_uplink_open,
        }
    }

    /// A connection without requests.
    pub fn new(info: RouterSocketInfo) -> (r: Self)
        ensures
            r.socket() == info,
            r.state() == (V3View {
                live: Map::empty(),
                retired: Map::empty(),
                last_id: 0,
                uplink_open: true,
            }),
            r.state().wf(),
    {
        let r = RouterSocketV3 {
            info,
            context_map: map_new(),
            retired: map_new(),
            req_id_generator: 0,
            is_uplink_open: true,
        };
        assert(r.state() =~= (V3View {
            live: Map::empty(),
            retired: Map::empty(),
            last_id: 0,
            uplink_open: true,
        }));
        r
    }

    /// No frame can be sent to the connector any more.
    pub fn close_uplink(&mut self)
        ensures
            final(self).socket() == old(self).socket(),
            final(self).state() == (V3View { uplink_open: false, ..old(self).state() }),
    {
        self.is_uplink_open = false;
        assert(self.state() =~= (V3View { uplink_open: false, ..old(self).state() }));
    }

    /// Takes a request under way out, to put it back or end it.
    fn take(&mut self, id: i32) -> (r: Option<RequestContext>)
        ensures
            final(self).socket() == old(self).socket(),
            final(self).state() == (V3View {
                live: old(self).state().live.remove(id),
                ..old(self).state()
            }),
            match r {
                Some(c) => old(self).state().live.dom().contains(id) && c@
                    == old(self).state().live[id],
                None => !old(self).state().live.dom().contains(id),
            },
    {
        let r = map_remove(&mut self.context_map, id);
        assert(self.state() =~= (V3View {
            live: old(self).state().live.remove(id),
            ..old(self).state()
        }));
        r
    }

    fn put(&mut self, c: RequestContext)
        ensures
            final(self).socket() == old(self).socket(),
            final(self).state() == old(self).state().put(c@),
    {
        let id = c.request_id;
        map_insert(&mut self.context_map, id, c);
        assert(self.state() =~= old(self).state().put(c@));
    }

    fn end(&mut self, c: RequestContext)
        ensures
            final(self).socket() == old(self).socket(),
            final(self).state() == old(self).state().over(c@),
    {
        let id = c.request_id;
        let _ = map_remove(&mut self.context_map, id);
        if c.is_being_sent {
            map_insert(&mut self.retired, id, c);
        }
        assert(self.state() =~= old(self).state().over(c@));
    }

    /// The time that a request took.
    fn complete(c: &mut RequestContext, now: i64)
        requires
            now >= 0,
            old(c)@.start >= 0,
        ensures
            final(c)@ == completed(old(c)@, now),
    {
        c.duration_millis = now - c.req_start_time;
        assert(c@ =~= completed(old(c)@, now));
    }

    /// What has to be done when a request is closed.
    fn close(&self, c: &mut RequestContext, code: u16, now: i64, out: &mut Vec<V3Effect>)
        requires
            now >= 0,
            old(c)@.start >= 0,
        ensures
            final(c)@ == closed_context(old(c)@, now),
            effects(final(out)@) == effects(old(out)@) + closed_effects(
                self.socket(),
                old(c)@,
                code,
                now,
            ),
    {
        reveal(closed_effects);
        let id = c.request_id;
        emit(out, V3Effect::BodyReceived(c.info(&self.info)));
        if c.is_tgt_can_send_res_now_according_to_rfc2616 && c.from_client_bytes == 0 {
            if code == 1011 {
                emit(
                    out,
                    V3Effect::Fail(
                        id,
                        CrankerRouterException::new("ws code 1011".to_string()).with_status_code(
                            502,
                        ),
                    ),
                );
            } else if code == 1008 {
                emit(
                    out,
                    V3Effect::Fail(
                        id,
                        CrankerRouterException::new("ws code 1008".to_string()).with_status_code(
                            400,
                        ),
                    ),
                );
            }
        }
        if c.is_tgt_res_open {
            emit(out, V3Effect::CloseResponse(id));
        }
        c.is_tgt_res_open = false;
        assert(c@ =~= (ContextView { response_open: false, ..old(c)@ }));
        Self::complete(c, now);
        emit(out, V3Effect::Completed(c.info(&self.info)));
        assert(effects(out@) =~= effects(old(out)@) + closed_effects(
            self.socket(),
            old(c)@,
            code,
            now,
        ));
    }

    /// What a client is told of an error.
    fn to_client(c: &RequestContext, e: CrankerRouterException) -> (r: CrankerRouterException)
        ensures
            r@ == error_to_client(c@, e@),
    {
        let not_started = c.is_tgt_can_send_res_now_according_to_rfc2616 && c.from_client_bytes
            == 0;
        let timeout = match e.opt_err_kind {
            Some(kind) => kind == CrexKind::Timeout_0001,
            None => false,
        };
        if timeout {
            if not_started {
                e
            } else {
                e.with_status_code(504).append_str(
                    "closing cli req early due to timeout",
                ).prepend_str("504 Gateway Timeout")
            }
        } else if not_started {
            e.with_status_code(502).prepend_str("502 Bad Gateway")
        } else {
            e.append_str("closing cli req early due to cranker wss conn err")
        }
    }

    /// A request that was taken out runs into an error. It was under way unless it had been
    /// closed before.
    fn fail(
        &mut self,
        c: RequestContext,
        e: CrankerRouterException,
        was_closed: bool,
        now: i64,
        out: &mut Vec<V3Effect>,
    )
        requires
            now >= 0,
            c@.start >= 0,
            !old(self).state().live.dom().contains(c@.request_id),
            !old(self).state().retired.dom().contains(c@.request_id),
        ensures
            final(self).socket() == old(self).socket(),
            ({
                let s = if was_closed {
                    old(self).state().over(c@)
                } else {
                    old(self).state().put(c@)
                };
                let step = failed(old(self).socket(), s, c@, e@, now);
                &&& final(self).state() == step.state
                &&& effects(final(out)@) == effects(old(out)@) + step.effects
            }),
    {
        reveal(failed);
        let mut c = c;
        let ghost before = c@;
        let id = c.request_id;
        emit(out, V3Effect::Fail(id, Self::to_client(&c, e.clone())));
        c.error = Some(e);
        assert(c@ =~= (ContextView { error: Some(e@), ..before }));
        if !was_closed {
            Self::complete(&mut c, now);
            emit(out, V3Effect::Completed(c.info(&self.info)));
        }
        self.end(c);
        proof {
            let s0 = old(self).state();
            let s = if was_closed {
                s0.over(before)
            } else {
                s0.put(before)
            };
            let step = failed(old(self).socket(), s, before, e@, now);
            assert(self.state() =~= step.state);
            assert(effects(out@) =~= effects(old(out)@) + step.effects);
        }
    }

    fn too_early(&self, req_id: i32) -> (r: CrankerRouterException)
        ensures
            r@ == too_early_error(self.socket(), req_id),
    {
        let mut reason = text::concat(
            "recv data/bin before handle cli req. route = ",
            self.info.route.as_str(),
        );
        reason.push_str(" , router socket id = ");
        reason.push_str(self.info.router_socket_id.as_str());
        reason.push_str(" , req id = ");
        reason.push_str(text::int_text(req_id as i64).as_str());
        CrankerRouterException::new(reason)
    }

    fn send_data_failure(&self) -> (r: CrankerRouterException)
        ensures
            r@ == send_data_error(self.socket()),
    {
        let mut reason = text::concat(
            "failed to send_data: SendError(..). route = ",
            self.info.route.as_str(),
        );
        reason.push_str(" , router socket id = ");
        reason.push_str(self.info.router_socket_id.as_str());
        CrankerRouterException::new(reason)
    }

    fn push_place(&self, reason: &mut String, req_id: i32)
        ensures
            final(reason)@ == old(reason)@ + error_place(self.socket(), req_id),
    {
        reason.push_str(" req id = ");
        reason.push_str(text::int_text(req_id as i64).as_str());
        reason.push_str(" , router socket id = ");
        reason.push_str(self.info.router_socket_id.as_str());
        reason.push_str(" , route = ");
        reason.push_str(self.info.route.as_str());
        assert(reason@ =~= old(reason)@ + error_place(self.socket(), req_id));
    }

    /// Lets the connector send more, if it can be told.
    fn update_window(&self, req_id: i32, n: i32, out: &mut Vec<V3Effect>)
        ensures
            effects(final(out)@) == effects(old(out)@) + window_update(self.state(), req_id, n),
    {
        if self.is_uplink_open {
            emit(out, V3Effect::Send(window_update_message(req_id, n)));
        }
        assert(effects(out@) =~= effects(old(out)@) + window_update(self.state(), req_id, n));
    }

    /// Takes a piece of the response's body, for a request that was taken out.
    #[verifier::rlimit(60)]
    #[verifier::spinoff_prover]
    fn handle_data(
        &mut self,
        c: RequestContext,
        flags: u8,
        bin: Bytes,
        is_removed: bool,
        now: i64,
        out: &mut Vec<V3Effect>,
    ) -> (r: Option<(ProxyInfoData, Bytes)>)
        requires
            now >= 0,
            c@.start >= 0,
            !old(self).state().live.dom().contains(c@.request_id),
            !old(self).state().retired.dom().contains(c@.request_id),
        ensures
            final(self).socket() == old(self).socket(),
            ({
                let step = data_came(
                    old(self).socket(),
                    old(self).state().put(c@),
                    c@,
                    flags,
                    octets::octets(bin),
                    is_removed,
                    now,
                );
                &&& final(self).state() == step.state
                &&& effects(final(out)@) == effects(old(out)@) + step.effects
            }),
            r is Some <==> is_chunk_for_listeners(
                c@,
                MESSAGE_TYPE_DATA,
                octets::octets(bin),
                is_removed,
            ),
            r matches Some(x) ==> x.0@ == chunk_context(c@, flags, octets::octets(bin), now).info(
                old(self).socket(),
            ) && octets::octets(x.1) == octets::octets(bin),
    {
        let mut c = c;
        let ghost c0 = c@;
        let ghost s0 = self.state();
        let ghost out0 = effects(out@);
        let ghost socket = self.socket();
        let id = c.request_id;
        let ghost step = data_came(
            socket,
            s0.put(c0),
            c0,
            flags,
            octets::octets(bin),
            is_removed,
            now,
        );
        if !c.is_tgt_can_send_res_now_according_to_rfc2616 {
            let e = self.too_early(id);
            self.fail(c, e, false, now, out);
            return None;
        }
        let is_end_stream = judge_is_stream_end_from_flags(flags);
        let len: usize = remaining(&bin);
        if len == 0 {
            if is_end_stream {
                self.close(&mut c, 1000, now, out);
                self.end(c);
                assert(self.state() =~= step.state);
            } else {
                self.put(c);
                assert(effects(out@) =~= out0 + step.effects);
            }
            return None;
        }
        c.wss_on_binary_call_count = c.wss_on_binary_call_count.wrapping_add(1);
        let ghost c1 = c@;
        assert(c1 =~= (ContextView { frames: c0.frames.wrapping_add(1), ..c0 }));
        if is_removed {
            let mut reason = text::concat(
                "recv bin msg from connector but router socket already removed. req_id=",
                text::int_text(id as i64).as_str(),
            );
            reason.push_str(", flags=");
            reason.push_str(text::int_text(flags as i64).as_str());
            let e = CrankerRouterException::new(reason);
            if is_end_stream {
                self.close(&mut c, 1000, now, out);
                let ghost c2 = c@;
                self.fail(c, e, true, now, out);
                proof {
                    let first = closed(socket, s0.put(c0), c1, 1000, now);
                    assert(first.state =~= s0.over(c2));
                    assert(effects(out@) =~= out0 + step.effects);
                }
            } else {
                self.fail(c, e, false, now, out);
                assert(s0.put(c0).put(c1) =~= s0.put(c1));
                assert(effects(out@) =~= out0 + step.effects);
            }
            return None;
        }
        emit(out, V3Effect::Body(id, octets_clone(&bin)));
        if is_end_stream {
            self.close(&mut c, 1000, now, out);
        }
        c.to_client_bytes = c.to_client_bytes.wrapping_add(len as i64);
        let info = c.info(&self.info);
        let ghost c3 = c@;
        if is_end_stream {
            self.end(c);
        } else {
            self.put(c);
        }
        self.update_window(id, len as i32, out);
        proof {
            let payload = octets::octets(bin);
            let n = payload.len() as i64;
            assert(chunk_context(c0, flags, payload, now) =~= c3);
            if is_end_stream {
                let first = closed(socket, s0.put(c0), c1, 1000, now);
                let c2 = closed_context(c1, now);
                assert(c3 =~= (ContextView { to_client: c2.to_client.wrapping_add(n), ..c2 }));
                assert(self.state() =~= step.state);
            } else {
                assert(c3 =~= (ContextView { to_client: c1.to_client.wrapping_add(n), ..c1 }));
                assert(self.state() =~= step.state);
            }
            assert(effects(out@) =~= out0 + step.effects);
        }
        Some((info, bin))
    }

    /// Takes a piece of the response's headers, for a request that was taken out.
    fn handle_header(
        &mut self,
        c: RequestContext,
        flags: u8,
        bin: Bytes,
        now: i64,
        out: &mut Vec<V3Effect>,
    )
        requires
            now >= 0,
            c@.start >= 0,
            !old(self).state().live.dom().contains(c@.request_id),
            !old(self).state().retired.dom().contains(c@.request_id),
        ensures
            final(self).socket() == old(self).socket(),
            ({
                let step = header_came(
                    old(self).socket(),
                    old(self).state().put(c@),
                    c@,
                    flags,
                    octets::octets(bin),
                    now,
                );
                &&& final(self).state() == step.state
                &&& effects(final(out)@) == effects(old(out)@) + step.effects
            }),
    {
        let mut c = c;
        let ghost c0 = c@;
        let ghost s0 = self.state();
        let ghost payload = octets::octets(bin);
        let id = c.request_id;
        if !c.is_tgt_can_send_res_now_according_to_rfc2616 {
            let e = self.too_early(id);
            self.fail(c, e, false, now, out);
            return;
        }
        let len: usize = remaining(&bin);
        if len > 2147483647 {
            let mut reason =
                "failed to handle remaining bin msg len, it's even larger than i32::MAX ? ex : TryFromIntError(()) ,".to_string();
            self.push_place(&mut reason, id);
            self.fail(c, CrankerRouterException::new(reason), false, now, out);
            return;
        }
        let content = match text::utf8_to_string(octets_to_vec(&bin)) {
            Some(s) => s,
            None => {
                let mut reason = text::concat(
                    "failed to convert binary to header text in utf8 : ",
                    text::utf8_error_text(octets_to_vec(&bin)).as_str(),
                );
                reason.push_str(",");
                self.push_place(&mut reason, id);
                self.fail(c, CrankerRouterException::new(reason), false, now, out);
                return;
            },
        };
        c.header_line_builder.push_str(content.as_str());
        proof {
            let c1 = ContextView { header_text: c0.header_text + decode_utf8(payload), ..c0 };
            assert(c@ =~= c1);
            lemma_header_taken_put(self.socket(), s0, c0, c1, flags, len as i32, now);
        }
        self.take_header(c, flags, len as i32, now, out);
    }

    /// Goes on after the header text of a request that was taken out has grown.
    fn take_header(
        &mut self,
        c: RequestContext,
        flags: u8,
        byte_len: i32,
        now: i64,
        out: &mut Vec<V3Effect>,
    )
        requires
            now >= 0,
            c@.start >= 0,
            !old(self).state().live.dom().contains(c@.request_id),
            !old(self).state().retired.dom().contains(c@.request_id),
        ensures
            final(self).socket() == old(self).socket(),
            ({
                let step = header_taken(
                    old(self).socket(),
                    old(self).state().put(c@),
                    c@,
                    flags,
                    byte_len,
                    now,
                );
                &&& final(self).state() == step.state
                &&& effects(final(out)@) == effects(old(out)@) + step.effects
            }),
    {
        let mut c = c;
        let ghost c0 = c@;
        let ghost s0 = self.state();
        let ghost out0 = effects(out@);
        let ghost socket = self.socket();
        let ghost step = header_taken(socket, s0.put(c0), c0, flags, byte_len, now);
        let id = c.request_id;
        let is_stream_end = judge_is_stream_end_from_flags(flags);
        if judge_is_header_end_from_flags(flags) {
            emit(out, V3Effect::HeaderText(id, c.header_line_builder.clone()));
        }
        if is_stream_end {
            self.close(&mut c, 1000, now, out);
            assert(s0.put(c0).over(c@) =~= s0.over(c@));
        }
        if !self.is_uplink_open {
            let e = self.send_data_failure();
            self.fail(c, e, is_stream_end, now, out);
            assert(s0.put(c0).put(c0) =~= s0.put(c0));
            assert(effects(out@) =~= out0 + step.effects);
            return;
        }
        if is_stream_end {
            self.end(c);
        } else {
            self.put(c);
            assert(s0.put(c0).put(c0) =~= s0.put(c0));
        }
        self.update_window(id, byte_len, out);
        assert(self.state() =~= step.state);
        assert(effects(out@) =~= out0 + step.effects);
    }

    /// The error of a request that the connector gave up.
    fn rst_exception(&self, req_id: i32, bin: Bytes) -> (r: CrankerRouterException)
        ensures
            r@ == rst_error(self.socket(), req_id, octets::octets(bin)),
    {
        let mut bin = bin;
        let error_code = get_error_code(&mut bin);
        let error_message = get_error_message(&bin);
        let mut reason = text::concat(
            "stream closed by connector, error code: ",
            text::int_text(error_code as i64).as_str(),
        );
        reason.push_str(", error message: ");
        reason.push_str(error_message.as_str());
        reason.push_str(",");
        self.push_place(&mut reason, req_id);
        CrankerRouterException::new(reason)
    }

    /// Takes a frame from the connector.
    #[verifier::rlimit(60)]
    #[verifier::spinoff_prover]
    pub fn on_binary(&mut self, binary_msg: Bytes, is_removed: bool, now: i64) -> (r: BinaryOutcome)
        requires
            old(self).state().wf(),
            now >= 0,
        ensures
            final(self).socket() == old(self).socket(),
            ({
                let step = frame_came(
                    old(self).socket(),
                    old(self).state(),
                    octets::octets(binary_msg),
                    is_removed,
                    now,
                );
                &&& final(self).state() == step.state
                &&& effects(r.effects@) == step.effects
            }),
            match chunk_of(
                old(self).socket(),
                old(self).state(),
                octets::octets(binary_msg),
                is_removed,
                now,
            ) {
                Some((info, bytes)) => r.chunk matches Some(x) && x.0@ == info && octets::octets(
                    x.1,
                ) == bytes,
                None => r.chunk is None,
            },
            final(self).state().wf(),
    {
        let mut out: Vec<V3Effect> = Vec::new();
        let ghost s0 = self.state();
        assert(effects(out@) =~= Seq::empty());
        let f = match read_frame(binary_msg) {
            Some(f) => f,
            None => {
                return BinaryOutcome { effects: out, chunk: None };
            },
        };
        let id = f.req_id;
        let mut c = match self.take(id) {
            Some(c) => c,
            None => {
                assert(s0.live.remove(id) =~= s0.live);
                assert(self.state() =~= s0);
                return BinaryOutcome { effects: out, chunk: None };
            },
        };
        let ghost c0 = c@;
        assert(self.state().put(c0) =~= s0);
        let mut chunk: Option<(ProxyInfoData, Bytes)> = None;
        if f.msg_type == MESSAGE_TYPE_DATA {
            chunk = self.handle_data(c, f.flags, f.payload, is_removed, now, &mut out);
        } else if f.msg_type == MESSAGE_TYPE_HEADER {
            self.handle_header(c, f.flags, f.payload, now, &mut out);
        } else if f.msg_type == MESSAGE_TYPE_RST_STREAM {
            let e = self.rst_exception(id, f.payload);
            self.fail(c, e, false, now, &mut out);
        } else if f.msg_type == MESSAGE_TYPE_WINDOW_UPDATE && remaining(&f.payload) >= 4 {
            let mut payload = f.payload;
            let window_update = get_i32(&mut payload);
            let tickets = c.target_connector_ack_bytes(window_update);
            self.put(c);
            assert(self.state() =~= s0.put(c0.acknowledged(window_update)));
            self.release(id, tickets, &mut out);
            assert(effects(out@) =~= releases(id, c0.released_by(window_update)));
        } else {
            self.put(c);
            assert(self.state() =~= s0);
        }
        proof {
            let step = frame_came(
                old(self).socket(),
                s0,
                octets::octets(binary_msg),
                is_removed,
                now,
            );
            assert(effects(out@) =~= step.effects);
            assert(self.state() == step.state);
            law_frame_keeps_wf(
                old(self).socket(),
                s0,
                octets::octets(binary_msg),
                is_removed,
                now,
            );
        }
        BinaryOutcome { effects: out, chunk }
    }

    fn release(&self, id: i32, tickets: Vec<u64>, out: &mut Vec<V3Effect>)
        ensures
            effects(final(out)@) == effects(old(out)@) + releases(id, tickets@),
    {
        let ghost out0 = effects(out@);
        let mut i: usize = 0;
        assert(effects(out@) =~= out0 + releases(id, tickets@.take(0)));
        while i < tickets.len()
            invariant
                i <= tickets.len(),
                effects(out@) == out0 + releases(id, tickets@.take(i as int)),
            decreases tickets.len() - i,
        {
            emit(out, V3Effect::Release(id, tickets[i]));
            assert(effects(out@) =~= out0 + releases(id, tickets@.take(i + 1)));
            i = i + 1;
        }
        assert(tickets@.take(tickets@.len() as int) =~= tickets@);
    }

    /// Takes any request out, whether under way or over, to put it back. Whether it was under way
    /// is said.
    fn take_known(&mut self, id: i32) -> (r: Option<(RequestContext, bool)>)
        requires
            old(self).state().wf(),
        ensures
            final(self).socket() == old(self).socket(),
            match r {
                Some((c, live)) => {
                    &&& old(self).state().known(id)
                    &&& live == old(self).state().live.dom().contains(id)
                    &&& c@ == old(self).state().context(id)
                    &&& c@.request_id == id
                    &&& final(self).state() == (V3View {
                        live: old(self).state().live.remove(id),
                        retired: old(self).state().retired.remove(id),
                        ..old(self).state()
                    })
                },
                None => !old(self).state().known(id) && final(self).state() == old(self).state(),
            },
    {
        let ghost s0 = self.state();
        if let Some(c) = self.take(id) {
            assert(s0.retired.remove(id) =~= s0.retired);
            return Some((c, true));
        }
        assert(s0.live.remove(id) =~= s0.live);
        let ghost retired = context_map::held(self.retired);
        assert(s0.retired =~= context_views(retired));
        let r = match map_remove(&mut self.retired, id) {
            Some(c) => {
                assert(s0.retired.dom().contains(id) && c@ == s0.retired[id]);
                Some((c, false))
            },
            None => None,
        };
        assert(self.state() =~= (V3View {
            live: s0.live.remove(id),
            retired: s0.retired.remove(id),
            ..s0
        }));
        if r.is_none() {
            assert(s0.retired.remove(id) =~= s0.retired);
        }
        r
    }

    fn put_known(&mut self, c: RequestContext, live: bool)
        ensures
            final(self).socket() == old(self).socket(),
            final(self).state() == (if live {
                old(self).state().put(c@)
            } else {
                V3View {
                    retired: old(self).state().retired.insert(c@.request_id, c@),
                    ..old(self).state()
                }
            }),
    {
        if live {
            self.put(c);
        } else {
            let id = c.request_id;
            map_insert(&mut self.retired, id, c);
            assert(self.state() =~= (V3View {
                retired: old(self).state().retired.insert(c@.request_id, c@),
                ..old(self).state()
            }));
        }
    }

    /// Begins a client's request. Its number is returned.
    pub fn open_request(&mut self, is_removed: bool, now: i64) -> (r: Result<
        i32,
        CrankerRouterException,
    >)
        requires
            old(self).state().wf(),
            now >= 0,
            old(self).state().last_id < i32::MAX,
        ensures
            final(self).socket() == old(self).socket(),
            final(self).state().wf(),
            if is_removed {
                &&& r matches Err(e) && e@ == removed_socket_error(old(self).socket())
                &&& final(self).state() == old(self).state()
            } else {
                &&& r == Ok::<i32, CrankerRouterException>((old(self).state().last_id + 1) as i32)
                &&& final(self).state() == opened(old(self).state(), now)
            },
    {
        if is_removed {
            return Err(
                CrankerRouterException::new(
                    text::concat(
                        "try to handle cli req in a is_removed router socket. router_socket_id=",
                        self.info.router_socket_id.as_str(),
                    ),
                ),
            );
        }
        self.req_id_generator = self.req_id_generator + 1;
        let req_id = self.req_id_generator;
        self.put(RequestContext::new(req_id, now));
        assert(self.state() =~= opened(old(self).state(), now));
        Ok(req_id)
    }

    /// Sends the header text of a request.
    pub fn send_header(
        &mut self,
        req_id: i32,
        header_text: String,
        is_stream_end: bool,
    ) -> (r: (Vec<V3Effect>, Result<(), CrankerRouterException>))
        requires
            old(self).state().wf(),
            old(self).state().known(req_id),
        ensures
            final(self).socket() == old(self).socket(),
            final(self).state().wf(),
            ({
                let frames = frames::header_frames(req_id, true, is_stream_end, header_text@);
                let c = old(self).state().context(req_id);
                if old(self).state().uplink_open {
                    &&& r.1 is Ok
                    &&& effects(r.0@) == sends(frames)
                    &&& final(self).state() == old(self).state().update(header_sent(c, frames))
                } else {
                    &&& r.1 matches Err(e) && e@ == send_data_error(old(self).socket())
                    &&& r.0@.len() == 0
                    &&& final(self).state() == old(self).state().update(
                        header_not_sent(c, frames),
                    )
                }
            }),
    {
        let ghost s0 = self.state();
        let mut out: Vec<V3Effect> = Vec::new();
        let messages = header_messages(req_id, true, is_stream_end, header_text);
        let ghost all = frames::header_frames(req_id, true, is_stream_end, header_text@);
        proof {
            lemma_header_frames_len(req_id, is_stream_end, header_text@);
            assert(all.len() == messages@.len());
        }
        if let Some((c, live)) = self.take_known(req_id) {
            let mut c = c;
            let ghost c0 = c@;
            c.is_tgt_can_send_res_now_according_to_rfc2616 = true;
            let ghost c1 = c@;
            assert(c1 =~= (ContextView { can_respond: true, ..c0 }));
            if !self.is_uplink_open {
                assert(all[0] == octets::octets(messages@[0]));
                let n: usize = remaining(&messages[0]) - HEADER_LEN_IN_BYTES;
                c.inc_rtr_to_tgt_pending_ack_bytes(n as i32);
                let ghost c2 = c@;
                self.put_known(c, live);
                proof {
                    assert(c2 == header_not_sent(c0, all));
                    lemma_put_back(s0, self.state(), c2, live);
                }
                let e = self.send_data_failure();
                return (out, Err(e));
            }
            let mut i: usize = 0;
            assert(all.take(0) =~= Seq::empty());
            assert(effects(out@) =~= sends(all.take(0)));
            while i < messages.len()
                invariant
                    i <= messages.len(),
                    all == frames::all_octets(messages@),
                    forall|j: int|
                        0 <= j < all.len() ==> (#[trigger] all[j]).len() >= HEADER_LEN_IN_BYTES,
                    c@ == header_sent(c0, all.take(i as int)),
                    effects(out@) == sends(all.take(i as int)),
                decreases messages.len() - i,
            {
                let hb = octets_clone(&messages[i]);
                assert(all[i as int] == octets::octets(messages@[i as int]));
                let payload_len: i32 = (remaining(&hb) - HEADER_LEN_IN_BYTES) as i32;
                c.inc_rtr_to_tgt_pending_ack_bytes(payload_len);
                emit(&mut out, V3Effect::Send(hb));
                c.from_client_bytes = c.from_client_bytes.wrapping_add(payload_len as i64);
                proof {
                    let t = all.take(i + 1);
                    assert(t.drop_last() =~= all.take(i as int));
                    assert(t.last() == all[i as int]);
                    assert(c@ =~= header_sent(c0, t));
                    assert(effects(out@) =~= sends(t));
                }
                i = i + 1;
            }
            assert(all.take(all.len() as int) =~= all);
            let ghost c2 = c@;
            self.put_known(c, live);
            proof {
                lemma_header_sent_same(c0, all);
                lemma_put_back(s0, self.state(), c2, live);
            }
        }
        (out, Ok(()))
    }

    /// Sends a piece of a request's body.
    pub fn send_body_chunk(&mut self, req_id: i32, bytes: Bytes) -> (r: (
        Vec<V3Effect>,
        Result<(), CrankerRouterException>,
    ))
        requires
            old(self).state().wf(),
            old(self).state().known(req_id),
        ensures
            final(self).socket() == old(self).socket(),
            final(self).state().wf(),
            ({
                let c = old(self).state().context(req_id);
                let n = octets::octets(bytes).len();
                if old(self).state().uplink_open {
                    &&& r.1 is Ok
                    &&& effects(r.0@) == seq![
                        EffectView::Send(
                            frames::frame(
                                MESSAGE_TYPE_DATA,
                                0,
                                req_id,
                                octets::octets(bytes),
                            ),
                        ),
                    ]
                    &&& final(self).state() == old(self).state().update(chunk_sent(c, n))
                } else {
                    &&& r.1 matches Err(e) && e@ == send_data_error(old(self).socket())
                    &&& r.0@.len() == 0
                    &&& final(self).state() == old(self).state().update(c.sending(n as i32))
                }
            }),
    {
        let ghost s0 = self.state();
        let mut out: Vec<V3Effect> = Vec::new();
        let byte_len: usize = remaining(&bytes);
        if let Some((c, live)) = self.take_known(req_id) {
            let mut c = c;
            let ghost c0 = c@;
            let data = data_messages(req_id, false, Some(bytes));
            c.inc_rtr_to_tgt_pending_ack_bytes(byte_len as i32);
            if !self.is_uplink_open {
                let ghost c1 = c@;
                self.put_known(c, live);
                proof {
                    lemma_put_back(s0, self.state(), c1, live);
                }
                let e = self.send_data_failure();
                return (out, Err(e));
            }
            emit(&mut out, V3Effect::Send(data));
            c.from_client_bytes = c.from_client_bytes.wrapping_add(byte_len as i64);
            let ghost c1 = c@;
            assert(c1 =~= chunk_sent(c0, octets::octets(bytes).len()));
            self.put_known(c, live);
            proof {
                lemma_put_back(s0, self.state(), c1, live);
                assert(effects(out@) =~= seq![
                    EffectView::Send(
                        frames::frame(MESSAGE_TYPE_DATA, 0, req_id, octets::octets(bytes)),
                    ),
                ]);
            }
        }
        (out, Ok(()))
    }

    /// What the proxy listeners are told of a request, whether under way or over.
    pub fn request_info(&mut self, req_id: i32) -> (r: Option<ProxyInfoData>)
        requires
            old(self).state().wf(),
        ensures
            final(self).socket() == old(self).socket(),
            final(self).state() == old(self).state(),
            match r {
                Some(info) => old(self).state().known(req_id) && info@ == old(
                    self,
                ).state().context(req_id).info(old(self).socket()),
                None => !old(self).state().known(req_id),
            },
    {
        let ghost s0 = self.state();
        if let Some((c, live)) = self.take_known(req_id) {
            let info = c.info(&self.info);
            let ghost c0 = c@;
            self.put_known(c, live);
            proof {
                lemma_put_back(s0, self.state(), c0, live);
                assert(s0.update(c0).live =~= s0.live && s0.update(c0).retired =~= s0.retired);
            }
            Some(info)
        } else {
            assert(self.state() =~= s0);
            None
        }
    }

    /// Whether more of a request's body may be read at once. If not, the one who asks waits
    /// under the ticket.
    pub fn keep_reading(&mut self, req_id: i32, ticket: u64) -> (r: bool)
        requires
            old(self).state().wf(),
            old(self).state().known(req_id),
        ensures
            final(self).socket() == old(self).socket(),
            final(self).state().wf(),
            r == old(self).state().context(req_id).writable,
            ({
                let c = old(self).state().context(req_id);
                final(self).state() == (if r {
                    old(self).state()
                } else {
                    old(self).state().update(ContextView { readers: c.readers.push(ticket), ..c })
                })
            }),
    {
        let ghost s0 = self.state();
        if let Some((c, live)) = self.take_known(req_id) {
            let mut c = c;
            let ghost c0 = c@;
            let writable = c.is_wss_writable;
            if !writable {
                c.waiting_readers.push(ticket);
                assert(c@ =~= (ContextView { readers: c0.readers.push(ticket), ..c0 }));
            }
            let ghost c1 = c@;
            self.put_known(c, live);
            proof {
                lemma_put_back(s0, self.state(), c1, live);
                if writable {
                    assert(s0.update(c0) =~= s0);
                }
            }
            return writable;
        }
        true
    }

    /// A request that is not under way runs into an error.
    fn fail_retired(&mut self, req_id: i32, crex: CrankerRouterException, now: i64) -> (r: Vec<
        V3Effect,
    >)
        requires
            old(self).state().wf(),
            !old(self).state().live.dom().contains(req_id),
            now >= 0,
        ensures
            final(self).socket() == old(self).socket(),
            final(self).state() == request_failed(
                old(self).socket(),
                old(self).state(),
                req_id,
                crex@,
                now,
            ).state,
            effects(r@) == request_failed(
                old(self).socket(),
                old(self).state(),
                req_id,
                crex@,
                now,
            ).effects,
    {
        let ghost s0 = self.state();
        let mut out: Vec<V3Effect> = Vec::new();
        assert(effects(out@) =~= Seq::empty());
        let ghost retired = context_map::held(self.retired);
        assert(s0.retired =~= context_views(retired));
        if let Some(c) = map_remove(&mut self.retired, req_id) {
            let mut c = c;
            let ghost c0 = c@;
            assert(s0.retired.dom().contains(req_id) && c0 == s0.retired[req_id]);
            assert(c0.request_id == req_id);
            emit(&mut out, V3Effect::Fail(req_id, Self::to_client(&c, crex.clone())));
            c.error = Some(crex);
            assert(c@ =~= (ContextView { error: Some(crex@), ..c0 }));
            map_insert(&mut self.retired, req_id, c);
            proof {
                reveal(failed);
                assert(self.state().retired =~= s0.retired.insert(req_id, c@));
                assert(self.state() =~= failed(self.socket(), s0, c0, crex@, now).state);
                assert(effects(out@) =~= failed(self.socket(), s0, c0, crex@, now).effects);
            }
        } else {
            assert(self.state().retired =~= s0.retired);
            assert(self.state() =~= s0);
        }
        out
    }

    /// A request runs into an error.
    pub fn notify_client_request_error(
        &mut self,
        req_id: i32,
        crex: CrankerRouterException,
        now: i64,
    ) -> (r: Vec<V3Effect>)
        requires
            old(self).state().wf(),
            now >= 0,
        ensures
            final(self).socket() == old(self).socket(),
            final(self).state().wf(),
            ({
                let step = request_failed(
                    old(self).socket(),
                    old(self).state(),
                    req_id,
                    crex@,
                    now,
                );
                &&& final(self).state() == step.state
                &&& effects(r@) == step.effects
            }),
    {
        let ghost s0 = self.state();
        proof {
            if s0.known(req_id) {
                lemma_failed_wf(self.socket(), s0, s0.context(req_id), crex@, now);
            }
        }
        let mut out: Vec<V3Effect> = Vec::new();
        assert(effects(out@) =~= Seq::empty());
        if let Some(c) = self.take(req_id) {
            assert(self.state().put(c@) =~= s0);
            self.fail(c, crex, false, now, &mut out);
            assert(effects(out@) =~= failed(self.socket(), s0, c@, crex@, now).effects);
            out
        } else {
            assert(s0.live.remove(req_id) =~= s0.live);
            assert(self.state() =~= s0);
            self.fail_retired(req_id, crex, now)
        }
    }

    /// A request has been sent in full, or will not be sent on. It is kept only while it is
    /// under way.
    pub fn request_sent(&mut self, req_id: i32)
        requires
            old(self).state().wf(),
        ensures
            final(self).socket() == old(self).socket(),
            final(self).state().wf(),
            final(self).state() == (if old(self).state().live.dom().contains(req_id) {
                old(self).state().put(
                    ContextView { being_sent: false, ..old(self).state().live[req_id] },
                )
            } else {
                V3View { retired: old(self).state().retired.remove(req_id), ..old(self).state() }
            }),
    {
        let ghost s0 = self.state();
        if let Some(c) = self.take(req_id) {
            let mut c = c;
            let ghost c0 = c@;
            c.is_being_sent = false;
            assert(c@ =~= (ContextView { being_sent: false, ..c0 }));
            self.put(c);
            assert(self.state() =~= s0.put(ContextView { being_sent: false, ..c0 }));
        } else {
            assert(s0.live.remove(req_id) =~= s0.live);
            let _ = map_remove(&mut self.retired, req_id);
            assert(self.state() =~= (V3View { retired: s0.retired.remove(req_id), ..s0 }));
        }
    }

    /// Tells the listeners that a request is over, if it is under way.
    pub fn raise_completion_event(
        &mut self,
        opt_cli_req_id: Option<ClientRequestIdentifier>,
        now: i64,
    ) -> (r: Vec<V3Effect>)
        requires
            old(self).state().wf(),
            now >= 0,
        ensures
            final(self).socket() == old(self).socket(),
            final(self).state().wf(),
            match opt_cli_req_id {
                Some(ident) if old(self).state().live.dom().contains(ident.request_id) => {
                    let c = completed(old(self).state().live[ident.request_id], now);
                    &&& final(self).state() == old(self).state().put(c)
                    &&& effects(r@) == seq![EffectView::Completed(c.info(old(self).socket()))]
                },
                _ => final(self).state() == old(self).state() && r@.len() == 0,
            },
    {
        let ghost s0 = self.state();
        let mut out: Vec<V3Effect> = Vec::new();
        if let Some(ident) = opt_cli_req_id {
            if let Some(c) = self.take(ident.request_id) {
                let mut c = c;
                let ghost c0 = c@;
                Self::complete(&mut c, now);
                emit(&mut out, V3Effect::Completed(c.info(&self.info)));
                self.put(c);
                proof {
                    assert(self.state() =~= s0.put(completed(c0, now)));
                    assert(effects(out@) =~= seq![
                        EffectView::Completed(completed(c0, now).info(self.socket())),
                    ]);
                }
            } else {
                assert(s0.live.remove(ident.request_id) =~= s0.live);
                assert(self.state() =~= s0);
            }
        }
        out
    }

    /// How many requests are under way.
    pub fn inflight_count(&self) -> (r: i32)
        requires
            self.state().live.dom().len() <= i32::MAX,
        ensures
            r == self.state().live.dom().len(),
    {
        let n: usize = map_len(&self.context_map);
        assert(self.state().live.dom() =~= context_map::held(self.context_map).dom());
        n as i32
    }

    /// Ends all requests with an error.
    pub fn terminate_all_conn(
        &mut self,
        opt_crex: Option<CrankerRouterException>,
        now: i64,
    ) -> (r: Vec<V3Effect>)
        requires
            old(self).state().wf(),
            now >= 0,
        ensures
            final(self).socket() == old(self).socket(),
            final(self).state().wf(),
            final(self).state().live == Map::<i32, ContextView>::empty(),
            exists|ids: Seq<i32>|
                {
                    &&& ids.no_duplicates()
                    &&& ids.to_set() == old(self).state().live.dom()
                    &&& (Step { state: final(self).state(), effects: effects(r@) })
                        == #[trigger] all_failed(
                        old(self).socket(),
                        old(self).state(),
                        ids,
                        termination_error(crate::exceptions::opt_exception(opt_crex)),
                        now,
                    )
                },
    {
        let ghost s0 = self.state();
        let ghost socket = self.socket();
        let crex = match opt_crex {
            Some(e) => e,
            None => CrankerRouterException::new(
                "terminating all connections on cranker router v3 for unknown reason".to_string(),
            ),
        };
        let ids = map_keys(&self.context_map);
        assert(s0.live.dom() =~= context_map::held(self.context_map).dom());
        let mut out: Vec<V3Effect> = Vec::new();
        let mut i: usize = 0;
        assert(ids@.take(0) =~= Seq::empty());
        assert(effects(out@) =~= Seq::empty());
        while i < ids.len()
            invariant
                i <= ids.len(),
                now >= 0,
                self.socket() == socket,
                self.state().wf(),
                ids@.no_duplicates(),
                (Step { state: self.state(), effects: effects(out@) }) == all_failed(
                    socket,
                    s0,
                    ids@.take(i as int),
                    crex@,
                    now,
                ),
                forall|k: i32| #[trigger]
                    self.state().live.dom().contains(k) <==> s0.live.dom().contains(k)
                        && !ids@.take(i as int).contains(k),
            decreases ids.len() - i,
        {
            let ghost before = self.state();
            let ghost out0 = out@;
            let id = ids[i];
            let mut more = self.notify_client_request_error(id, crex.clone(), now);
            let ghost added = more@;
            out.append(&mut more);
            proof {
                let t = ids@.take(i + 1);
                assert(t.drop_last() =~= ids@.take(i as int));
                assert(t.last() == id);
                assert(effects(out@) =~= effects(out0) + effects(added));
                reveal(failed);
                assert forall|k: i32| #[trigger]
                    self.state().live.dom().contains(k) <==> s0.live.dom().contains(k)
                        && !t.contains(k) by {
                    assert(t.contains(id)) by {
                        assert(t[i as int] == id);
                    }
                    if ids@.take(i as int).contains(k) {
                        let j = choose|j: int| 0 <= j < i && ids@.take(i as int)[j] == k;
                        assert(t[j] == k);
                    }
                    if t.contains(k) && k != id {
                        let j = choose|j: int| 0 <= j < t.len() && t[j] == k;
                        assert(ids@.take(i as int)[j] == k);
                    }
                    assert(before.live.dom().contains(k) <==> s0.live.dom().contains(k)
                        && !ids@.take(i as int).contains(k));
                }
            }
            i = i + 1;
        }
        proof {
            assert(ids@.take(ids@.len() as int) =~= ids@);
            assert forall|k: i32| !#[trigger] self.state().live.dom().contains(k) by {
                if s0.live.dom().contains(k) {
                    assert(ids@.to_set().contains(k));
                }
            }
            assert(self.state().live =~= Map::empty());
        }
        out
    }

    /// Lets every request under way keep an error.
    pub fn try_provide_general_error(&mut self, opt_crex: Option<CrankerRouterException>)
        requires
            old(self).state().wf(),
        ensures
            final(self).socket() == old(self).socket(),
            final(self).state().wf(),
            final(self).state() == match opt_crex {
                Some(e) => all_with_error(old(self).state(), e@),
                None => old(self).state(),
            },
    {
        let crex = match opt_crex {
            Some(e) => e,
            None => {
                return;
            },
        };
        let ghost s0 = self.state();
        let ghost socket = self.socket();
        let ghost want = all_with_error(s0, crex@);
        let ids = map_keys(&self.context_map);
        assert(s0.live.dom() =~= context_map::held(self.context_map).dom());
        let mut i: usize = 0;
        assert(ids@.take(0) =~= Seq::empty());
        while i < ids.len()
            invariant
                i <= ids.len(),
                self.socket() == socket,
                s0.wf(),
                want == all_with_error(s0, crex@),
                ids@.no_duplicates(),
                forall|k: i32| ids@.contains(k) ==> s0.live.dom().contains(k),
                self.state().live.dom() == s0.live.dom(),
                self.state().retired == s0.retired,
                self.state().last_id == s0.last_id,
                self.state().uplink_open == s0.uplink_open,
                forall|k: i32| #[trigger]
                    s0.live.dom().contains(k) ==> self.state().live[k] == (if ids@.take(
                        i as int,
                    ).contains(k) {
                        want.live[k]
                    } else {
                        s0.live[k]
                    }),
            decreases ids.len() - i,
        {
            let id = ids[i];
            let ghost before = self.state();
            assert(ids@.contains(id));
            if let Some(c) = self.take(id) {
                let mut c = c;
                let ghost c0 = c@;
                c.error = Some(crex.clone());
                assert(c@ =~= (ContextView { error: Some(crex@), ..c0 }));
                self.put(c);
                proof {
                    let t = ids@.take(i + 1);
                    assert(self.state().live =~= before.live.insert(id, c@));
                    assert(!ids@.take(i as int).contains(id)) by {
                        if ids@.take(i as int).contains(id) {
                            let j = choose|j: int| 0 <= j < i && ids@.take(i as int)[j] == id;
                            assert(ids@[j] == id);
                        }
                    }
                    assert(t[i as int] == id);
                    assert forall|k: i32| #[trigger] s0.live.dom().contains(k) implies
                        self.state().live[k] == (if t.contains(k) {
                        want.live[k]
                    } else {
                        s0.live[k]
                    }) by {
                        if ids@.take(i as int).contains(k) {
                            let j = choose|j: int| 0 <= j < i && ids@.take(i as int)[j] == k;
                            assert(t[j] == k);
                        }
                        if t.contains(k) && k != id {
                            let j = choose|j: int| 0 <= j < t.len() && t[j] == k;
                            assert(ids@.take(i as int)[j] == k);
                        }
                    }
                    assert(self.state().live.dom() =~= s0.live.dom());
                }
            }
            i = i + 1;
        }
        proof {
            assert(ids@.take(ids@.len() as int) =~= ids@);
            assert forall|k: i32| #[trigger] s0.live.dom().contains(k) implies
                self.state().live[k] == want.live[k] by {
                assert(ids@.to_set().contains(k));
            }
            assert(self.state().live =~= want.live);
            assert(self.state() =~= want);
        }
    }

    /// Gives a request up. The frame that tells the connector so is returned, unless the
    /// connector was told before.
    pub fn reset_stream(&mut self, req_id: i32, err_code: i32, msg: String) -> (r: Option<Bytes>)
        requires
            old(self).state().wf(),
        ensures
            final(self).socket() == old(self).socket(),
            final(self).state().wf(),
            if old(self).state().live.dom().contains(req_id) {
                let c = old(self).state().live[req_id];
                let told = (c.state is Closed || c.state is Error) || c.rst_sent;
                &&& final(self).state() == old(self).state().over(
                    ContextView { rst_sent: c.rst_sent || !told, ..c },
                )
                &&& if told {
                    r is None
                } else {
                    r matches Some(b) && octets::octets(b) == frames::frame(
                        MESSAGE_TYPE_RST_STREAM,
                        0,
                        req_id,
                        octets::be_octets(err_code) + vstd::utf8::encode_utf8(msg@),
                    )
                }
            } else {
                final(self).state() == old(self).state() && r is None
            },
    {
        let ghost s0 = self.state();
        let mut r: Option<Bytes> = None;
        if let Some(c) = self.take(req_id) {
            let mut c = c;
            let ghost c0 = c@;
            if !c.state.is_completed() && !c.is_rst_stream_sent {
                r = Some(rst_message(req_id, err_code, msg));
                c.is_rst_stream_sent = true;
            }
            let ghost told = (c0.state is Closed || c0.state is Error) || c0.rst_sent;
            assert(c@ =~= (ContextView { rst_sent: c0.rst_sent || !told, ..c0 }));
            let ghost c1 = c@;
            self.end(c);
            proof {
                assert(self.state() =~= s0.over(c1));
                lemma_over_wf(s0, c1);
            }
        } else {
            assert(s0.live.remove(req_id) =~= s0.live);
            assert(self.state() =~= s0);
        }
        r
    }

    /// Lets a message go to the connector, if any is taken.
    pub fn send_data(&self, message: WsMessage) -> (r: Result<WsMessage, CrankerRouterException>)
        ensures
            if self.state().uplink_open {
                r == Ok::<WsMessage, CrankerRouterException>(message)
            } else {
                r matches Err(e) && e@ == send_data_error(self.socket())
            },
    {
        if self.is_uplink_open {
            Ok(message)
        } else {
            Err(self.send_data_failure())
        }
    }

    /// Answers a ping, or gives the error to report where it cannot be answered.
    pub fn on_ping(&self, ping_msg: Bytes) -> (r: Result<WsMessage, CrankerRouterException>)
        ensures
            if self.state().uplink_open {
                r matches Ok(m) && m@ == MessageView::Pong(octets::octets(ping_msg))
            } else {
                r matches Err(e) && e@ == pong_error(self.socket())
            },
    {
        let e = match self.send_data(WsMessage::Pong(ping_msg)) {
            Ok(m) => {
                return Ok(m);
            },
            Err(e) => e,
        };
        let mut reason = text::concat(
            "failed to pong back CrankerRouterException { reason: ",
            text::debug_str(e.reason.as_str()).as_str(),
        );
        reason.push_str(", opt_status_code: None, opt_err_kind: None }");
        Err(CrankerRouterException::new(reason))
    }

    /// Closes a request under way because its connection was closed.
    fn cut_off(&mut self, id: i32, code: u16, reason: &str, now: i64, out: &mut Vec<V3Effect>)
        requires
            old(self).state().wf(),
            old(self).state().live.dom().contains(id),
            now >= 0,
        ensures
            final(self).socket() == old(self).socket(),
            final(self).state().wf(),
            ({
                let c = cut_off(old(self).state().live[id], code, reason@);
                let step = closed(old(self).socket(), old(self).state(), c, code, now);
                &&& final(self).state() == step.state
                &&& effects(final(out)@) == effects(old(out)@) + step.effects
            }),
    {
        let ghost s0 = self.state();
        if let Some(c) = self.take(id) {
            let mut c = c;
            let ghost c0 = c@;
            if code != 1000 && c.error.is_none() {
                let mut shown = text::concat(
                    "upstream server error: ws code=",
                    text::int_text(code as i64).as_str(),
                );
                shown.push_str(", reason=");
                shown.push_str(reason);
                c.error = Some(CrankerRouterException::new(shown));
            }
            let ghost c1 = cut_off(c0, code, reason@);
            assert(c@ =~= c1);
            self.close(&mut c, code, now, out);
            self.end(c);
            proof {
                lemma_over_wf(s0, closed_context(c1, now));
                assert(self.state() =~= s0.over(closed_context(c1, now)));
            }
        }
    }

    /// Closes all requests under way because their connection was closed.
    fn cut_all_off(&mut self, code: u16, reason: &str, now: i64) -> (r: Vec<V3Effect>)
        requires
            old(self).state().wf(),
            now >= 0,
        ensures
            final(self).socket() == old(self).socket(),
            final(self).state().wf(),
            final(self).state().live == Map::<i32, ContextView>::empty(),
            exists|ids: Seq<i32>|
                {
                    &&& ids.no_duplicates()
                    &&& ids.to_set() == old(self).state().live.dom()
                    &&& (Step { state: final(self).state(), effects: effects(r@) })
                        == #[trigger] all_closed(
                        old(self).socket(),
                        old(self).state(),
                        ids,
                        code,
                        reason@,
                        now,
                    )
                },
    {
        let ghost s0 = self.state();
        let ghost socket = self.socket();
        let ids = map_keys(&self.context_map);
        assert(s0.live.dom() =~= context_map::held(self.context_map).dom());
        let mut out: Vec<V3Effect> = Vec::new();
        let mut i: usize = 0;
        assert(ids@.take(0) =~= Seq::empty());
        assert(effects(out@) =~= Seq::empty());
        while i < ids.len()
            invariant
                i <= ids.len(),
                now >= 0,
                self.socket() == socket,
                self.state().wf(),
                ids@.no_duplicates(),
                ids@.to_set() == s0.live.dom(),
                (Step { state: self.state(), effects: effects(out@) }) == all_closed(
                    socket,
                    s0,
                    ids@.take(i as int),
                    code,
                    reason@,
                    now,
                ),
                forall|k: i32| #[trigger]
                    self.state().live.dom().contains(k) <==> s0.live.dom().contains(k)
                        && !ids@.take(i as int).contains(k),
            decreases ids.len() - i,
        {
            let ghost before = self.state();
            let id = ids[i];
            proof {
                assert(ids@.to_set().contains(ids@[i as int]));
                if ids@.take(i as int).contains(id) {
                    let j = choose|j: int| 0 <= j < i && ids@.take(i as int)[j] == id;
                    assert(ids@[j] == ids@[i as int]);
                }
                assert(before.live.dom().contains(id));
            }
            self.cut_off(id, code, reason, now, &mut out);
            proof {
                let t = ids@.take(i + 1);
                assert(t.drop_last() =~= ids@.take(i as int));
                assert(t.last() == id);
                assert forall|k: i32| #[trigger]
                    self.state().live.dom().contains(k) <==> s0.live.dom().contains(k)
                        && !t.contains(k) by {
                    assert(t.contains(id)) by {
                        assert(t[i as int] == id);
                    }
                    if ids@.take(i as int).contains(k) {
                        let j = choose|j: int| 0 <= j < i && ids@.take(i as int)[j] == k;
                        assert(t[j] == k);
                    }
                    if t.contains(k) && k != id {
                        let j = choose|j: int| 0 <= j < t.len() && t[j] == k;
                        assert(ids@.take(i as int)[j] == k);
                    }
                    assert(before.live.dom().contains(k) <==> s0.live.dom().contains(k)
                        && !ids@.take(i as int).contains(k));
                }
            }
            i = i + 1;
        }
        proof {
            assert(ids@.take(ids@.len() as int) =~= ids@);
            assert forall|k: i32| !#[trigger] self.state().live.dom().contains(k) by {
                if s0.live.dom().contains(k) {
                    assert(ids@.to_set().contains(k));
                }
            }
            assert(self.state().live =~= Map::empty());
        }
        out
    }

    /// Takes the last message of the connector: every request under way is closed with its status
    /// code. Whether the socket is yet to be taken out of the farm is returned too.
    pub fn on_close(
        &mut self,
        opt_close_frame: Option<CloseFrame>,
        is_removed: bool,
        now: i64,
    ) -> (r: CloseOutcome)
        requires
            old(self).state().wf(),
            now >= 0,
        ensures
            r.take_out == !is_removed,
            final(self).socket() == old(self).socket(),
            final(self).state().wf(),
            final(self).state().live == Map::<i32, ContextView>::empty(),
            ({
                let (code, reason) = close_parts(opt_close(opt_close_frame));
                exists|ids: Seq<i32>|
                    {
                        &&& ids.no_duplicates()
                        &&& ids.to_set() == old(self).state().live.dom()
                        &&& (Step { state: final(self).state(), effects: effects(r.effects@) })
                            == #[trigger] all_closed(
                            old(self).socket(),
                            old(self).state(),
                            ids,
                            code,
                            reason,
                            now,
                        )
                    }
            }),
    {
        let ghost parts = close_parts(opt_close(opt_close_frame));
        let (code, reason) = match opt_close_frame {
            Some(f) => (f.code, f.reason),
            None => (4000u16, "closed by router".to_string()),
        };
        assert(code == parts.0 && reason@ == parts.1);
        let effects = self.cut_all_off(code, reason.as_str(), now);
        CloseOutcome { effects, take_out: !is_removed }
    }
}

/// What comes of the last message of the connector.
pub struct CloseOutcome {
    pub effects: Vec<V3Effect>,
    /// Whether the socket is yet to be taken out of the farm.
    pub take_out: bool,
}

/// A request that was taken out and put back.
proof fn lemma_put_back(s0: V3View, s1: V3View, c: ContextView, live: bool)
    requires
        s0.wf(),
        s0.known(c.request_id),
        c.start >= 0,
        live == s0.live.dom().contains(c.request_id),
        s1 == (if live {
            (V3View {
                live: s0.live.remove(c.request_id),
                retired: s0.retired.remove(c.request_id),
                ..s0
            }).put(c)
        } else {
            V3View {
                live: s0.live.remove(c.request_id),
                retired: s0.retired.remove(c.request_id).insert(c.request_id, c),
                ..s0
            }
        }),
    ensures
        s1 == s0.update(c),
        s1.wf(),
{
    let id = c.request_id;
    if live {
        assert(s0.retired.remove(id) =~= s0.retired);
        assert(s1 =~= s0.update(c));
    } else {
        assert(s0.live.remove(id) =~= s0.live);
        assert(s1 =~= s0.update(c));
    }
}

/// Sending headers keeps a request's number and the time that it came.
proof fn lemma_header_sent_same(c: ContextView, sent: Seq<Seq<u8>>)
    ensures
        header_sent(c, sent).request_id == c.request_id,
        header_sent(c, sent).start == c.start,
    decreases sent.len(),
{
    if sent.len() > 0 {
        lemma_header_sent_same(c, sent.drop_last());
    }
}

/// There is a frame for every header text, and each has its fixed part.
proof fn lemma_header_frames_len(req_id: i32, is_stream_end: bool, line: Seq<char>)
    ensures
        ({
            let all = frames::header_frames(req_id, true, is_stream_end, line);
            &&& all.len() > 0
            &&& forall|j: int|
                0 <= j < all.len() ==> (#[trigger] all[j]).len() >= HEADER_LEN_IN_BYTES
        }),
{
    if line.len() == 0 {
        assert(vstd::utf8::encode_utf8(line).len() == 0);
    }
}

/// It does not matter how a request stood before it was put in its place.
proof fn lemma_header_taken_put(
    socket: RouterSocketInfo,
    s: V3View,
    c0: ContextView,
    c1: ContextView,
    flags: u8,
    n: i32,
    now: i64,
)
    requires
        c0.request_id == c1.request_id,
    ensures
        header_taken(socket, s.put(c0), c1, flags, n, now) == header_taken(
            socket,
            s.put(c1),
            c1,
            flags,
            n,
            now,
        ),
{
    assert(s.put(c0).put(c1) =~= s.put(c1).put(c1));
    let c2 = closed_context(c1, now);
    assert(s.put(c0).over(c2) =~= s.put(c1).over(c2));
}

proof fn lemma_put_wf(s: V3View, c: ContextView)
    requires
        s.wf(),
        s.live.dom().contains(c.request_id),
        c.start >= 0,
    ensures
        s.put(c).wf(),
{
}

proof fn lemma_over_wf(s: V3View, c: ContextView)
    requires
        s.wf(),
        s.live.dom().contains(c.request_id),
        c.start >= 0,
    ensures
        s.over(c).wf(),
{
}

proof fn lemma_failed_wf(
    socket: RouterSocketInfo,
    s: V3View,
    c: ContextView,
    e: ExceptionView,
    now: i64,
)
    requires
        s.wf(),
        c.start >= 0,
    ensures
        failed(socket, s, c, e, now).state.wf(),
{
    reveal(failed);
}

/// Whatever frame comes in, each request stands under its number afterwards, and no number was
/// given out twice.
pub proof fn law_frame_keeps_wf(
    socket: RouterSocketInfo,
    s: V3View,
    bin: Seq<u8>,
    is_removed: bool,
    now: i64,
)
    requires
        s.wf(),
    ensures
        frame_came(socket, s, bin, is_removed, now).state.wf(),
{
    if let Some(f) = frames::parts(bin) {
        let id = f.req_id as i32;
        if s.live.dom().contains(id) {
            let c = s.live[id];
            if f.msg_type == MESSAGE_TYPE_DATA {
                lemma_data_wf(socket, s, c, f.flags, f.payload, is_removed, now);
            } else if f.msg_type == MESSAGE_TYPE_HEADER {
                lemma_header_wf(socket, s, c, f.flags, f.payload, now);
            } else {
                lemma_failed_wf(socket, s, c, rst_error(socket, id, f.payload), now);
            }
        }
    }
}

proof fn lemma_data_wf(
    socket: RouterSocketInfo,
    s: V3View,
    c: ContextView,
    flags: u8,
    payload: Seq<u8>,
    is_removed: bool,
    now: i64,
)
    requires
        s.wf(),
        s.live.dom().contains(c.request_id),
        c.start >= 0,
    ensures
        data_came(socket, s, c, flags, payload, is_removed, now).state.wf(),
{
    let id = c.request_id;
    lemma_failed_wf(socket, s, c, too_early_error(socket, id), now);
    lemma_over_wf(s, closed_context(c, now));
    let c1 = ContextView { frames: c.frames.wrapping_add(1), ..c };
    let c2 = closed_context(c1, now);
    lemma_over_wf(s, c2);
    lemma_put_wf(s, c1);
    lemma_failed_wf(socket, s.over(c2), c2, removed_error(id, flags), now);
    lemma_failed_wf(socket, s.put(c1), c1, removed_error(id, flags), now);
}

proof fn lemma_header_wf(
    socket: RouterSocketInfo,
    s: V3View,
    c: ContextView,
    flags: u8,
    payload: Seq<u8>,
    now: i64,
)
    requires
        s.wf(),
        s.live.dom().contains(c.request_id),
        c.start >= 0,
    ensures
        header_came(socket, s, c, flags, payload, now).state.wf(),
{
    let id = c.request_id;
    lemma_failed_wf(socket, s, c, too_early_error(socket, id), now);
    lemma_failed_wf(socket, s, c, too_long_error(socket, id), now);
    lemma_failed_wf(socket, s, c, no_text_error(socket, id, payload), now);
    let c1 = ContextView { header_text: c.header_text + decode_utf8(payload), ..c };
    let c2 = closed_context(c1, now);
    lemma_over_wf(s, c2);
    lemma_put_wf(s, c1);
    lemma_failed_wf(socket, s.over(c2), c2, send_data_error(socket), now);
    lemma_failed_wf(socket, s.put(c1), c1, send_data_error(socket), now);
}

} // verus!
