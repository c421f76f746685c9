//! A connection by protocol version 1: it serves one request in its life.
//!
//! The socket decides what has to be done about what comes in; the effects that it returns are
//! to be carried out in their order.

use crate::cranker_protocol_request_builder::{CrankerProtocolRequestBuilder, EndMarker};
use crate::exceptions::{
    compose_ex, opt_exception, opt_exception_clone, CrankerRouterException, CrexKind, ExceptionView,
};
use crate::listeners::{
    say_some_need, say_some_need_response, some_need_request_chunks, some_need_response_chunks,
    Listeners,
};
use crate::octets::remaining;
use crate::proxy_info::{ProxyInfoData, ProxyInfoView};
use crate::router_socket::{
    CloseFrame, MessageView, RouterSocketInfo, WsMessage, HEADER_MAX_SIZE,
};
use crate::{exceptions, octets, text};
use bytes::Bytes;
use vstd::prelude::*;
use vstd::utf8::encode_utf8;

verus! {

/// Something to be done about the request.
pub enum V1Effect {
    /// Put a message among those that go to the connector.
    Send(WsMessage),
    /// Hand the header text of the response over.
    HeaderText(String),
    /// Hand an error over in place of the header text.
    HeaderError(CrankerRouterException),
    /// Hand a piece of the response's body over.
    Body(Bytes),
    /// Hand an error over in place of a piece of the response's body.
    BodyError(CrankerRouterException),
    /// Take no more header text.
    CloseHeader,
    /// Take no more of the response's body.
    CloseBody,
    /// Tell the listeners that the response's body has come in full.
    BodyReceived(ProxyInfoData),
    /// Take the socket out of the farm.
    RemoveFromFarm,
    /// Tell the listeners that the request is over.
    Completed(ProxyInfoData),
    /// Report an error to the sending side of the connection.
    ReportError(CrankerRouterException),
}

/// What an effect is about.
#[verifier::ext_equal]
pub enum V1EffectView {
    Send(MessageView),
    HeaderText(Seq<char>),
    HeaderError(ExceptionView),
    Body(Seq<u8>),
    BodyError(ExceptionView),
    CloseHeader,
    CloseBody,
    BodyReceived(ProxyInfoView),
    RemoveFromFarm,
    Completed(ProxyInfoView),
    ReportError(ExceptionView),
}

impl View for V1Effect {
    type V = V1EffectView;

    open spec fn view(&self) -> V1EffectView {
        match self {
            V1Effect::Send(m) => V1EffectView::Send(m@),
            V1Effect::HeaderText(s) => V1EffectView::HeaderText(s@),
            V1Effect::HeaderError(e) => V1EffectView::HeaderError(e@),
            V1Effect::Body(b) => V1EffectView::Body(octets::octets(*b)),
            V1Effect::BodyError(e) => V1EffectView::BodyError(e@),
            V1Effect::CloseHeader => V1EffectView::CloseHeader,
            V1Effect::CloseBody => V1EffectView::CloseBody,
            V1Effect::BodyReceived(i) => V1EffectView::BodyReceived(i@),
            V1Effect::RemoveFromFarm => V1EffectView::RemoveFromFarm,
            V1Effect::Completed(i) => V1EffectView::Completed(i@),
            V1Effect::ReportError(e) => V1EffectView::ReportError(e@),
        }
    }
}

/// What the effects of a sequence are about.
pub open spec fn effects(v: Seq<V1Effect>) -> Seq<V1EffectView> {
    v.map_values(|e: V1Effect| e@)
}

fn emit(out: &mut Vec<V1Effect>, e: V1Effect)
    ensures
        effects(final(out)@) == effects(old(out)@).push(e@),
{
    out.push(e);
    assert(effects(out@) =~= effects(old(out)@).push(e@));
}

/// A connection by protocol version 1.
pub struct RouterSocketV1 {
    pub info: RouterSocketInfo,
    /// Whether the target may answer: not before the request's headers are on their way.
    pub is_tgt_can_send_res_now_according_to_rfc2616: bool,
    /// Bytes from the client.
    pub bytes_received: i64,
    /// Bytes to the client.
    pub bytes_sent: i64,
    pub binary_frame_received: i64,
    pub socket_wait_in_millis: i64,
    pub error: Option<CrankerRouterException>,
    /// When the client's request came, or 0 before it comes.
    pub client_req_start_ts: i64,
    pub duration_millis: i64,
    pub is_tgt_res_hdr_received: bool,
    pub is_tgt_res_hdr_sent: bool,
    pub is_tgt_res_bdy_received: bool,
    /// Whether the header text of the response is still taken.
    pub is_tgt_res_hdr_open: bool,
    /// Whether the body of the response is still taken.
    pub is_tgt_res_bdy_open: bool,
    /// Whether messages to the connector are still taken.
    pub is_uplink_open: bool,
    /// Whether errors are still taken.
    pub is_err_chan_open: bool,
    pub is_close_msg_received: bool,
    /// Whether some listener has asked for the pieces of the response's body.
    pub really_need_on_response_body_chunk_received_from_target: bool,
    /// Whether some listener has asked for the pieces of the request's body.
    pub really_need_on_request_body_chunk_sent_to_target: bool,
}

/// What a [`RouterSocketV1`] holds.
#[verifier::ext_equal]
pub struct V1View {
    pub can_respond: bool,
    pub bytes_received: i64,
    pub bytes_sent: i64,
    pub frames: i64,
    pub socket_wait: i64,
    pub error: Option<ExceptionView>,
    pub start: i64,
    pub duration: i64,
    pub hdr_received: bool,
    pub hdr_sent: bool,
    pub bdy_received: bool,
    pub hdr_open: bool,
    pub bdy_open: bool,
    pub uplink_open: bool,
    pub err_chan_open: bool,
    pub close_received: bool,
    pub needs_response_chunks: bool,
    pub needs_request_chunks: bool,
}

impl View for RouterSocketV1 {
    type V = V1View;

    open spec fn view(&self) -> V1View {
        V1View {
            can_respond: self.is_tgt_can_send_res_now_according_to_rfc2616,
            bytes_received: self.bytes_received,
            bytes_sent: self.bytes_sent,
            frames: self.binary_frame_received,
            socket_wait: self.socket_wait_in_millis,
            error: opt_exception(self.error),
            start: self.client_req_start_ts,
            duration: self.duration_millis,
            hdr_received: self.is_tgt_res_hdr_received,
            hdr_sent: self.is_tgt_res_hdr_sent,
            bdy_received: self.is_tgt_res_bdy_received,
            hdr_open: self.is_tgt_res_hdr_open,
            bdy_open: self.is_tgt_res_bdy_open,
            uplink_open: self.is_uplink_open,
            err_chan_open: self.is_err_chan_open,
            close_received: self.is_close_msg_received,
            needs_response_chunks: self.really_need_on_response_body_chunk_received_from_target,
            needs_request_chunks: self.really_need_on_request_body_chunk_sent_to_target,
        }
    }
}

/// What comes of an event: the socket afterwards, the effects, and the error if there is one.
#[verifier::ext_equal]
pub struct V1Step {
    pub state: V1View,
    pub effects: Seq<V1EffectView>,
    pub err: Option<ExceptionView>,
}

impl V1View {
    /// A connection that waits for its request, for whose pieces no listener has asked.
    pub open spec fn start(now: i64) -> V1View {
        V1View {
            can_respond: false,
            bytes_received: 0,
            bytes_sent: 0,
            frames: 0,
            socket_wait: (-now) as i64,
            error: None,
            start: 0,
            duration: (-now) as i64,
            hdr_received: false,
            hdr_sent: false,
            bdy_received: false,
            hdr_open: true,
            bdy_open: true,
            uplink_open: true,
            err_chan_open: true,
            close_received: false,
            needs_response_chunks: false,
            needs_request_chunks: false,
        }
    }

    /// The client's request came.
    pub open spec fn opened(self, now: i64) -> V1View {
        V1View {
            socket_wait: self.socket_wait.wrapping_add(now),
            start: now,
            duration: (-now) as i64,
            ..self
        }
    }

    /// What the proxy listeners are told of the request.
    pub open spec fn info(self, socket: RouterSocketInfo) -> ProxyInfoView {
        ProxyInfoView {
            router_socket_id: socket.router_socket_id@,
            route: socket.route@,
            service_address: socket.service_address,
            connector_id: socket.connector_id@,
            duration_millis: self.duration,
            bytes_received: self.bytes_received,
            bytes_sent: self.bytes_sent,
            response_body_frames: self.frames,
            error: self.error,
            socket_wait_in_millis: self.socket_wait,
        }
    }

    /// The request is over: the socket leaves the farm, and the listeners are told, if there was
    /// a request and there are listeners.
    pub open spec fn completed(
        self,
        socket: RouterSocketInfo,
        has_listeners: bool,
        now: i64,
    ) -> V1Step {
        if self.start == 0 || !has_listeners {
            V1Step { state: self, effects: seq![V1EffectView::RemoveFromFarm], err: None }
        } else {
            let s = V1View { duration: (now - self.start) as i64, ..self };
            V1Step {
                state: s,
                effects: seq![
                    V1EffectView::RemoveFromFarm,
                    V1EffectView::Completed(s.info(socket)),
                ],
                err: None,
            }
        }
    }

    /// An error is reported, which ends the request. It is kept for the listeners. It cannot be
    /// reported where no errors are taken any more.
    pub open spec fn reported(
        self,
        socket: RouterSocketInfo,
        e: ExceptionView,
        has_listeners: bool,
        now: i64,
    ) -> V1Step {
        if self.err_chan_open {
            let s = V1View { error: Some(e), ..self };
            let over = s.completed(socket, has_listeners, now);
            V1Step {
                state: over.state,
                effects: seq![V1EffectView::ReportError(e)] + over.effects,
                err: None,
            }
        } else {
            V1Step {
                state: self,
                effects: Seq::empty(),
                err: Some(
                    ExceptionView::of(
                        "rare ex that failed to send error to err chan: SendError(..)"@,
                    ),
                ),
            }
        }
    }

    /// The header text of the response came in.
    pub open spec fn text_came(self, txt: Seq<char>) -> V1Step {
        let n = encode_utf8(txt).len();
        if !self.can_respond {
            self.refused("recv txt before handle cli req."@)
        } else if self.hdr_sent || self.hdr_received {
            self.refused("res header already handled!"@)
        } else if n > HEADER_MAX_SIZE {
            V1View { hdr_received: true, ..self }.refused(
                "response header too large: over 64 * 1024 bytes."@,
            )
        } else {
            let s = V1View { hdr_received: true, hdr_sent: true, hdr_open: false, ..self };
            if self.hdr_open {
                V1Step {
                    state: V1View {
                        bytes_sent: self.bytes_sent.wrapping_add(n as i64),
                        ..s
                    },
                    effects: seq![V1EffectView::HeaderText(txt), V1EffectView::CloseHeader],
                    err: None,
                }
            } else {
                V1Step {
                    state: s,
                    effects: seq![V1EffectView::CloseHeader],
                    err: Some(
                        ExceptionView::of(
                            "rare ex: failed to send txt to cli res chan: SendError(..). "@,
                        ),
                    ),
                }
            }
        }
    }

    /// A piece of the response's body came in.
    pub open spec fn binary_came(self, bin: Seq<u8>) -> V1Step {
        if !self.can_respond {
            self.refused("recv bin before handle cli req."@)
        } else {
            let s = V1View { frames: self.frames.wrapping_add(1), ..self };
            if !self.hdr_received || !self.hdr_sent {
                s.refused("res header not handle yet but comes binary first"@)
            } else {
                let s = V1View { bdy_received: true, ..s };
                if self.bdy_open {
                    V1Step {
                        state: V1View {
                            bytes_sent: self.bytes_sent.wrapping_add(bin.len() as i64),
                            ..s
                        },
                        effects: seq![V1EffectView::Body(bin)],
                        err: None,
                    }
                } else {
                    s.refused("failed to send binary to cli res chan: SendError(..)"@)
                }
            }
        }
    }

    /// What came is not taken.
    pub open spec fn refused(self, reason: Seq<char>) -> V1Step {
        V1Step { state: self, effects: Seq::empty(), err: Some(ExceptionView::of(reason)) }
    }

    /// The connector closed the connection.
    pub open spec fn close_came(
        self,
        socket: RouterSocketInfo,
        frame: Option<(u16, Seq<char>)>,
        has_listeners: bool,
        now: i64,
    ) -> V1Step {
        let s = V1View { close_received: true, ..self };
        let (code, reason) = match frame {
            Some((code, reason)) => (code, reason),
            None => (4000, Seq::empty()),
        };
        let echoed = if self.uplink_open {
            seq![V1EffectView::Send(MessageView::Close(frame))]
        } else {
            Seq::empty()
        };
        V1Step {
            state: s,
            effects: echoed.push(V1EffectView::BodyReceived(s.info(socket))),
            err: None,
        }.and_tell_refusal(socket, code, has_listeners, now).and_close_response(
            socket,
            code,
            reason,
            has_listeners,
            now,
        ).and_complete(socket, has_listeners, now)
    }
}

impl V1Step {
    /// The step, and then an error is reported.
    #[verifier::opaque]
    pub open spec fn and_report(
        self,
        socket: RouterSocketInfo,
        e: ExceptionView,
        has_listeners: bool,
        now: i64,
    ) -> V1Step {
        let next = self.state.reported(socket, e, has_listeners, now);
        V1Step {
            state: next.state,
            effects: self.effects + next.effects,
            err: exceptions::compose(self.err, next.err),
        }
    }

    /// The step, and then the client of a request of which nothing was sent is told that the
    /// connector turned it down.
    #[verifier::opaque]
    pub open spec fn and_tell_refusal(
        self,
        socket: RouterSocketInfo,
        code: u16,
        has_listeners: bool,
        now: i64,
    ) -> V1Step {
        if !(self.state.can_respond && self.state.bytes_received == 0) {
            self
        } else if code == 1011 {
            self.and_report(
                socket,
                ExceptionView::of("ws code 1011"@).with_status_code(502),
                has_listeners,
                now,
            )
        } else if code == 1008 {
            self.and_report(
                socket,
                ExceptionView::of("ws code 1008"@).with_status_code(400),
                has_listeners,
                now,
            )
        } else {
            self
        }
    }

    /// The step, and then a response that still took something takes nothing more. If that was
    /// not meant to be its end, an error is reported.
    #[verifier::opaque]
    pub open spec fn and_close_response(
        self,
        socket: RouterSocketInfo,
        code: u16,
        reason: Seq<char>,
        has_listeners: bool,
        now: i64,
    ) -> V1Step {
        if !self.state.hdr_open && !self.state.bdy_open {
            self
        } else {
            let told = if code == 1000 {
                self
            } else {
                self.and_report(
                    socket,
                    ExceptionView::of(
                        "upstream server error: ws code="@ + text::decimal_int(code as int)
                            + ", reason="@ + reason,
                    ),
                    has_listeners,
                    now,
                )
            };
            V1Step {
                state: V1View { hdr_open: false, bdy_open: false, ..told.state },
                effects: told.effects + seq![V1EffectView::CloseHeader, V1EffectView::CloseBody],
                err: told.err,
            }
        }
    }

    /// The step, and then the request is over.
    pub open spec fn and_complete(
        self,
        socket: RouterSocketInfo,
        has_listeners: bool,
        now: i64,
    ) -> V1Step {
        let over = self.state.completed(socket, has_listeners, now);
        V1Step { state: over.state, effects: self.effects + over.effects, err: self.err }
    }
}

/// The step that led to a state, with the effects and the error so far.
spec fn step_of(
    state: V1View,
    out: Seq<V1Effect>,
    err: Option<CrankerRouterException>,
) -> V1Step {
    V1Step { state, effects: effects(out), err: opt_exception(err) }
}

/// What comes of an event.
pub struct V1Outcome {
    pub effects: Vec<V1Effect>,
    pub result: Result<(), CrankerRouterException>,
}

impl V1Outcome {
    /// Whether this is what comes of a step, with the socket left in the given state.
    pub open spec fn is(self, state: V1View, step: V1Step) -> bool {
        &&& state == step.state
        &&& effects(self.effects@) == step.effects
        &&& match step.err {
            None => self.result is Ok,
            Some(ex) => self.result matches Err(e) && e@ == ex,
        }
    }
}

fn refuse(reason: &str) -> (r: V1Outcome)
    ensures
        effects(r.effects@) == Seq::<V1EffectView>::empty(),
        r.result matches Err(e) && e@ == ExceptionView::of(reason@),
{
    let none: Vec<V1Effect> = Vec::new();
    assert(effects(none@) =~= Seq::empty());
    V1Outcome { effects: none, result: Err(CrankerRouterException::new(reason.to_string())) }
}

impl RouterSocketV1 {
    /// A connection that waits for its request. The listeners are asked here whether they need the
    /// pieces of its body and of the response's, and not again for each piece.
    pub fn new(info: RouterSocketInfo, listeners: &Listeners, now: i64) -> (r: Self)
        requires
            now >= 0,
        ensures
            r.info == info,
            r@ == (V1View {
                needs_response_chunks: r@.needs_response_chunks,
                needs_request_chunks: r@.needs_request_chunks,
                ..V1View::start(now)
            }),
            say_some_need_response(listeners@, r@.needs_response_chunks),
            say_some_need(listeners@, r@.needs_request_chunks),
            listeners@.len() == 0 ==> r@ == V1View::start(now),
    {
        let r = RouterSocketV1 {
            info,
            is_tgt_can_send_res_now_according_to_rfc2616: false,
            bytes_received: 0,
            bytes_sent: 0,
            binary_frame_received: 0,
            socket_wait_in_millis: -now,
            error: None,
            client_req_start_ts: 0,
            duration_millis: -now,
            is_tgt_res_hdr_received: false,
            is_tgt_res_hdr_sent: false,
            is_tgt_res_bdy_received: false,
            is_tgt_res_hdr_open: true,
            is_tgt_res_bdy_open: true,
            is_uplink_open: true,
            is_err_chan_open: true,
            is_close_msg_received: false,
            really_need_on_response_body_chunk_received_from_target: some_need_response_chunks(
                listeners,
            ),
            really_need_on_request_body_chunk_sent_to_target: some_need_request_chunks(listeners),
        };
        assert(r@ =~= (V1View {
            needs_response_chunks: r@.needs_response_chunks,
            needs_request_chunks: r@.needs_request_chunks,
            ..V1View::start(now)
        }));
        r
    }

    /// What the proxy listeners are told of the request.
    pub fn proxy_info(&self) -> (r: ProxyInfoData)
        ensures
            r@ == self@.info(self.info),
    {
        let r = ProxyInfoData {
            router_socket_id: self.info.router_socket_id.clone(),
            route: self.info.route.clone(),
            service_address: self.info.service_address,
            connector_id: self.info.connector_id.clone(),
            duration_millis: self.duration_millis,
            bytes_received: self.bytes_received,
            bytes_sent: self.bytes_sent,
            response_body_frames: self.binary_frame_received,
            error: opt_exception_clone(&self.error),
            socket_wait_in_millis: self.socket_wait_in_millis,
        };
        assert(r@ =~= self@.info(self.info));
        r
    }

    fn complete(&mut self, has_listeners: bool, now: i64, out: &mut Vec<V1Effect>)
        requires
            now >= 0,
            old(self)@.start >= 0,
        ensures
            final(self).info == old(self).info,
            ({
                let step = old(self)@.completed(old(self).info, has_listeners, now);
                &&& final(self)@ == step.state
                &&& effects(final(out)@) == effects(old(out)@) + step.effects
            }),
    {
        let ghost step = self@.completed(self.info, has_listeners, now);
        emit(out, V1Effect::RemoveFromFarm);
        if self.client_req_start_ts != 0 && has_listeners {
            self.duration_millis = now - self.client_req_start_ts;
            assert(self@ =~= step.state);
            emit(out, V1Effect::Completed(self.proxy_info()));
        }
        assert(effects(out@) =~= effects(old(out)@) + step.effects);
    }

    /// The request is over.
    pub fn raise_completion_event(&mut self, has_listeners: bool, now: i64) -> (r: Vec<V1Effect>)
        requires
            now >= 0,
            old(self)@.start >= 0,
        ensures
            final(self).info == old(self).info,
            final(self)@ == old(self)@.completed(old(self).info, has_listeners, now).state,
            effects(r@) == old(self)@.completed(old(self).info, has_listeners, now).effects,
    {
        let mut out: Vec<V1Effect> = Vec::new();
        self.complete(has_listeners, now, &mut out);
        assert(effects(out@) =~= old(self)@.completed(old(self).info, has_listeners, now).effects);
        out
    }

    fn report(
        &mut self,
        err: CrankerRouterException,
        has_listeners: bool,
        now: i64,
        out: &mut Vec<V1Effect>,
    ) -> (r: Result<(), CrankerRouterException>)
        requires
            now >= 0,
            old(self)@.start >= 0,
        ensures
            final(self).info == old(self).info,
            final(self)@.start == old(self)@.start,
            ({
                let step = old(self)@.reported(old(self).info, err@, has_listeners, now);
                &&& final(self)@ == step.state
                &&& effects(final(out)@) == effects(old(out)@) + step.effects
                &&& match step.err {
                    None => r is Ok,
                    Some(ex) => r matches Err(e) && e@ == ex,
                }
            }),
    {
        let ghost step = self@.reported(self.info, err@, has_listeners, now);
        if !self.is_err_chan_open {
            assert(effects(out@) =~= effects(old(out)@) + step.effects);
            return Err(
                CrankerRouterException::new(
                    "rare ex that failed to send error to err chan: SendError(..)".to_string(),
                ),
            );
        }
        self.error = Some(err.clone());
        assert(self@ =~= (V1View { error: Some(err@), ..old(self)@ }));
        emit(out, V1Effect::ReportError(err));
        self.complete(has_listeners, now, out);
        assert(effects(out@) =~= effects(old(out)@) + step.effects);
        Ok(())
    }

    /// Reports an error, which ends the request.
    pub fn on_error(&mut self, err: CrankerRouterException, has_listeners: bool, now: i64) -> (r:
        V1Outcome)
        requires
            now >= 0,
            old(self)@.start >= 0,
        ensures
            final(self).info == old(self).info,
            r.is(final(self)@, old(self)@.reported(old(self).info, err@, has_listeners, now)),
    {
        let mut out: Vec<V1Effect> = Vec::new();
        let result = self.report(err, has_listeners, now, &mut out);
        assert(effects(out@) =~= old(self)@.reported(
            old(self).info,
            err@,
            has_listeners,
            now,
        ).effects);
        V1Outcome { effects: out, result }
    }

    /// Takes the header text of the response.
    pub fn on_text(&mut self, txt: String) -> (r: V1Outcome)
        ensures
            final(self).info == old(self).info,
            r.is(final(self)@, old(self)@.text_came(txt@)),
    {
        let ghost step = self@.text_came(txt@);
        if !self.is_tgt_can_send_res_now_according_to_rfc2616 {
            return refuse("recv txt before handle cli req.");
        }
        if self.is_tgt_res_hdr_sent || self.is_tgt_res_hdr_received {
            return refuse("res header already handled!");
        }
        self.is_tgt_res_hdr_received = true;
        let txt_len: usize = txt.as_str().as_bytes().len();
        if txt_len > HEADER_MAX_SIZE {
            assert(self@ =~= step.state);
            return refuse("response header too large: over 64 * 1024 bytes.");
        }
        let mut out: Vec<V1Effect> = Vec::new();
        let result = if self.is_tgt_res_hdr_open {
            emit(&mut out, V1Effect::HeaderText(txt));
            self.bytes_sent = self.bytes_sent.wrapping_add(txt_len as i64);
            Ok(())
        } else {
            Err(
                CrankerRouterException::new(
                    "rare ex: failed to send txt to cli res chan: SendError(..). ".to_string(),
                ),
            )
        };
        emit(&mut out, V1Effect::CloseHeader);
        self.is_tgt_res_hdr_open = false;
        self.is_tgt_res_hdr_sent = true;
        assert(self@ =~= step.state);
        assert(effects(out@) =~= step.effects);
        V1Outcome { effects: out, result }
    }

    /// Takes a piece of the response's body.
    pub fn on_binary(&mut self, bin: Bytes) -> (r: V1Outcome)
        ensures
            final(self).info == old(self).info,
            r.is(final(self)@, old(self)@.binary_came(octets::octets(bin))),
    {
        let ghost step = self@.binary_came(octets::octets(bin));
        if !self.is_tgt_can_send_res_now_according_to_rfc2616 {
            return refuse("recv bin before handle cli req.");
        }
        self.binary_frame_received = self.binary_frame_received.wrapping_add(1);
        if !self.is_tgt_res_hdr_received || !self.is_tgt_res_hdr_sent {
            assert(self@ =~= step.state);
            return refuse("res header not handle yet but comes binary first");
        }
        self.is_tgt_res_bdy_received = true;
        if !self.is_tgt_res_bdy_open {
            assert(self@ =~= step.state);
            return refuse("failed to send binary to cli res chan: SendError(..)");
        }
        let bin_len: i64 = remaining(&bin) as i64;
        let mut out: Vec<V1Effect> = Vec::new();
        emit(&mut out, V1Effect::Body(bin));
        self.bytes_sent = self.bytes_sent.wrapping_add(bin_len);
        assert(self@ =~= step.state);
        assert(effects(out@) =~= step.effects);
        V1Outcome { effects: out, result: Ok(()) }
    }

    /// Answers a ping. Where it cannot be answered, that is reported as an error.
    pub fn on_ping(&mut self, ping_msg: Bytes, has_listeners: bool, now: i64) -> (r: V1Outcome)
        requires
            now >= 0,
            old(self)@.start >= 0,
        ensures
            final(self).info == old(self).info,
            r.is(
                final(self)@,
                if old(self)@.uplink_open {
                    V1Step {
                        state: old(self)@,
                        effects: seq![
                            V1EffectView::Send(MessageView::Pong(octets::octets(ping_msg))),
                        ],
                        err: None,
                    }
                } else {
                    old(self)@.reported(
                        old(self).info,
                        ExceptionView::of("failed to pong back SendError(..)"@),
                        has_listeners,
                        now,
                    )
                },
            ),
    {
        if !self.is_uplink_open {
            return self.on_error(
                CrankerRouterException::new("failed to pong back SendError(..)".to_string()),
                has_listeners,
                now,
            );
        }
        let mut out: Vec<V1Effect> = Vec::new();
        let ghost o = octets::octets(ping_msg);
        emit(&mut out, V1Effect::Send(WsMessage::Pong(ping_msg)));
        assert(effects(out@) =~= seq![V1EffectView::Send(MessageView::Pong(o))]);
        V1Outcome { effects: out, result: Ok(()) }
    }

    fn report_too(
        &mut self,
        ex: CrankerRouterException,
        has_listeners: bool,
        now: i64,
        out: &mut Vec<V1Effect>,
        total_err: Option<CrankerRouterException>,
    ) -> (r: Option<CrankerRouterException>)
        requires
            now >= 0,
            old(self)@.start >= 0,
        ensures
            final(self).info == old(self).info,
            final(self)@.start == old(self)@.start,
            step_of(final(self)@, final(out)@, r) == step_of(
                old(self)@,
                old(out)@,
                total_err,
            ).and_report(old(self).info, ex@, has_listeners, now),
    {
        reveal(V1Step::and_report);
        let may_ex = self.report(ex, has_listeners, now, out);
        compose_ex(total_err, may_ex)
    }

    fn tell_refusal(
        &mut self,
        code: u16,
        has_listeners: bool,
        now: i64,
        out: &mut Vec<V1Effect>,
    ) -> (r: Option<CrankerRouterException>)
        requires
            now >= 0,
            old(self)@.start >= 0,
        ensures
            final(self).info == old(self).info,
            final(self)@.start == old(self)@.start,
            step_of(final(self)@, final(out)@, r) == step_of(
                old(self)@,
                old(out)@,
                None,
            ).and_tell_refusal(old(self).info, code, has_listeners, now),
    {
        reveal(V1Step::and_tell_refusal);
        if self.is_tgt_can_send_res_now_according_to_rfc2616 && self.bytes_received == 0 {
            if code == 1011 {
                let ex = CrankerRouterException::new("ws code 1011".to_string()).with_status_code(
                    502,
                );
                return self.report_too(ex, has_listeners, now, out, None);
            } else if code == 1008 {
                let ex = CrankerRouterException::new("ws code 1008".to_string()).with_status_code(
                    400,
                );
                return self.report_too(ex, has_listeners, now, out, None);
            }
        }
        None
    }

    #[verifier::rlimit(40)]
    #[verifier::spinoff_prover]
    fn close_response(
        &mut self,
        code: u16,
        reason: &str,
        has_listeners: bool,
        now: i64,
        out: &mut Vec<V1Effect>,
        total_err: Option<CrankerRouterException>,
    ) -> (r: Option<CrankerRouterException>)
        requires
            now >= 0,
            old(self)@.start >= 0,
        ensures
            final(self).info == old(self).info,
            final(self)@.start == old(self)@.start,
            step_of(final(self)@, final(out)@, r) == step_of(
                old(self)@,
                old(out)@,
                total_err,
            ).and_close_response(old(self).info, code, reason@, has_listeners, now),
    {
        reveal(V1Step::and_close_response);
        let ghost step = step_of(self@, out@, total_err).and_close_response(
            self.info,
            code,
            reason@,
            has_listeners,
            now,
        );
        if !self.is_tgt_res_hdr_open && !self.is_tgt_res_bdy_open {
            return total_err;
        }
        let total_err = if code != 1000 {
            let mut text_of = text::concat(
                "upstream server error: ws code=",
                text::int_text(code as i64).as_str(),
            );
            text_of.push_str(", reason=");
            text_of.push_str(reason);
            let ex = CrankerRouterException::new(text_of);
            self.report_too(ex, has_listeners, now, out, total_err)
        } else {
            total_err
        };
        let ghost told = step_of(self@, out@, total_err);
        emit(out, V1Effect::CloseHeader);
        emit(out, V1Effect::CloseBody);
        self.is_tgt_res_hdr_open = false;
        self.is_tgt_res_bdy_open = false;
        assert(self@ =~= (V1View { hdr_open: false, bdy_open: false, ..told.state }));
        assert(effects(out@) =~= told.effects + seq![
            V1EffectView::CloseHeader,
            V1EffectView::CloseBody,
        ]);
        assert(step_of(self@, out@, total_err) == step);
        total_err
    }

    /// The connector's last message came: it is sent back, and the response's body has come.
    fn echo_close(&mut self, opt_close_frame: Option<CloseFrame>, out: &mut Vec<V1Effect>)
        requires
            old(out)@.len() == 0,
        ensures
            final(self).info == old(self).info,
            final(self)@ == (V1View { close_received: true, ..old(self)@ }),
            effects(final(out)@) == (if old(self)@.uplink_open {
                seq![
                    V1EffectView::Send(
                        MessageView::Close(crate::router_socket::opt_close(opt_close_frame)),
                    ),
                ]
            } else {
                Seq::empty()
            }).push(V1EffectView::BodyReceived(final(self)@.info(old(self).info))),
    {
        assert(effects(out@) =~= Seq::empty());
        self.is_close_msg_received = true;
        assert(self@ =~= (V1View { close_received: true, ..old(self)@ }));
        if self.is_uplink_open {
            emit(out, V1Effect::Send(WsMessage::Close(opt_close_frame)));
        }
        emit(out, V1Effect::BodyReceived(self.proxy_info()));
    }

    /// The connector's last message has been taken: the response and the request end.
    fn end_all(
        &mut self,
        code: u16,
        reason: &str,
        has_listeners: bool,
        now: i64,
        out: &mut Vec<V1Effect>,
    ) -> (r: Option<CrankerRouterException>)
        requires
            now >= 0,
            old(self)@.start >= 0,
        ensures
            final(self).info == old(self).info,
            step_of(final(self)@, final(out)@, r) == step_of(
                old(self)@,
                old(out)@,
                None,
            ).and_tell_refusal(old(self).info, code, has_listeners, now).and_close_response(
                old(self).info,
                code,
                reason@,
                has_listeners,
                now,
            ).and_complete(old(self).info, has_listeners, now),
    {
        let total_err = self.tell_refusal(code, has_listeners, now, out);
        let total_err = self.close_response(code, reason, has_listeners, now, out, total_err);
        self.complete(has_listeners, now, out);
        total_err
    }

    /// Takes the last message of the connector. What the listeners answer to the last of the
    /// effects, if it tells them that the request is over, is to be added to the result with
    /// [`close_result`].
    pub fn on_close(
        &mut self,
        opt_close_frame: Option<CloseFrame>,
        has_listeners: bool,
        now: i64,
    ) -> (r: V1Outcome)
        requires
            now >= 0,
            old(self)@.start >= 0,
        ensures
            final(self).info == old(self).info,
            r.is(
                final(self)@,
                old(self)@.close_came(
                    old(self).info,
                    crate::router_socket::opt_close(opt_close_frame),
                    has_listeners,
                    now,
                ),
            ),
    {
        let ghost frame = crate::router_socket::opt_close(opt_close_frame);
        let (code, reason) = match &opt_close_frame {
            Some(f) => (f.code, f.reason.clone()),
            None => (4000u16, String::new()),
        };
        assert(reason@ =~= (match frame {
            Some((_, reason)) => reason,
            None => Seq::empty(),
        }));
        let mut out: Vec<V1Effect> = Vec::new();
        self.echo_close(opt_close_frame, &mut out);
        let total_err = self.end_all(code, reason.as_str(), has_listeners, now, &mut out);
        let result = match total_err {
            Some(e) => Err(e),
            None => Ok(()),
        };
        V1Outcome { effects: out, result }
    }

    /// The response's way to the client has ended. If the connector had not closed the
    /// connection before, the client has gone, which is reported as an error.
    pub fn on_client_gone(&mut self, has_listeners: bool, now: i64) -> (r: V1Outcome)
        requires
            now >= 0,
            old(self)@.start >= 0,
        ensures
            final(self).info == old(self).info,
            r.is(
                final(self)@,
                if old(self)@.close_received {
                    V1Step { state: old(self)@, effects: Seq::empty(), err: None }
                } else {
                    old(self)@.reported(
                        old(self).info,
                        ExceptionView::of(
                            "connection to client closed unexpectedly"@,
                        ).with_err_kind(CrexKind::BrokenConnection_0011),
                        has_listeners,
                        now,
                    )
                },
            ),
    {
        if self.is_close_msg_received {
            let none: Vec<V1Effect> = Vec::new();
            assert(effects(none@) =~= Seq::empty());
            return V1Outcome { effects: none, result: Ok(()) };
        }
        let crex = CrankerRouterException::new(
            "connection to client closed unexpectedly".to_string(),
        ).with_err_kind(CrexKind::BrokenConnection_0011);
        self.on_error(crex, has_listeners, now)
    }

    /// Begins the client's request.
    pub fn open_request(&mut self, is_removed: bool, now: i64) -> (r: Result<
        (),
        CrankerRouterException,
    >)
        requires
            now >= 0,
        ensures
            final(self).info == old(self).info,
            if is_removed {
                &&& r matches Err(e) && e@ == crate::router_socket::removed_socket_error(
                    old(self).info,
                )
                &&& final(self)@ == old(self)@
            } else {
                &&& r is Ok
                &&& final(self)@ == old(self)@.opened(now)
            },
    {
        if is_removed {
            return Err(
                CrankerRouterException::new(
                    text::concat(
                        "try to handle cli req in a is_removed router socket. router_socket_id=",
                        self.info.router_socket_id.as_str(),
                    ),
                ),
            );
        }
        self.socket_wait_in_millis = self.socket_wait_in_millis.wrapping_add(now);
        self.client_req_start_ts = now;
        self.duration_millis = -now;
        assert(self@ =~= (V1View {
            socket_wait: old(self)@.socket_wait.wrapping_add(now),
            start: now,
            duration: (-now) as i64,
            ..old(self)@
        }));
        Ok(())
    }

    fn send_or_fail(&self, m: WsMessage, failure: &str) -> (r: V1Outcome)
        ensures
            r.is(self@, sent_or_failed(self@, m@, failure@)),
    {
        if !self.is_uplink_open {
            return refuse(failure);
        }
        let mut out: Vec<V1Effect> = Vec::new();
        let ghost view = m@;
        emit(&mut out, V1Effect::Send(m));
        assert(effects(out@) =~= seq![V1EffectView::Send(view)]);
        V1Outcome { effects: out, result: Ok(()) }
    }

    /// Sends the request line and the headers. From now on the target may answer.
    pub fn send_header(&mut self, cranker_req: String) -> (r: V1Outcome)
        ensures
            final(self).info == old(self).info,
            r.is(
                final(self)@,
                sent_or_failed(
                    V1View { can_respond: true, ..old(self)@ },
                    MessageView::Text(cranker_req@),
                    "failed to send cli req hdr to tgt: SendError(..)"@,
                ),
            ),
    {
        self.is_tgt_can_send_res_now_according_to_rfc2616 = true;
        assert(self@ =~= (V1View { can_respond: true, ..old(self)@ }));
        self.send_or_fail(
            WsMessage::Text(cranker_req),
            "failed to send cli req hdr to tgt: SendError(..)",
        )
    }

    /// Sends a piece of the request's body.
    pub fn send_body_chunk(&self, bytes: Bytes) -> (r: V1Outcome)
        ensures
            r.is(
                self@,
                sent_or_failed(
                    self@,
                    MessageView::Binary(octets::octets(bytes)),
                    "error when sending req body to tgt: SendError(..)"@,
                ),
            ),
    {
        self.send_or_fail(
            WsMessage::Binary(bytes),
            "error when sending req body to tgt: SendError(..)",
        )
    }

    /// Sends the marker behind the request's body.
    pub fn send_body_end(&self) -> (r: V1Outcome)
        ensures
            r.is(
                self@,
                sent_or_failed(
                    self@,
                    MessageView::Text(EndMarker::RequestBodyEnded.mark()),
                    "failed to send end of body end marker to tgt: SendError(..)"@,
                ),
            ),
    {
        let end_of_body = CrankerProtocolRequestBuilder::new().with_request_body_ended().build();
        match end_of_body {
            Ok(m) => self.send_or_fail(
                WsMessage::Text(m),
                "failed to send end of body end marker to tgt: SendError(..)",
            ),
            Err(e) => {
                let none: Vec<V1Effect> = Vec::new();
                V1Outcome { effects: none, result: Err(e) }
            },
        }
    }

    /// Sends a message to the connector.
    pub fn send_ws_msg_to_uwss(&self, message: WsMessage) -> (r: V1Outcome)
        ensures
            r.is(
                self@,
                sent_or_failed(
                    self@,
                    message@,
                    "failed to send ws msg to wss_send_task_tx: SendError(..)"@,
                ),
            ),
    {
        self.send_or_fail(message, "failed to send ws msg to wss_send_task_tx: SendError(..)")
    }

    /// Ends the response with an error.
    pub fn terminate_all_conn(&mut self, opt_crex: Option<CrankerRouterException>) -> (r: Vec<
        V1Effect,
    >)
        ensures
            final(self).info == old(self).info,
            final(self)@ == (V1View { hdr_open: false, bdy_open: false, ..old(self)@ }),
            effects(r@) == terminated(
                old(self)@,
                match opt_crex {
                    Some(e) => e@,
                    None => ExceptionView::of("ex occurs and should terminate all conn."@),
                },
            ),
    {
        let crex = match opt_crex {
            Some(e) => e,
            None => CrankerRouterException::new(
                "ex occurs and should terminate all conn.".to_string(),
            ),
        };
        let mut out: Vec<V1Effect> = Vec::new();
        if self.is_tgt_res_hdr_open {
            emit(&mut out, V1Effect::HeaderError(crex.clone()));
        }
        if self.is_tgt_res_bdy_open {
            emit(&mut out, V1Effect::BodyError(crex.clone()));
        }
        emit(&mut out, V1Effect::CloseHeader);
        emit(&mut out, V1Effect::CloseBody);
        self.is_tgt_res_hdr_open = false;
        self.is_tgt_res_bdy_open = false;
        assert(self@ =~= (V1View { hdr_open: false, bdy_open: false, ..old(self)@ }));
        assert(effects(out@) =~= terminated(old(self)@, crex@));
        out
    }

    /// Counts bytes from the client.
    pub fn inc_bytes_received_from_cli(&mut self, byte_count: i32)
        ensures
            final(self).info == old(self).info,
            final(self)@ == (V1View {
                bytes_received: old(self)@.bytes_received.wrapping_add(byte_count as i64),
                ..old(self)@
            }),
    {
        self.bytes_received = self.bytes_received.wrapping_add(byte_count as i64);
        assert(self@ =~= (V1View {
            bytes_received: old(self)@.bytes_received.wrapping_add(byte_count as i64),
            ..old(self)@
        }));
    }

    /// Keeps an error, or forgets the one that was kept.
    pub fn try_provide_general_error(&mut self, opt_crex: Option<CrankerRouterException>)
        ensures
            final(self).info == old(self).info,
            final(self)@ == (V1View { error: opt_exception(opt_crex), ..old(self)@ }),
    {
        self.error = opt_crex;
        assert(self@ =~= (V1View { error: opt_exception(opt_crex), ..old(self)@ }));
    }

    /// No message to the connector is taken any more.
    pub fn close_uplink(&mut self)
        ensures
            final(self).info == old(self).info,
            final(self)@ == (V1View { uplink_open: false, ..old(self)@ }),
    {
        self.is_uplink_open = false;
        assert(self@ =~= (V1View { uplink_open: false, ..old(self)@ }));
    }

    /// No error is taken any more.
    pub fn close_err_chan(&mut self)
        ensures
            final(self).info == old(self).info,
            final(self)@ == (V1View { err_chan_open: false, ..old(self)@ }),
    {
        self.is_err_chan_open = false;
        assert(self@ =~= (V1View { err_chan_open: false, ..old(self)@ }));
    }

    /// Return -1 to avoid Serde
    pub fn inflight_count(&self) -> (r: i32)
        ensures
            r == -1,
    {
        -1
    }
}

/// A message goes to the connector, or cannot where none is taken any more.
pub open spec fn sent_or_failed(s: V1View, m: MessageView, failure: Seq<char>) -> V1Step {
    if s.uplink_open {
        V1Step { state: s, effects: seq![V1EffectView::Send(m)], err: None }
    } else {
        s.refused(failure)
    }
}

/// What has to be done to end the response with an error.
pub open spec fn terminated(s: V1View, e: ExceptionView) -> Seq<V1EffectView> {
    let header = if s.hdr_open {
        seq![V1EffectView::HeaderError(e)]
    } else {
        Seq::empty()
    };
    let body = if s.bdy_open {
        seq![V1EffectView::BodyError(e)]
    } else {
        Seq::empty()
    };
    header + body + seq![V1EffectView::CloseHeader, V1EffectView::CloseBody]
}

/// What comes of the connector's last message, when the listeners have answered that they were
/// told that the request is over.
pub fn close_result(
    result: Result<(), CrankerRouterException>,
    completion: Result<(), CrankerRouterException>,
) -> (r: Result<(), CrankerRouterException>)
    ensures
        match exceptions::compose(
            match result {
                Ok(_) => None,
                Err(e) => Some(e@),
            },
            match completion {
                Ok(_) => None,
                Err(e) => Some(e@),
            },
        ) {
            None => r is Ok,
            Some(ex) => r matches Err(e) && e@ == ex,
        },
{
    let total_err = match result {
        Ok(_) => None,
        Err(e) => Some(e),
    };
    match compose_ex(total_err, completion) {
        Some(e) => Err(e),
        None => Ok(()),
    }
}

/// The message that starts a request: the request line, the headers, and whether a body follows.
pub open spec fn start_message(
    method: Seq<char>,
    path_and_query: Option<Seq<char>>,
    hdr_to_tgt: Seq<crate::headers::Entry>,
    has_body: bool,
) -> Seq<char> {
    crate::router_socket::request_line(method, path_and_query) + "\n"@
        + crate::cranker_protocol_request_builder::header_str(hdr_to_tgt) + "\n"@ + (if has_body {
        EndMarker::RequestBodyPending
    } else {
        EndMarker::RequestHasNoBody
    }).mark()
}

/// The message that starts a request.
pub fn build_start_message(
    method: &str,
    orig_uri: &crate::net::RequestUri,
    hdr_to_tgt: &axum::http::HeaderMap,
    has_body: bool,
) -> (r: Result<String, CrankerRouterException>)
    ensures
        r matches Ok(m) && m@ == start_message(
            method@,
            crate::forwarded::opt_text(orig_uri.path_and_query),
            crate::headers::entries(*hdr_to_tgt),
            has_body,
        ),
{
    let request_line = crate::router_socket::create_request_line(method, orig_uri);
    let builder = CrankerProtocolRequestBuilder::new().with_request_line(
        request_line,
    ).with_request_headers(hdr_to_tgt);
    if has_body {
        builder.with_request_body_pending().build()
    } else {
        builder.with_request_has_no_body().build()
    }
}

/// The header text of the response is taken once: after one was taken, whatever it was, no
/// other is.
pub proof fn law_header_is_taken_once(s: V1View, first: Seq<char>, second: Seq<char>)
    requires
        s.can_respond,
    ensures
        s.text_came(first).state.text_came(second).effects.len() == 0,
        s.text_came(first).state.text_came(second).err == Some(
            ExceptionView::of("res header already handled!"@),
        ),
{
}

/// Nothing of a response is handed over before the request's headers are on their way, and no
/// body before the header text.
pub proof fn law_response_comes_in_order(s: V1View, txt: Seq<char>, bin: Seq<u8>)
    ensures
        !s.can_respond ==> s.text_came(txt).effects.len() == 0 && s.binary_came(bin).effects.len()
            == 0,
        !s.hdr_sent ==> s.binary_came(bin).effects.len() == 0,
{
}

/// After the connector's last message the response takes nothing more, and the socket leaves the
/// farm.
pub proof fn law_close_ends_response(
    s: V1View,
    socket: RouterSocketInfo,
    frame: Option<(u16, Seq<char>)>,
    has_listeners: bool,
    now: i64,
)
    ensures
        ({
            let step = s.close_came(socket, frame, has_listeners, now);
            &&& !step.state.hdr_open
            &&& !step.state.bdy_open
            &&& step.effects.contains(V1EffectView::RemoveFromFarm)
        }),
{
    reveal(V1Step::and_report);
    reveal(V1Step::and_tell_refusal);
    reveal(V1Step::and_close_response);
    let step = s.close_came(socket, frame, has_listeners, now);
    let n = step.effects.len() as int;
    let t = step.state;
    assert(step.effects[n - 1] == V1EffectView::RemoveFromFarm || step.effects[n - 2]
        == V1EffectView::RemoveFromFarm);
}

/// A request that an error ended is over with an error for the listeners to see.
pub proof fn law_failure_is_seen(
    s: V1View,
    socket: RouterSocketInfo,
    e: ExceptionView,
    has_listeners: bool,
    now: i64,
    i: int,
)
    requires
        0 <= i < s.reported(socket, e, has_listeners, now).effects.len(),
    ensures
        s.reported(socket, e, has_listeners, now).effects[i] matches V1EffectView::Completed(info)
            ==> info.error == Some(e),
{
}

/// The message that starts a request ends with the marker that tells whether a body follows, and
/// starts with the request line.
pub proof fn law_start_message(
    method: Seq<char>,
    path_and_query: Option<Seq<char>>,
    hdr_to_tgt: Seq<crate::headers::Entry>,
    has_body: bool,
)
    ensures
        ({
            let m = start_message(method, path_and_query, hdr_to_tgt, has_body);
            let line = crate::router_socket::request_line(method, path_and_query);
            &&& m.take(line.len() as int) == line
            &&& m.skip(m.len() - 2) == (if has_body {
                "_1"@
            } else {
                "_2"@
            })
        }),
{
    reveal_strlit("_1");
    reveal_strlit("_2");
    let m = start_message(method, path_and_query, hdr_to_tgt, has_body);
    let line = crate::router_socket::request_line(method, path_and_query);
    assert(m.take(line.len() as int) =~= line);
    assert(m.skip(m.len() - 2) =~= (if has_body {
        "_1"@
    } else {
        "_2"@
    }));
}

} // verus!
