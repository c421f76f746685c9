//! The exchange of a request and its response over a connection, from the point where the
//! request's headers are on their way to the point where the client is answered. Reading the
//! request's body and waiting are left to the caller, who comes back with what happened.

use crate::client_request::{ClientRequest, V1Start};
use crate::config::CrankerRouterConfig;
use crate::cranker_protocol_request_builder::EndMarker;
use crate::cranker_protocol_response::{begin_response, begins};
use crate::exceptions::{CrankerRouterException, ExceptionView};
use crate::frames::MESSAGE_TYPE_DATA;
use crate::listeners::{
    bodiless_sent_to_target, headers_sent_to_target, request_body_chunk_asked_for,
    request_body_chunk_sent, request_body_chunk_to_be_sent, request_body_sent,
    response_body_chunk_asked_for, told_bodiless_sent, told_body_sent, told_chunk_sent,
    told_chunk_to_be_sent, told_headers_sent, told_request_chunk, told_response_chunk, Listeners,
};
use crate::octets::octets_clone;
use crate::proxy_info::{ProxyInfoData, ProxyInfoView};
use crate::proxy_listener::ProxyListener;
use crate::request_context::ContextView;
use crate::router_socket::{header_missing, missing_header, MessageView, RouterSocketInfo};
use crate::router_socket_v1::{
    RouterSocketV1, V1Effect, V1EffectView, V1Outcome, V1View,
};
use crate::router_socket_v3::{
    chunk_sent, request_failed, send_data_error, EffectView, RouterSocketV3, V3Effect, V3View,
};
use crate::{frames, octets, router_socket_v1, router_socket_v3};
use axum::http::response::Builder;
use axum::http::HeaderMap;
use bytes::Bytes;
use std::sync::Arc;
use vstd::prelude::*;

verus! {

/// Something that happens in an exchange.
#[derive(Debug)]
pub enum ExchangeEvent {
    /// The request's headers, these, are on their way.
    HeadersSent(HeaderMap),
    /// A piece of the request's body was read.
    Chunk(Bytes),
    /// The request's body could not be read; the text shows why.
    BodyFailed(String),
    /// The request's body has ended.
    BodyEnded,
    /// More of the request's body may be read.
    ReadOn,
    /// The header text of the response came.
    Header(String),
    /// An error came in place of the header text.
    HeaderError(CrankerRouterException),
    /// The response ended before its header text.
    HeaderMissing,
}

/// What is to be done next in an exchange.
#[derive(Debug)]
pub enum ExchangeAction {
    /// Read the next piece of the request's body.
    ReadBody,
    /// Wait until the ticket is let go.
    Wait(u64),
    /// Wait for the header text of the response.
    AwaitHeader,
    /// Answer the client.
    Respond(Builder),
    /// Answer the client with an error.
    Fail(CrankerRouterException),
}

/// What comes of an event in an exchange over a connection of several requests.
pub struct V3Exchanged {
    pub effects: Vec<V3Effect>,
    pub action: ExchangeAction,
}

/// Whether a request has failed with an error: after the effects `first` the client is told.
pub open spec fn has_failed(
    socket: RouterSocketInfo,
    s: V3View,
    first: Seq<EffectView>,
    id: i32,
    now: i64,
    out: V3Exchanged,
    after: V3View,
) -> bool {
    out.action matches ExchangeAction::Fail(e) && {
        let step = request_failed(socket, s, id, e@, now);
        &&& after == step.state
        &&& router_socket_v3::effects(out.effects@) == first + step.effects
    }
}

/// Whether a request has failed with the given error.
pub open spec fn has_failed_with(
    socket: RouterSocketInfo,
    s: V3View,
    id: i32,
    ex: ExceptionView,
    now: i64,
    out: V3Exchanged,
    after: V3View,
) -> bool {
    &&& has_failed(socket, s, Seq::empty(), id, now, out, after)
    &&& out.action->Fail_0@ == ex
}

/// Whether nothing has to be done but the action.
pub open spec fn nothing_but(s: V3View, out: V3Exchanged, after: V3View) -> bool {
    after == s && router_socket_v3::effects(out.effects@) == Seq::<EffectView>::empty()
}

/// Whether `out` is what comes of a piece of the request's body. While too much is on its way to
/// the connector no more is read. The listeners are told before the piece is sent and, if they ask
/// for it, after that.
pub open spec fn chunk_goes(
    socket: RouterSocketInfo,
    s: V3View,
    all: Seq<Arc<dyn ProxyListener>>,
    id: i32,
    chunk: Bytes,
    ticket: u64,
    now: i64,
    out: V3Exchanged,
    after: V3View,
) -> bool {
    let bytes = octets::octets(chunk);
    let c = s.context(id);
    let sent = seq![EffectView::Send(frames::frame(MESSAGE_TYPE_DATA, 0, id, bytes))];
    let c1 = chunk_sent(c, bytes.len());
    let s1 = s.update(c1);
    ||| {
        &&& out.action matches ExchangeAction::Fail(e) && told_chunk_to_be_sent(
            all,
            c.info(socket),
            &chunk,
            Err(e),
        )
        &&& has_failed(socket, s, Seq::empty(), id, now, out, after)
    }
    ||| {
        &&& told_chunk_to_be_sent(all, c.info(socket), &chunk, Ok(()))
        &&& !s.uplink_open
        &&& has_failed_with(
            socket,
            s.update(c.sending(bytes.len() as i32)),
            id,
            send_data_error(socket),
            now,
            out,
            after,
        )
    }
    ||| {
        &&& told_chunk_to_be_sent(all, c.info(socket), &chunk, Ok(()))
        &&& s.uplink_open
        &&& out.action matches ExchangeAction::Fail(e) && told_request_chunk(
            all,
            c1.info(socket),
            &chunk,
            Err(e),
        )
        &&& has_failed(socket, s1, sent, id, now, out, after)
    }
    ||| {
        &&& told_chunk_to_be_sent(all, c.info(socket), &chunk, Ok(()))
        &&& s.uplink_open
        &&& told_request_chunk(all, c1.info(socket), &chunk, Ok(()))
        &&& router_socket_v3::effects(out.effects@) == sent
        &&& if c1.writable {
            out.action is ReadBody && after == s1
        } else {
            &&& out.action == ExchangeAction::Wait(ticket)
            &&& after == s1.update(ContextView { readers: c1.readers.push(ticket), ..c1 })
        }
    }
}

/// Whether `out` is what comes of the end of the request's body, of which the listeners are told.
pub open spec fn body_ends(
    socket: RouterSocketInfo,
    s: V3View,
    all: Seq<Arc<dyn ProxyListener>>,
    id: i32,
    now: i64,
    out: V3Exchanged,
    after: V3View,
) -> bool {
    ||| {
        &&& told_body_sent(all, s.context(id).info(socket), Ok(()))
        &&& nothing_but(s, out, after)
        &&& out.action is AwaitHeader
    }
    ||| {
        &&& out.action matches ExchangeAction::Fail(e) && told_body_sent(
            all,
            s.context(id).info(socket),
            Err(e),
        )
        &&& has_failed(socket, s, Seq::empty(), id, now, out, after)
    }
}

/// Whether `out` is what comes of the headers that were sent, of which the listeners are told. If
/// the request has no body, each of them is told with the headers that its body was sent.
pub open spec fn headers_go(
    socket: RouterSocketInfo,
    s: V3View,
    all: Seq<Arc<dyn ProxyListener>>,
    has_body: bool,
    id: i32,
    hdr: HeaderMap,
    now: i64,
    out: V3Exchanged,
    after: V3View,
) -> bool {
    let v = s.context(id).info(socket);
    if has_body {
        ||| {
            &&& told_headers_sent(all, v, Some(&hdr), Ok(()))
            &&& nothing_but(s, out, after)
            &&& out.action is ReadBody
        }
        ||| {
            &&& out.action matches ExchangeAction::Fail(e) && told_headers_sent(
                all,
                v,
                Some(&hdr),
                Err(e),
            )
            &&& has_failed(socket, s, Seq::empty(), id, now, out, after)
        }
    } else {
        ||| {
            &&& told_bodiless_sent(all, v, Some(&hdr), Ok(()))
            &&& nothing_but(s, out, after)
            &&& out.action is AwaitHeader
        }
        ||| {
            &&& out.action matches ExchangeAction::Fail(e) && told_bodiless_sent(
                all,
                v,
                Some(&hdr),
                Err(e),
            )
            &&& has_failed(socket, s, Seq::empty(), id, now, out, after)
        }
    }
}

/// Whether a request has gone on, or has failed with an error, after the listeners were told of a
/// piece of its response's body: it fails if one of them does.
pub open spec fn response_chunk_goes(
    socket: RouterSocketInfo,
    s: V3View,
    all: Seq<Arc<dyn ProxyListener>>,
    id: i32,
    v: ProxyInfoView,
    chunk: &Bytes,
    now: i64,
    effects: Seq<EffectView>,
    after: V3View,
) -> bool {
    ||| {
        &&& told_response_chunk(all, v, chunk, Ok(()))
        &&& effects == Seq::<EffectView>::empty()
        &&& after == s
    }
    ||| exists|e: CrankerRouterException|
        {
            let step = request_failed(socket, s, id, e@, now);
            &&& #[trigger] told_response_chunk(all, v, chunk, Err(e))
            &&& effects == step.effects
            &&& after == step.state
        }
}

/// Whether `out` is what comes of an event in an exchange over a connection of several requests.
/// The first listener that fails stops the request with its error; if none does, only what the
/// event itself brings can stop it.
pub open spec fn exchanged_v3(
    socket: RouterSocketInfo,
    s: V3View,
    all: Seq<Arc<dyn ProxyListener>>,
    has_body: bool,
    id: i32,
    ev: ExchangeEvent,
    ticket: u64,
    now: i64,
    out: V3Exchanged,
    after: V3View,
) -> bool {
    let v = s.context(id).info(socket);
    match ev {
        ExchangeEvent::HeadersSent(hdr) => headers_go(
            socket,
            s,
            all,
            has_body,
            id,
            hdr,
            now,
            out,
            after,
        ),
        ExchangeEvent::Chunk(chunk) => chunk_goes(
            socket,
            s,
            all,
            id,
            chunk,
            ticket,
            now,
            out,
            after,
        ),
        ExchangeEvent::BodyFailed(shown) => has_failed_with(
            socket,
            s,
            id,
            ExceptionView::of(shown@),
            now,
            out,
            after,
        ),
        ExchangeEvent::BodyEnded => body_ends(socket, s, all, id, now, out, after),
        ExchangeEvent::ReadOn => nothing_but(s, out, after) && out.action is ReadBody,
        ExchangeEvent::Header(text) => {
            ||| {
                &&& out.action matches ExchangeAction::Respond(b) && begins(all, v, text@, Ok(b))
                &&& nothing_but(s, out, after)
            }
            ||| {
                &&& out.action matches ExchangeAction::Fail(e) && begins(all, v, text@, Err(e))
                &&& has_failed(socket, s, Seq::empty(), id, now, out, after)
            }
        },
        ExchangeEvent::HeaderError(e) => has_failed_with(socket, s, id, e@, now, out, after),
        ExchangeEvent::HeaderMissing => has_failed_with(
            socket,
            s,
            id,
            missing_header(socket),
            now,
            out,
            after,
        ),
    }
}

impl RouterSocketV3 {
    fn stop(&mut self, req_id: i32, e: CrankerRouterException, now: i64) -> (r: V3Exchanged)
        requires
            old(self).state().wf(),
            now >= 0,
        ensures
            final(self).socket() == old(self).socket(),
            final(self).state().wf(),
            has_failed_with(
                old(self).socket(),
                old(self).state(),
                req_id,
                e@,
                now,
                r,
                final(self).state(),
            ),
            r.action == ExchangeAction::Fail(e),
    {
        let effects = self.notify_client_request_error(req_id, e.clone(), now);
        let r = V3Exchanged { effects, action: ExchangeAction::Fail(e) };
        assert(router_socket_v3::effects(r.effects@) =~= Seq::empty()
            + router_socket_v3::effects(r.effects@));
        r
    }

    fn take_chunk(
        &mut self,
        listeners: &Listeners,
        req_id: i32,
        bytes: Bytes,
        ticket: u64,
        now: i64,
    ) -> (r: V3Exchanged)
        requires
            old(self).state().wf(),
            old(self).state().known(req_id),
            now >= 0,
        ensures
            final(self).socket() == old(self).socket(),
            final(self).state().wf(),
            chunk_goes(
                old(self).socket(),
                old(self).state(),
                listeners@,
                req_id,
                bytes,
                ticket,
                now,
                r,
                final(self).state(),
            ),
    {
        let ghost c = self.state().context(req_id);
        let told = match self.request_info(req_id) {
            Some(info) => request_body_chunk_to_be_sent(listeners, &info, &bytes),
            None => Ok(()),
        };
        assert(told is Ok ==> told->Ok_0 == ());
        assert(told_chunk_to_be_sent(listeners@, c.info(self.socket()), &bytes, told));
        if let Err(e) = told {
            return self.stop(req_id, e, now);
        }
        let copy = octets_clone(&bytes);
        let (sent, result) = self.send_body_chunk(req_id, copy);
        match result {
            Ok(_) => {},
            Err(e) => {
                return self.stop(req_id, e, now);
            },
        }
        let ghost c1 = chunk_sent(c, octets::octets(bytes).len());
        let told = match self.request_info(req_id) {
            Some(info) => request_body_chunk_asked_for(listeners, &info, &bytes),
            None => Ok(()),
        };
        assert(told is Ok ==> told->Ok_0 == ());
        assert(told_request_chunk(listeners@, c1.info(self.socket()), &bytes, told));
        if let Err(e) = told {
            let more = self.stop(req_id, e, now);
            let mut effects = sent;
            let ghost first = router_socket_v3::effects(effects@);
            let ghost behind = router_socket_v3::effects(more.effects@);
            let mut rest = more.effects;
            effects.append(&mut rest);
            assert(router_socket_v3::effects(effects@) =~= first + behind);
            return V3Exchanged { effects, action: more.action };
        }
        let action = if self.keep_reading(req_id, ticket) {
            ExchangeAction::ReadBody
        } else {
            ExchangeAction::Wait(ticket)
        };
        V3Exchanged { effects: sent, action }
    }

    fn body_is_sent(&mut self, listeners: &Listeners, req_id: i32, now: i64) -> (r: V3Exchanged)
        requires
            old(self).state().wf(),
            old(self).state().known(req_id),
            now >= 0,
        ensures
            final(self).socket() == old(self).socket(),
            final(self).state().wf(),
            body_ends(
                old(self).socket(),
                old(self).state(),
                listeners@,
                req_id,
                now,
                r,
                final(self).state(),
            ),
    {
        let told = match self.request_info(req_id) {
            Some(info) => request_body_sent(listeners, &info),
            None => Ok(()),
        };
        assert(told is Ok ==> told->Ok_0 == ());
        match told {
            Ok(_) => {
                let none: Vec<V3Effect> = Vec::new();
                assert(router_socket_v3::effects(none@) =~= Seq::empty());
                V3Exchanged { effects: none, action: ExchangeAction::AwaitHeader }
            },
            Err(e) => self.stop(req_id, e, now),
        }
    }

    /// Tells the listeners that ask for it of a piece of a response's body, as
    /// [`RouterSocketV3::on_binary`] gives it. If one of them fails, the request has failed with
    /// its error.
    pub fn response_chunk_came(
        &mut self,
        config: &CrankerRouterConfig,
        req_id: i32,
        info: &ProxyInfoData,
        chunk: &Bytes,
        now: i64,
    ) -> (r: Vec<V3Effect>)
        requires
            old(self).state().wf(),
            now >= 0,
        ensures
            final(self).socket() == old(self).socket(),
            final(self).state().wf(),
            response_chunk_goes(
                old(self).socket(),
                old(self).state(),
                config.proxy_listeners@,
                req_id,
                info@,
                chunk,
                now,
                router_socket_v3::effects(r@),
                final(self).state(),
            ),
    {
        let told = response_body_chunk_asked_for(&config.proxy_listeners, info, chunk);
        assert(told is Ok ==> told->Ok_0 == ());
        match told {
            Ok(_) => {
                let none: Vec<V3Effect> = Vec::new();
                assert(router_socket_v3::effects(none@) =~= Seq::empty());
                none
            },
            Err(e) => self.notify_client_request_error(req_id, e, now),
        }
    }

    /// Takes an event of the exchange that a request is in.
    pub fn send_request_over_websocket_v3(
        &mut self,
        config: &CrankerRouterConfig,
        req: &ClientRequest,
        req_id: i32,
        ev: ExchangeEvent,
        ticket: u64,
        now: i64,
    ) -> (r: V3Exchanged)
        requires
            old(self).state().wf(),
            old(self).state().known(req_id),
            now >= 0,
        ensures
            final(self).socket() == old(self).socket(),
            final(self).state().wf(),
            exchanged_v3(
                old(self).socket(),
                old(self).state(),
                config.proxy_listeners@,
                req.has_body,
                req_id,
                ev,
                ticket,
                now,
                r,
                final(self).state(),
            ),
    {
        let listeners = &config.proxy_listeners;
        let none: Vec<V3Effect> = Vec::new();
        assert(router_socket_v3::effects(none@) =~= Seq::empty());
        match ev {
            ExchangeEvent::HeadersSent(hdr_to_tgt) => {
                let told = match self.request_info(req_id) {
                    Some(info) => if req.has_body {
                        headers_sent_to_target(listeners, &info, &hdr_to_tgt)
                    } else {
                        bodiless_sent_to_target(listeners, &info, &hdr_to_tgt)
                    },
                    None => Ok(()),
                };
                assert(told is Ok ==> told->Ok_0 == ());
                if let Err(e) = told {
                    return self.stop(req_id, e, now);
                }
                let action = if req.has_body {
                    ExchangeAction::ReadBody
                } else {
                    ExchangeAction::AwaitHeader
                };
                V3Exchanged { effects: none, action }
            },
            ExchangeEvent::Chunk(bytes) => self.take_chunk(listeners, req_id, bytes, ticket, now),
            ExchangeEvent::BodyFailed(shown) => self.stop(
                req_id,
                CrankerRouterException::new(shown),
                now,
            ),
            ExchangeEvent::BodyEnded => self.body_is_sent(listeners, req_id, now),
            ExchangeEvent::ReadOn => V3Exchanged { effects: none, action: ExchangeAction::ReadBody },
            ExchangeEvent::Header(text) => {
                let begun = match self.request_info(req_id) {
                    Some(info) => begin_response(listeners, &info, text),
                    None => Err(header_missing(self.info())),
                };
                match begun {
                    Ok(b) => V3Exchanged { effects: none, action: ExchangeAction::Respond(b) },
                    Err(e) => self.stop(req_id, e, now),
                }
            },
            ExchangeEvent::HeaderError(e) => self.stop(req_id, e, now),
            ExchangeEvent::HeaderMissing => {
                let e = header_missing(self.info());
                self.stop(req_id, e, now)
            },
        }
    }
}

/// Something that happens while a request is sent over a connection of one request.
#[derive(Debug)]
pub enum SendingEvent {
    /// The message that starts the request is ready, and the headers that it holds.
    Start(V1Start),
    /// A piece of the request's body was read.
    Chunk(Bytes),
    /// The request's body could not be read; the text shows why.
    BodyFailed(String),
    /// The request's body has ended.
    BodyEnded,
}

/// What comes of an event while a request is sent over a connection of one request.
pub struct V1Exchanged {
    pub effects: Vec<V1Effect>,
    pub action: ExchangeAction,
}

impl V1Exchanged {
    /// Whether nothing was sent, and the exchange fails with the given error.
    pub open spec fn fails_with(self, reason: Seq<char>) -> bool {
        &&& self.sends_nothing()
        &&& self.action matches ExchangeAction::Fail(e) && e@ == ExceptionView::of(reason)
    }

    /// Whether nothing was sent.
    pub open spec fn sends_nothing(self) -> bool {
        router_socket_v1::effects(self.effects@) == Seq::<V1EffectView>::empty()
    }

    /// Whether one message was sent and nothing else.
    pub open spec fn sends(self, m: MessageView) -> bool {
        router_socket_v1::effects(self.effects@) == seq![V1EffectView::Send(m)]
    }
}

/// Whether `action` is what follows when the listeners are told that the request's body was sent.
pub open spec fn after_body(
    all: Seq<Arc<dyn ProxyListener>>,
    v: ProxyInfoView,
    action: ExchangeAction,
) -> bool {
    ||| action is AwaitHeader && told_body_sent(all, v, Ok(()))
    ||| action matches ExchangeAction::Fail(e) && told_body_sent(all, v, Err(e))
}

/// Whether `out` is what comes of an event while a request is sent over a connection of one
/// request. The first listener that fails stops the request with its error; if none does, only
/// what the event itself brings, or a connection that takes no more, can stop it. Once a piece of
/// the body was sent all listeners are told, if one of them has asked for the pieces.
pub open spec fn exchanged_v1(
    v: ProxyInfoView,
    uplink_open: bool,
    needs_chunks: bool,
    all: Seq<Arc<dyn ProxyListener>>,
    has_body: bool,
    ev: SendingEvent,
    out: V1Exchanged,
) -> bool {
    match ev {
        SendingEvent::Start(m) => if !uplink_open {
            out.fails_with("failed to send cli req hdr to tgt: SendError(..)"@)
        } else {
            &&& out.sends(MessageView::Text(m.message@))
            &&& {
                ||| {
                    &&& told_headers_sent(all, v, Some(&m.hdr_to_tgt), Ok(()))
                    &&& if has_body {
                        out.action is ReadBody
                    } else {
                        after_body(all, v, out.action)
                    }
                }
                ||| out.action matches ExchangeAction::Fail(e) && told_headers_sent(
                    all,
                    v,
                    Some(&m.hdr_to_tgt),
                    Err(e),
                )
            }
        },
        SendingEvent::Chunk(b) => {
            ||| {
                &&& out.sends_nothing()
                &&& out.action matches ExchangeAction::Fail(e) && told_chunk_to_be_sent(
                    all,
                    v,
                    &b,
                    Err(e),
                )
            }
            ||| {
                &&& told_chunk_to_be_sent(all, v, &b, Ok(()))
                &&& if !uplink_open {
                    out.fails_with("error when sending req body to tgt: SendError(..)"@)
                } else {
                    &&& out.sends(MessageView::Binary(octets::octets(b)))
                    &&& {
                        ||| !needs_chunks && out.action is ReadBody
                        ||| {
                            &&& needs_chunks
                            &&& told_chunk_sent(all, v, &b, Ok(()))
                            &&& out.action is ReadBody
                        }
                        ||| {
                            &&& needs_chunks
                            &&& out.action matches ExchangeAction::Fail(e) && told_chunk_sent(
                                all,
                                v,
                                &b,
                                Err(e),
                            )
                        }
                    }
                }
            }
        },
        SendingEvent::BodyFailed(shown) => out.fails_with(shown@),
        SendingEvent::BodyEnded => if !uplink_open {
            out.fails_with("failed to send end of body end marker to tgt: SendError(..)"@)
        } else {
            &&& out.sends(MessageView::Text(EndMarker::RequestBodyEnded.mark()))
            &&& after_body(all, v, out.action)
        },
    }
}

impl RouterSocketV1 {
    /// A message was sent, if it could be, and if so the listeners have answered.
    fn next_or_fail(
        outcome: V1Outcome,
        told: Result<(), CrankerRouterException>,
        action: ExchangeAction,
    ) -> (r: V1Exchanged)
        ensures
            r.effects == outcome.effects,
            match (outcome.result, told) {
                (Err(e), _) => r.action == ExchangeAction::Fail(e),
                (Ok(_), Err(e)) => r.action == ExchangeAction::Fail(e),
                (Ok(_), Ok(_)) => r.action == action,
            },
    {
        let action = match outcome.result {
            Ok(_) => match told {
                Ok(_) => action,
                Err(e) => ExchangeAction::Fail(e),
            },
            Err(e) => ExchangeAction::Fail(e),
        };
        V1Exchanged { effects: outcome.effects, action }
    }

    fn body_sent(&self, listeners: &Listeners, outcome: V1Outcome) -> (r: V1Exchanged)
        ensures
            r.effects == outcome.effects,
            match outcome.result {
                Ok(_) => after_body(listeners@, self@.info(self.info), r.action),
                Err(e) => r.action == ExchangeAction::Fail(e),
            },
    {
        let action = match outcome.result {
            Ok(_) => {
                let info = self.proxy_info();
                let told = request_body_sent(listeners, &info);
                assert(told is Ok ==> told->Ok_0 == ());
                match told {
                    Ok(_) => ExchangeAction::AwaitHeader,
                    Err(e) => ExchangeAction::Fail(e),
                }
            },
            Err(e) => ExchangeAction::Fail(e),
        };
        V1Exchanged { effects: outcome.effects, action }
    }

    /// Takes an event while the request is sent.
    pub fn split_part_one_send_or_err(
        &mut self,
        config: &CrankerRouterConfig,
        has_body: bool,
        ev: SendingEvent,
    ) -> (r: V1Exchanged)
        ensures
            final(self).info == old(self).info,
            final(self)@ == (V1View {
                can_respond: old(self)@.can_respond || ev is Start,
                ..old(self)@
            }),
            exchanged_v1(
                old(self)@.info(old(self).info),
                old(self)@.uplink_open,
                old(self)@.needs_request_chunks,
                config.proxy_listeners@,
                has_body,
                ev,
                r,
            ),
    {
        let listeners = &config.proxy_listeners;
        let none: Vec<V1Effect> = Vec::new();
        assert(router_socket_v1::effects(none@) =~= Seq::empty());
        match ev {
            SendingEvent::Start(start) => {
                let outcome = self.send_header(start.message);
                let info = self.proxy_info();
                let told = if outcome.result.is_ok() {
                    headers_sent_to_target(listeners, &info, &start.hdr_to_tgt)
                } else {
                    Ok(())
                };
                assert(told is Ok ==> told->Ok_0 == ());
                if has_body || told.is_err() {
                    Self::next_or_fail(outcome, told, ExchangeAction::ReadBody)
                } else {
                    self.body_sent(listeners, outcome)
                }
            },
            SendingEvent::Chunk(bytes) => {
                let info = self.proxy_info();
                let told = request_body_chunk_to_be_sent(listeners, &info, &bytes);
                assert(told is Ok ==> told->Ok_0 == ());
                if let Err(e) = told {
                    return V1Exchanged { effects: none, action: ExchangeAction::Fail(e) };
                }
                let copy = octets_clone(&bytes);
                let outcome = self.send_body_chunk(copy);
                let needs_chunks = self.really_need_on_request_body_chunk_sent_to_target;
                let told = if outcome.result.is_ok() && needs_chunks {
                    request_body_chunk_sent(listeners, &info, &bytes)
                } else {
                    Ok(())
                };
                assert(told is Ok ==> told->Ok_0 == ());
                Self::next_or_fail(outcome, told, ExchangeAction::ReadBody)
            },
            SendingEvent::BodyFailed(shown) => V1Exchanged {
                effects: none,
                action: ExchangeAction::Fail(CrankerRouterException::new(shown)),
            },
            SendingEvent::BodyEnded => {
                let outcome = self.send_body_end();
                self.body_sent(listeners, outcome)
            },
        }
    }

    /// Tells the listeners of a piece of the response's body, if one of them has asked for the
    /// pieces.
    pub fn response_chunk_came(&self, config: &CrankerRouterConfig, chunk: &Bytes) -> (r: Result<
        (),
        CrankerRouterException,
    >)
        ensures
            if self@.needs_response_chunks {
                told_response_chunk(config.proxy_listeners@, self@.info(self.info), chunk, r)
            } else {
                r is Ok
            },
    {
        if self.really_need_on_response_body_chunk_received_from_target {
            let info = self.proxy_info();
            response_body_chunk_asked_for(&config.proxy_listeners, &info, chunk)
        } else {
            Ok(())
        }
    }

    /// Takes the header text of the response, or what came in its place: an error, or the end.
    pub fn split_part_two_recv_and_res(
        &self,
        config: &CrankerRouterConfig,
        received: Option<Result<String, CrankerRouterException>>,
    ) -> (r: Result<Builder, CrankerRouterException>)
        ensures
            match received {
                None => r matches Err(e) && e@ == missing_header(self.info),
                Some(Err(ex)) => r matches Err(e) && e@ == ex@,
                Some(Ok(text)) => begins(
                    config.proxy_listeners@,
                    self@.info(self.info),
                    text@,
                    r,
                ),
            },
    {
        match received {
            None => Err(header_missing(&self.info)),
            Some(Err(e)) => Err(e),
            Some(Ok(text)) => {
                let info = self.proxy_info();
                begin_response(&config.proxy_listeners, &info, text)
            },
        }
    }
}

} // verus!
