//! A client's request, up to the point where it goes to a connector.

use crate::config::{CrankerRouterConfig, RouterSettings};
use crate::cranker_protocol_request_builder::{header_str, CrankerProtocolRequestBuilder};
use crate::exceptions::CrankerRouterException;
use crate::headers::{headers_new, Entry};
use crate::http_utils::{
    forwarded_readable, forwarded_to_target, has_room_for_target_headers, is_forwarded_readable,
    set_target_request_headers, target_headers,
};
use crate::listeners::{
    before_proxy_to_target, come_to, lead_to, leave, may_prepare, outcome, says, step_is,
};
use crate::net::{HttpVersion, RequestUri};
use crate::proxy_info::ProxyInfoData;
use crate::request_context::{ContextView, RequestContext};
use crate::router_socket::{
    create_request_line, removed_socket_error, request_line, RouterSocketInfo,
};
use crate::router_socket_v1::{build_start_message, start_message, RouterSocketV1};
use crate::router_socket_v3::{
    effects, header_not_sent, header_sent, opened, request_failed, send_data_error, sends,
    RouterSocketV3, V3Effect, V3View,
};
use crate::{forwarded, frames, headers};
use axum::http::HeaderMap;
use vstd::prelude::*;
use vstd::utf8::encode_utf8;

verus! {

/// A client's request without its body.
pub struct ClientRequest<'a> {
    pub method: &'a str,
    pub http_version: HttpVersion,
    pub orig_uri: &'a RequestUri,
    pub headers: &'a HeaderMap,
    /// The addresses of this server and of the client.
    pub server_ip: &'a str,
    pub remote_ip: &'a str,
    pub has_body: bool,
}

impl<'a> ClientRequest<'a> {
    /// Whether the headers for the target can be made from those of the client.
    pub open spec fn is_readable(self, settings: RouterSettings) -> bool {
        &&& !settings.discard_client_forwarded_headers ==> forwarded_readable(
            headers::entries(*self.headers),
        )
        &&& headers::has_room(Seq::empty(), headers::entries(*self.headers).len() + 5)
    }

    /// The headers for the target.
    pub open spec fn target_entries(self, settings: RouterSettings) -> Seq<Entry> {
        target_headers(
            headers::entries(*self.headers),
            Seq::empty(),
            settings,
            self.http_version,
            forwarded_to_target(
                headers::entries(*self.headers),
                self.server_ip@,
                self.remote_ip@,
                forwarded::opt_text(self.orig_uri.scheme),
            ),
        )
    }

    /// Whether the headers for the target can be made from those of the client.
    pub fn can_be_read(&self, settings: &RouterSettings) -> (r: bool)
        ensures
            r == self.is_readable(*settings),
    {
        let none = headers_new();
        (settings.discard_client_forwarded_headers || is_forwarded_readable(self.headers))
            && has_room_for_target_headers(self.headers, &none)
    }

    /// Makes the headers for the target. The listeners may change them or stop the request: each is
    /// handed what the one before it has left, and what the last has left is returned.
    pub fn headers_to_target(
        &self,
        config: &CrankerRouterConfig,
        info: &ProxyInfoData,
    ) -> (r: Result<HeaderMap, CrankerRouterException>)
        requires
            self.is_readable(config.settings),
        ensures
            config.proxy_listeners@.len() == 0 ==> (r matches Ok(h) && headers::entries(h)
                == self.target_entries(config.settings)),
            exists|answers: Seq<Result<(), CrankerRouterException>>, maps: Seq<HeaderMap>|
                #[trigger] come_to(answers, config.proxy_listeners@.len(), outcome(r))
                    && #[trigger] leave(
                    maps,
                    answers.len(),
                    self.target_entries(config.settings),
                    r,
                ) && forall|i: int, from: HeaderMap, to: HeaderMap|
                    0 <= i < answers.len() && #[trigger] step_is(maps, i, from, to)
                        ==> exists|m: &mut HeaderMap|
                        *m == from && *final(m) == to && #[trigger] may_prepare(
                            (&*config.proxy_listeners@[i], info, m),
                            answers[i],
                        ),
    {
        let mut hdr_to_tgt = headers_new();
        let _ = set_target_request_headers(
            self.headers,
            &mut hdr_to_tgt,
            &config.settings,
            self.http_version,
            self.server_ip,
            self.remote_ip,
            self.orig_uri,
        );
        let ghost first = hdr_to_tgt;
        let told = before_proxy_to_target(&config.proxy_listeners, info, &mut hdr_to_tgt);
        let r = match told {
            Ok(_) => Ok(hdr_to_tgt),
            Err(e) => Err(e),
        };
        proof {
            assert(told is Ok ==> told->Ok_0 == ());
            assert(outcome(r) == told);
            assert forall|maps: Seq<HeaderMap>, n: nat| #[trigger]
                lead_to(maps, n, first, hdr_to_tgt) implies leave(
                maps,
                n,
                self.target_entries(config.settings),
                r,
            ) by {}
        }
        r
    }
}

/// How a request starts on a socket that serves one.
#[derive(Debug)]
pub struct V1Start {
    /// The message that starts it.
    pub message: String,
    /// The headers that the message holds.
    pub hdr_to_tgt: HeaderMap,
}

impl RouterSocketV1 {
    /// Takes a client's request. The message that starts it is returned, with the headers as the
    /// listeners left them; a socket that was removed, or a listener, may turn the request down.
    pub fn on_client_req(
        &mut self,
        config: &CrankerRouterConfig,
        req: &ClientRequest,
        is_removed: bool,
        now: i64,
    ) -> (r: Result<V1Start, CrankerRouterException>)
        requires
            req.is_readable(config.settings),
            now >= 0,
        ensures
            final(self).info == old(self).info,
            if is_removed {
                &&& r matches Err(e) && e@ == removed_socket_error(old(self).info)
                &&& final(self)@ == old(self)@
            } else {
                &&& final(self)@ == old(self)@.opened(now)
                &&& config.proxy_listeners@.len() == 0 ==> (r matches Ok(start) && headers::entries(
                    start.hdr_to_tgt,
                ) == req.target_entries(config.settings))
                &&& exists|
                    h: Result<HeaderMap, CrankerRouterException>,
                    info: ProxyInfoData,
                    answers: Seq<Result<(), CrankerRouterException>>,
                    maps: Seq<HeaderMap>,
                |
                    #[trigger] says(info, old(self)@.opened(now).info(old(self).info))
                        && #[trigger] come_to(
                        answers,
                        config.proxy_listeners@.len(),
                        outcome(h),
                    ) && #[trigger] leave(
                        maps,
                        answers.len(),
                        req.target_entries(config.settings),
                        h,
                    ) && (forall|i: int, from: HeaderMap, to: HeaderMap|
                        0 <= i < answers.len() && #[trigger] step_is(maps, i, from, to)
                            ==> exists|m: &mut HeaderMap|
                            *m == from && *final(m) == to && #[trigger] may_prepare(
                                (&*config.proxy_listeners@[i], &info, m),
                                answers[i],
                            )) && (match h {
                        Ok(map) => {
                            &&& r matches Ok(start)
                            &&& start.hdr_to_tgt == map
                            &&& start.message@ == start_message(
                                req.method@,
                                forwarded::opt_text(req.orig_uri.path_and_query),
                                headers::entries(map),
                                req.has_body,
                            )
                        },
                        Err(e) => r == Err::<V1Start, CrankerRouterException>(e),
                    })
            },
    {
        match self.open_request(is_removed, now) {
            Ok(_) => {},
            Err(e) => {
                return Err(e);
            },
        }
        let info = self.proxy_info();
        assert(says(info, self@.info(self.info)));
        let prepared = req.headers_to_target(config, &info);
        let hdr_to_tgt = match prepared {
            Ok(hdr_to_tgt) => hdr_to_tgt,
            Err(e) => {
                return Err(e);
            },
        };
        match build_start_message(req.method, req.orig_uri, &hdr_to_tgt, req.has_body) {
            Ok(message) => Ok(V1Start { message, hdr_to_tgt }),
            Err(e) => Err(e),
        }
    }
}

/// The text that starts a request on a socket that serves several: the request line and the
/// headers.
pub open spec fn head_text(
    method: Seq<char>,
    path_and_query: Option<Seq<char>>,
    hdr_to_tgt: Seq<Entry>,
) -> Seq<char> {
    request_line(method, path_and_query) + "\n"@ + header_str(hdr_to_tgt)
}

fn build_head_text(method: &str, orig_uri: &RequestUri, hdr_to_tgt: &HeaderMap) -> (r: String)
    ensures
        r@ == head_text(
            method@,
            forwarded::opt_text(orig_uri.path_and_query),
            headers::entries(*hdr_to_tgt),
        ),
{
    let mut res = create_request_line(method, orig_uri);
    res.push_str("\n");
    let builder = CrankerProtocolRequestBuilder::new().with_request_headers(hdr_to_tgt);
    if let Some(lines) = builder.header_map_str {
        res.push_str(lines.as_str());
    }
    res
}

/// What comes of a client's request on a socket that serves several.
pub struct V3Start {
    pub effects: Vec<V3Effect>,
    /// The number of the request and the headers that were sent, or why it was turned down.
    pub result: Result<(i32, HeaderMap), CrankerRouterException>,
}

/// Whether `out` is what comes of a client's request, once the headers for the target are there or
/// a listener has failed.
pub open spec fn starts_v3(
    socket: RouterSocketInfo,
    s0: V3View,
    req: ClientRequest,
    prepared: Result<HeaderMap, CrankerRouterException>,
    now: i64,
    out: V3Start,
    after: V3View,
) -> bool {
    let id = (s0.last_id + 1) as i32;
    let s1 = opened(s0, now);
    let c = s1.live[id];
    match prepared {
        Ok(map) => {
            let frames = frames::header_frames(
                id,
                true,
                !req.has_body,
                head_text(
                    req.method@,
                    forwarded::opt_text(req.orig_uri.path_and_query),
                    headers::entries(map),
                ),
            );
            if s0.uplink_open {
                &&& out.result == Ok::<(i32, HeaderMap), CrankerRouterException>((id, map))
                &&& effects(out.effects@) == sends(frames)
                &&& after == s1.update(header_sent(c, frames))
            } else {
                let step = request_failed(
                    socket,
                    s1.update(header_not_sent(c, frames)),
                    id,
                    send_data_error(socket),
                    now,
                );
                &&& out.result matches Err(e) && e@ == send_data_error(socket)
                &&& after == step.state
                &&& effects(out.effects@) == step.effects
            }
        },
        Err(e) => {
            let step = request_failed(socket, s1, id, e@, now);
            &&& out.result == Err::<(i32, HeaderMap), CrankerRouterException>(e)
            &&& after == step.state
            &&& effects(out.effects@) == step.effects
        },
    }
}

impl RouterSocketV3 {
    /// Takes a client's request. The frames that start it are among the effects and hold the
    /// headers as the listeners left them; a socket that was removed, a listener, or a connection
    /// that takes no more may turn the request down.
    pub fn on_client_req(
        &mut self,
        config: &CrankerRouterConfig,
        req: &ClientRequest,
        is_removed: bool,
        now: i64,
    ) -> (r: V3Start)
        requires
            req.is_readable(config.settings),
            now >= 0,
            old(self).state().wf(),
            old(self).state().last_id < i32::MAX,
        ensures
            final(self).socket() == old(self).socket(),
            final(self).state().wf(),
            if is_removed {
                &&& r.result matches Err(e) && e@ == removed_socket_error(old(self).socket())
                &&& r.effects@.len() == 0
                &&& final(self).state() == old(self).state()
            } else {
                exists|
                    h: Result<HeaderMap, CrankerRouterException>,
                    info: ProxyInfoData,
                    answers: Seq<Result<(), CrankerRouterException>>,
                    maps: Seq<HeaderMap>,
                |
                    #[trigger] says(
                        info,
                        ContextView::start((old(self).state().last_id + 1) as i32, now).info(
                            old(self).socket(),
                        ),
                    ) && #[trigger] come_to(
                        answers,
                        config.proxy_listeners@.len(),
                        outcome(h),
                    ) && #[trigger] leave(
                        maps,
                        answers.len(),
                        req.target_entries(config.settings),
                        h,
                    ) && (forall|i: int, from: HeaderMap, to: HeaderMap|
                        0 <= i < answers.len() && #[trigger] step_is(maps, i, from, to)
                            ==> exists|m: &mut HeaderMap|
                            *m == from && *final(m) == to && #[trigger] may_prepare(
                                (&*config.proxy_listeners@[i], &info, m),
                                answers[i],
                            )) && starts_v3(
                        old(self).socket(),
                        old(self).state(),
                        *req,
                        h,
                        now,
                        r,
                        final(self).state(),
                    )
            },
    {
        let id = match self.open_request(is_removed, now) {
            Ok(id) => id,
            Err(e) => {
                let none: Vec<V3Effect> = Vec::new();
                return V3Start { effects: none, result: Err(e) };
            },
        };
        let info = RequestContext::new(id, now).info(self.info());
        assert(says(info, ContextView::start(id, now).info(self.socket())));
        let prepared = req.headers_to_target(config, &info);
        let ghost h = prepared;
        let hdr_to_tgt = match prepared {
            Ok(hdr_to_tgt) => hdr_to_tgt,
            Err(e) => {
                let effects = self.notify_client_request_error(id, e.clone(), now);
                let r = V3Start { effects, result: Err(e) };
                assert(starts_v3(
                    old(self).socket(),
                    old(self).state(),
                    *req,
                    h,
                    now,
                    r,
                    self.state(),
                ));
                return r;
            },
        };
        let header_text = build_head_text(req.method, req.orig_uri, &hdr_to_tgt);
        let (effects, result) = self.send_header(id, header_text, !req.has_body);
        let r = match result {
            Ok(_) => V3Start { effects, result: Ok((id, hdr_to_tgt)) },
            Err(e) => {
                let effects = self.notify_client_request_error(id, e.clone(), now);
                V3Start { effects, result: Err(e) }
            },
        };
        assert(starts_v3(
            old(self).socket(),
            old(self).state(),
            *req,
            h,
            now,
            r,
            self.state(),
        ));
        r
    }
}

/// Over a connection of several requests that takes frames, the payloads of the frames that start
/// a request are the request line and the headers as the listeners left them.
pub proof fn law_headers_are_sent_as_left(
    socket: RouterSocketInfo,
    s0: V3View,
    req: ClientRequest,
    map: HeaderMap,
    now: i64,
    out: V3Start,
    after: V3View,
)
    requires
        starts_v3(socket, s0, req, Ok(map), now, out, after),
        s0.uplink_open,
    ensures
        exists|sent: Seq<Seq<u8>>|
            #[trigger] sends(sent) == effects(out.effects@) && frames::payloads(sent)
                == encode_utf8(
                head_text(
                    req.method@,
                    forwarded::opt_text(req.orig_uri.path_and_query),
                    headers::entries(map),
                ),
            ),
{
    let id = (s0.last_id + 1) as i32;
    let line = head_text(
        req.method@,
        forwarded::opt_text(req.orig_uri.path_and_query),
        headers::entries(map),
    );
    frames::law_header_frames(id, true, !req.has_body, line);
    assert(sends(frames::header_frames(id, true, !req.has_body, line)) == effects(out.effects@));
}

} // verus!
