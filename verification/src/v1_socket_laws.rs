//! What a connection of one request does with what comes in and what goes out.

use crate::client_request::{ClientRequest, V1Start};
use crate::config::CrankerRouterConfig;
use crate::cranker_protocol_request_builder::{
    cookies, entry_lines, header_lines, header_str, CrankerProtocolRequestBuilder, EndMarker,
};
use crate::cranker_protocol_response::builder_head;
use crate::exceptions::{CrankerRouterException, CrexKind, ExceptionView};
use crate::exchange::{ExchangeAction, SendingEvent, V1Exchanged};
use crate::headers::{entries, value_text, values_of, Entry};
use crate::http_utils::ok_texts;
use crate::listeners::Listeners;
use crate::net::RequestUri;
use crate::octets::octets;
use crate::proxy_info::ProxyInfoData;
use crate::response_laws::{
    given_values, law_message_is_taken_apart, law_response_has_the_headers, lemma_none_empty,
    lines_of, status_line, stays_behind, GivenHeader,
};
use crate::router_socket::{CloseFrame, MessageView, RouterSocketInfo, WsMessage};
use crate::router_socket_v1::{
    build_start_message, close_result, effects, RouterSocketV1, V1Effect, V1EffectView, V1Outcome,
    V1Step, V1View,
};
use crate::text;
use axum::http::response::Builder;
use axum::http::HeaderMap;
use bytes::Bytes;
use vstd::prelude::*;
use vstd::utf8::encode_utf8;

verus! {

/// [`RouterSocketV1::on_text`] hands the first header text that comes over, as it is, counts its
/// bytes, and takes no other; one that is too long, or that comes too early, is not handed over.
pub proof fn law_header_text_is_handed_over(
    before: RouterSocketV1,
    after: RouterSocketV1,
    txt: String,
    r: V1Outcome,
)
    requires
        exists|m: &mut RouterSocketV1|
            *m == before && *final(m) == after && #[trigger] call_ensures(
                RouterSocketV1::on_text,
                (m, txt),
                r,
            ),
    ensures
        ({
            let s = before@;
            let n = encode_utf8(txt@).len();
            let fits = s.can_respond && !s.hdr_received && !s.hdr_sent && n <= 65536 && s.hdr_open;
            &&& fits ==> r.result is Ok && effects(r.effects@) == seq![
                V1EffectView::HeaderText(txt@),
                V1EffectView::CloseHeader,
            ] && after@.hdr_received && after@.hdr_sent && !after@.hdr_open && after@.bytes_sent
                == s.bytes_sent.wrapping_add(n as i64)
            &&& !fits ==> r.result is Err && !effects(r.effects@).contains(
                V1EffectView::HeaderText(txt@),
            ) && after@.bytes_sent == s.bytes_sent
        }),
{
}

/// [`RouterSocketV1::on_binary`] hands a piece of the response's body over, as it is, and counts
/// it, once the header text was handed over and as long as the response takes something.
pub proof fn law_piece_is_handed_over(
    before: RouterSocketV1,
    after: RouterSocketV1,
    bin: Bytes,
    r: V1Outcome,
)
    requires
        exists|m: &mut RouterSocketV1|
            *m == before && *final(m) == after && #[trigger] call_ensures(
                RouterSocketV1::on_binary,
                (m, bin),
                r,
            ),
    ensures
        ({
            let s = before@;
            let fits = s.can_respond && s.hdr_received && s.hdr_sent && s.bdy_open;
            &&& fits ==> r.result is Ok && effects(r.effects@) == seq![
                V1EffectView::Body(octets(bin)),
            ] && after@.bytes_sent == s.bytes_sent.wrapping_add(octets(bin).len() as i64)
                && after@.frames == s.frames.wrapping_add(1) && after@.bdy_open
            &&& !fits ==> r.result is Err && effects(r.effects@).len() == 0 && after@.bytes_sent
                == s.bytes_sent
        }),
{
}

/// What comes of several pieces of a response's body, one after the other.
pub open spec fn all_came(s: V1View, pieces: Seq<Seq<u8>>) -> (V1View, Seq<V1EffectView>)
    decreases pieces.len(),
{
    if pieces.len() == 0 {
        (s, Seq::empty())
    } else {
        let before = all_came(s, pieces.drop_last());
        let next = before.0.binary_came(pieces.last());
        (next.state, before.1 + next.effects)
    }
}

/// The client gets the whole body: each piece that comes, in its order.
pub proof fn law_body_is_whole(s: V1View, pieces: Seq<Seq<u8>>)
    requires
        s.can_respond,
        s.hdr_received,
        s.hdr_sent,
        s.bdy_open,
    ensures
        all_came(s, pieces).1 == pieces.map_values(|p: Seq<u8>| V1EffectView::Body(p)),
        all_came(s, pieces).0.can_respond,
        all_came(s, pieces).0.hdr_received,
        all_came(s, pieces).0.hdr_sent,
        all_came(s, pieces).0.bdy_open,
    decreases pieces.len(),
{
    if pieces.len() > 0 {
        law_body_is_whole(s, pieces.drop_last());
        assert(all_came(s, pieces).1 =~= pieces.map_values(|p: Seq<u8>| V1EffectView::Body(p)));
    } else {
        assert(all_came(s, pieces).1 =~= pieces.map_values(|p: Seq<u8>| V1EffectView::Body(p)));
    }
}

/// [`RouterSocketV1::on_close`] sends the connector's last message back, tells the listeners that
/// the body has come, closes the response if it took something, takes the socket out of the farm
/// and tells the listeners, as the last thing, that the request is over. Where all was well nothing
/// is reported.
pub proof fn law_normal_close(
    before: RouterSocketV1,
    after: RouterSocketV1,
    frame: CloseFrame,
    has_listeners: bool,
    now: i64,
    r: V1Outcome,
)
    requires
        exists|m: &mut RouterSocketV1|
            *m == before && *final(m) == after && #[trigger] call_ensures(
                RouterSocketV1::on_close,
                (m, Some(frame), has_listeners, now),
                r,
            ),
        frame.code == 1000,
    ensures
        ({
            let s = V1View { close_received: true, ..before@ };
            let told = before@.start != 0 && has_listeners;
            let open = before@.hdr_open || before@.bdy_open;
            let last = V1View {
                hdr_open: false,
                bdy_open: false,
                duration: if told {
                    (now - before@.start) as i64
                } else {
                    before@.duration
                },
                ..s
            };
            &&& r.result is Ok
            &&& after@ == last
            &&& effects(r.effects@) == (if before@.uplink_open {
                seq![V1EffectView::Send(MessageView::Close(Some((1000, frame.reason@))))]
            } else {
                Seq::empty()
            }) + seq![V1EffectView::BodyReceived(s.info(before.info))] + (if open {
                seq![V1EffectView::CloseHeader, V1EffectView::CloseBody]
            } else {
                Seq::empty()
            }) + seq![V1EffectView::RemoveFromFarm] + (if told {
                seq![V1EffectView::Completed(last.info(before.info))]
            } else {
                Seq::empty()
            })
        }),
{
    reveal(V1Step::and_report);
    reveal(V1Step::and_tell_refusal);
    reveal(V1Step::and_close_response);
    let s = V1View { close_received: true, ..before@ };
    let told = before@.start != 0 && has_listeners;
    let open = before@.hdr_open || before@.bdy_open;
    let last = V1View {
        hdr_open: false,
        bdy_open: false,
        duration: if told {
            (now - before@.start) as i64
        } else {
            before@.duration
        },
        ..s
    };
    assert(after@ =~= last);
    assert(effects(r.effects@) =~= (if before@.uplink_open {
        seq![V1EffectView::Send(MessageView::Close(Some((1000, frame.reason@))))]
    } else {
        Seq::empty()
    }) + seq![V1EffectView::BodyReceived(s.info(before.info))] + (if open {
        seq![V1EffectView::CloseHeader, V1EffectView::CloseBody]
    } else {
        Seq::empty()
    }) + seq![V1EffectView::RemoveFromFarm] + (if told {
        seq![V1EffectView::Completed(last.info(before.info))]
    } else {
        Seq::empty()
    }));
}

/// Where all was not well while the response took something, [`RouterSocketV1::on_close`] reports
/// it, with the code and the reason, and the listeners see the error when the request is over.
/// Where nothing of the request was sent, an error of the connector's is reported first, with a
/// status.
pub proof fn law_abnormal_close(
    before: RouterSocketV1,
    after: RouterSocketV1,
    frame: CloseFrame,
    has_listeners: bool,
    now: i64,
    r: V1Outcome,
)
    requires
        exists|m: &mut RouterSocketV1|
            *m == before && *final(m) == after && #[trigger] call_ensures(
                RouterSocketV1::on_close,
                (m, Some(frame), has_listeners, now),
                r,
            ),
        frame.code != 1000,
        before@.err_chan_open,
        before@.hdr_open || before@.bdy_open,
    ensures
        ({
            let e = ExceptionView {
                reason: "upstream server error: ws code="@ + text::decimal_int(frame.code as int)
                    + ", reason="@ + frame.reason@,
                opt_status_code: None,
                opt_err_kind: None,
            };
            let all = effects(r.effects@);
            let refused = before@.can_respond && before@.bytes_received == 0;
            &&& r.result is Ok
            &&& after@.error == Some(e)
            &&& !after@.hdr_open && !after@.bdy_open
            &&& all.contains(V1EffectView::ReportError(e))
            &&& all.contains(V1EffectView::CloseHeader) && all.contains(V1EffectView::CloseBody)
            &&& before@.start != 0 && has_listeners ==> (all.last() matches V1EffectView::Completed(
                info,
            ) && info.error == Some(e))
            &&& refused && frame.code == 1011 ==> all.contains(
                V1EffectView::ReportError(
                    ExceptionView {
                        reason: "ws code 1011"@,
                        opt_status_code: Some(502),
                        opt_err_kind: None,
                    },
                ),
            )
            &&& refused && frame.code == 1008 ==> all.contains(
                V1EffectView::ReportError(
                    ExceptionView {
                        reason: "ws code 1008"@,
                        opt_status_code: Some(400),
                        opt_err_kind: None,
                    },
                ),
            )
        }),
{
    let e = ExceptionView {
        reason: "upstream server error: ws code="@ + text::decimal_int(frame.code as int)
            + ", reason="@ + frame.reason@,
        opt_status_code: None,
        opt_err_kind: None,
    };
    let s = V1View { close_received: true, ..before@ };
    let first = V1Step {
        state: s,
        effects: (if before@.uplink_open {
            seq![V1EffectView::Send(MessageView::Close(Some((frame.code, frame.reason@))))]
        } else {
            Seq::empty()
        }).push(V1EffectView::BodyReceived(s.info(before.info))),
        err: None,
    };
    let refusal = first.and_tell_refusal(before.info, frame.code, has_listeners, now);
    lemma_refusal(first, before.info, frame.code, has_listeners, now);
    let told = refusal.and_report(before.info, e, has_listeners, now);
    lemma_report(refusal, before.info, e, has_listeners, now);
    reveal(V1Step::and_close_response);
    let closed = refusal.and_close_response(
        before.info,
        frame.code,
        frame.reason@,
        has_listeners,
        now,
    );
    let all = closed.and_complete(before.info, has_listeners, now).effects;
    assert(closed.effects == told.effects + seq![
        V1EffectView::CloseHeader,
        V1EffectView::CloseBody,
    ]);
    assert(effects(r.effects@) == all);
    let n = refusal.effects.len();
    assert(all[n as int] == V1EffectView::ReportError(e));
    assert(all[told.effects.len() as int] == V1EffectView::CloseHeader);
    assert(all[told.effects.len() as int + 1] == V1EffectView::CloseBody);
    assert forall|x: V1EffectView| refusal.effects.contains(x) implies #[trigger] all.contains(
        x,
    ) by {
        let k = choose|k: int| 0 <= k < n && refusal.effects[k] == x;
        assert(all[k] == x);
    }
}

/// What a report adds to a step.
proof fn lemma_report(
    step: V1Step,
    socket: RouterSocketInfo,
    e: ExceptionView,
    has_listeners: bool,
    now: i64,
)
    requires
        step.state.err_chan_open,
    ensures
        ({
            let next = step.and_report(socket, e, has_listeners, now);
            &&& next.state.error == Some(e)
            &&& next.state.err_chan_open
            &&& next.state.hdr_open == step.state.hdr_open
            &&& next.state.bdy_open == step.state.bdy_open
            &&& next.state.start == step.state.start
            &&& next.err == step.err
            &&& next.effects.len() > step.effects.len()
            &&& next.effects[step.effects.len() as int] == V1EffectView::ReportError(e)
            &&& forall|k: int|
                0 <= k < step.effects.len() ==> #[trigger] next.effects[k] == step.effects[k]
        }),
{
    reveal(V1Step::and_report);
}

/// What the report of a refusal adds to a step.
proof fn lemma_refusal(
    step: V1Step,
    socket: RouterSocketInfo,
    code: u16,
    has_listeners: bool,
    now: i64,
)
    requires
        step.state.err_chan_open,
        step.err is None,
    ensures
        ({
            let next = step.and_tell_refusal(socket, code, has_listeners, now);
            let refused = step.state.can_respond && step.state.bytes_received == 0;
            &&& next.state.err_chan_open
            &&& next.state.hdr_open == step.state.hdr_open
            &&& next.state.bdy_open == step.state.bdy_open
            &&& next.state.start == step.state.start
            &&& next.err is None
            &&& refused && code == 1011 ==> next.effects.contains(
                V1EffectView::ReportError(
                    ExceptionView {
                        reason: "ws code 1011"@,
                        opt_status_code: Some(502),
                        opt_err_kind: None,
                    },
                ),
            )
            &&& refused && code == 1008 ==> next.effects.contains(
                V1EffectView::ReportError(
                    ExceptionView {
                        reason: "ws code 1008"@,
                        opt_status_code: Some(400),
                        opt_err_kind: None,
                    },
                ),
            )
        }),
{
    reveal(V1Step::and_tell_refusal);
    lemma_report(
        step,
        socket,
        ExceptionView { reason: "ws code 1011"@, opt_status_code: Some(502), opt_err_kind: None },
        has_listeners,
        now,
    );
    lemma_report(
        step,
        socket,
        ExceptionView { reason: "ws code 1008"@, opt_status_code: Some(400), opt_err_kind: None },
        has_listeners,
        now,
    );
}

/// [`RouterSocketV1::on_error`] reports an error, keeps it, takes the socket out of the farm and
/// tells the listeners that the request is over, with the error and the time that it took.
pub proof fn law_error_is_reported(
    before: RouterSocketV1,
    after: RouterSocketV1,
    e: CrankerRouterException,
    has_listeners: bool,
    now: i64,
    r: V1Outcome,
)
    requires
        exists|m: &mut RouterSocketV1|
            *m == before && *final(m) == after && #[trigger] call_ensures(
                RouterSocketV1::on_error,
                (m, e, has_listeners, now),
                r,
            ),
        before@.err_chan_open,
    ensures
        ({
            let all = effects(r.effects@);
            let told = before@.start != 0 && has_listeners;
            &&& r.result is Ok
            &&& after@.error == Some(e@)
            &&& all.len() == if told {
                3int
            } else {
                2int
            }
            &&& all[0] == V1EffectView::ReportError(e@)
            &&& all[1] == V1EffectView::RemoveFromFarm
            &&& told ==> (all[2] matches V1EffectView::Completed(info) && info.error == Some(e@)
                && info.duration_millis == (now - before@.start) as i64 && info.bytes_sent
                == before@.bytes_sent && info.bytes_received == before@.bytes_received)
        }),
{
}

/// [`RouterSocketV1::terminate_all_conn`] hands the error over wherever the response still takes
/// something, and closes it.
pub proof fn law_response_is_terminated(
    before: RouterSocketV1,
    after: RouterSocketV1,
    e: CrankerRouterException,
    r: Vec<V1Effect>,
)
    requires
        exists|m: &mut RouterSocketV1|
            *m == before && *final(m) == after && #[trigger] call_ensures(
                RouterSocketV1::terminate_all_conn,
                (m, Some(e)),
                r,
            ),
    ensures
        effects(r@) == (if before@.hdr_open {
            seq![V1EffectView::HeaderError(e@)]
        } else {
            Seq::empty()
        }) + (if before@.bdy_open {
            seq![V1EffectView::BodyError(e@)]
        } else {
            Seq::empty()
        }) + seq![V1EffectView::CloseHeader, V1EffectView::CloseBody],
        !after@.hdr_open && !after@.bdy_open,
{
}

/// A connection that waits for its request has handed over and counted nothing.
pub proof fn law_new_socket(
    info: RouterSocketInfo,
    listeners: &Listeners,
    created: i64,
    s: RouterSocketV1,
)
    requires
        call_ensures(RouterSocketV1::new, (info, listeners, created), s),
    ensures
        s.info == info,
        !s@.can_respond && !s@.hdr_received && !s@.hdr_sent && !s@.bdy_received,
        s@.hdr_open && s@.bdy_open && s@.uplink_open && s@.err_chan_open && !s@.close_received,
        s@.bytes_received == 0 && s@.bytes_sent == 0 && s@.frames == 0 && s@.start == 0,
        s@.error is None,
{
}

/// The time that a socket waited for its request is that between its making and the request.
pub proof fn law_wait_is_measured(
    info: RouterSocketInfo,
    listeners: &Listeners,
    created: i64,
    s: RouterSocketV1,
    after: RouterSocketV1,
    now: i64,
    r: Result<(), CrankerRouterException>,
)
    requires
        call_ensures(RouterSocketV1::new, (info, listeners, created), s),
        exists|m: &mut RouterSocketV1|
            *m == s && *final(m) == after && #[trigger] call_ensures(
                RouterSocketV1::open_request,
                (m, false, now),
                r,
            ),
        0 <= created <= now,
    ensures
        r is Ok,
        after@.socket_wait == now - created,
        after@.start == now,
        after@.info(after.info).socket_wait_in_millis == now - created,
{
}

/// A socket that was removed takes no request.
pub proof fn law_removed_socket_takes_no_request(
    before: RouterSocketV1,
    after: RouterSocketV1,
    now: i64,
    r: Result<(), CrankerRouterException>,
)
    requires
        exists|m: &mut RouterSocketV1|
            *m == before && *final(m) == after && #[trigger] call_ensures(
                RouterSocketV1::open_request,
                (m, true, now),
                r,
            ),
    ensures
        r is Err,
        after@ == before@,
{
}

/// What is sent to the connector goes out as it is, and once: the message that starts a request,
/// the pieces of its body, and the marker behind them.
pub proof fn law_messages_go_out(
    before: RouterSocketV1,
    after: RouterSocketV1,
    start: String,
    started: V1Outcome,
    piece: Bytes,
    sent: V1Outcome,
    ended: V1Outcome,
    ping: Bytes,
    has_listeners: bool,
    now: i64,
    ponged: RouterSocketV1,
    pong: V1Outcome,
)
    requires
        before@.uplink_open,
        exists|m: &mut RouterSocketV1|
            *m == before && *final(m) == after && #[trigger] call_ensures(
                RouterSocketV1::send_header,
                (m, start),
                started,
            ),
        call_ensures(RouterSocketV1::send_body_chunk, (&before, piece), sent),
        call_ensures(RouterSocketV1::send_body_end, (&before,), ended),
        exists|m: &mut RouterSocketV1|
            *m == before && *final(m) == ponged && #[trigger] call_ensures(
                RouterSocketV1::on_ping,
                (m, ping, has_listeners, now),
                pong,
            ),
    ensures
        after@.can_respond,
        started.result is Ok && effects(started.effects@) == seq![
            V1EffectView::Send(MessageView::Text(start@)),
        ],
        sent.result is Ok && effects(sent.effects@) == seq![
            V1EffectView::Send(MessageView::Binary(octets(piece))),
        ],
        ended.result is Ok && effects(ended.effects@) == seq![
            V1EffectView::Send(MessageView::Text("_3"@)),
        ],
        pong.result is Ok && effects(pong.effects@) == seq![
            V1EffectView::Send(MessageView::Pong(octets(ping))),
        ],
        ponged@ == before@,
{
}

/// The message that starts a request, from [`build_start_message`]: the method, the path with its
/// query and the version in the first line, then the headers, and at the end whether a body
/// follows.
pub proof fn law_start_message_is_built(
    method: &str,
    uri: &RequestUri,
    headers: &HeaderMap,
    has_body: bool,
    r: Result<String, CrankerRouterException>,
)
    requires
        call_ensures(build_start_message, (method, uri, headers, has_body), r),
    ensures
        ({
            let path = match uri.path_and_query {
                Some(p) => p@,
                None => Seq::empty(),
            };
            r matches Ok(m) && m@ == method@ + " "@ + path + " HTTP/1.1"@ + "\n"@ + header_str(
                entries(*headers),
            ) + "\n"@ + (if has_body {
                "_1"@
            } else {
                "_2"@
            })
        }),
{
}

/// The headers as they are sent: for each value that is text a line with the name, a colon and the
/// value, but for the cookies, which share the last line, with a semicolon and a blank between
/// them.
pub proof fn law_header_lines(es: Seq<Entry>, name: Seq<char>, values: Seq<Seq<u8>>, value: Seq<u8>)
    ensures
        header_str(es) == header_lines(es) + text::join(cookies(es), "; "@) + "\n"@,
        header_lines(Seq::<Entry>::empty()) == Seq::<char>::empty(),
        cookies(Seq::<Entry>::empty()) == Seq::<Seq<char>>::empty(),
        name != "cookie"@ ==> header_lines(es.push((name, values))) == header_lines(es)
            + entry_lines(name, values) && cookies(es.push((name, values))) == cookies(es),
        name == "cookie"@ ==> header_lines(es.push((name, values))) == header_lines(es) && cookies(
            es.push((name, values)),
        ) == cookies(es) + ok_texts(values),
        entry_lines(name, Seq::<Seq<u8>>::empty()) == Seq::<char>::empty(),
        entry_lines(name, values.push(value)) == (match value_text(value) {
            Some(t) => entry_lines(name, values) + name + ":"@ + t + "\n"@,
            None => entry_lines(name, values),
        }),
{
    assert(es.push((name, values)).drop_last() =~= es);
    assert(values.push(value).drop_last() =~= values);
}

/// [`CrankerProtocolRequestBuilder::build`] puts the request line, the headers and the marker one
/// behind the other; the marker of a body that has ended may stand alone, and no other may.
pub proof fn law_request_is_built(
    builder: CrankerProtocolRequestBuilder,
    r: Result<String, CrankerRouterException>,
)
    requires
        call_ensures(CrankerProtocolRequestBuilder::build, (builder,), r),
    ensures
        builder.end_marker is None ==> r is Err,
        builder.end_marker matches Some(m) ==> {
            let mark = match m {
                EndMarker::RequestBodyPending => "_1"@,
                EndMarker::RequestHasNoBody => "_2"@,
                EndMarker::RequestBodyEnded => "_3"@,
            };
            if builder.request_line is Some && builder.header_map_str is Some {
                r matches Ok(s) && s@ == builder.request_line->0@ + "\n"@
                    + builder.header_map_str->0@ + "\n"@ + mark
            } else if m is RequestBodyEnded {
                r matches Ok(s) && s@ == mark
            } else {
                r is Err
            }
        },
{
}

/// Without listeners, a request's message goes out as it is, then each piece of its body, then the
/// marker behind the body; without a body the response is waited for at once.
pub proof fn law_exchange_sends_the_request(
    before: RouterSocketV1,
    after: RouterSocketV1,
    config: &CrankerRouterConfig,
    has_body: bool,
    ev: SendingEvent,
    r: V1Exchanged,
)
    requires
        exists|m: &mut RouterSocketV1|
            *m == before && *final(m) == after && #[trigger] call_ensures(
                RouterSocketV1::split_part_one_send_or_err,
                (m, config, has_body, ev),
                r,
            ),
        config.proxy_listeners@.len() == 0,
        before@.uplink_open,
    ensures
        match ev {
            SendingEvent::Start(start) => effects(r.effects@) == seq![
                V1EffectView::Send(MessageView::Text(start.message@)),
            ] && (if has_body {
                r.action is ReadBody
            } else {
                r.action is AwaitHeader
            }),
            SendingEvent::Chunk(b) => effects(r.effects@) == seq![
                V1EffectView::Send(MessageView::Binary(octets(b))),
            ] && r.action is ReadBody,
            SendingEvent::BodyEnded => effects(r.effects@) == seq![
                V1EffectView::Send(MessageView::Text("_3"@)),
            ] && r.action is AwaitHeader,
            SendingEvent::BodyFailed(shown) => effects(r.effects@).len() == 0 && (
            r.action matches ExchangeAction::Fail(e) && e@.reason == shown@),
        },
{
}

/// Without listeners, the header text of a response becomes the client's answer: its status and its
/// headers are those that the target gave. An error in its place is the client's answer.
pub proof fn law_exchange_answers(
    socket: &RouterSocketV1,
    config: &CrankerRouterConfig,
    received: Option<Result<String, CrankerRouterException>>,
    r: Result<Builder, CrankerRouterException>,
    version: Seq<char>,
    status: u16,
    phrase: Seq<char>,
    hs: Seq<GivenHeader>,
    name: Seq<char>,
)
    requires
        call_ensures(RouterSocketV1::split_part_two_recv_and_res, (socket, config, received), r),
        config.proxy_listeners@.len() == 0,
        !version.contains(' '),
        !version.contains('\n'),
        !phrase.contains('\n'),
        100 <= status <= 999,
        hs.len() <= 6554,
        forall|i: int| 0 <= i < hs.len() ==> (#[trigger] hs[i]).wf(),
        forall|i: int| 0 <= i < hs.len() ==> !(#[trigger] hs[i]).line().contains('\n'),
    ensures
        (received matches Some(Ok(message)) && message@ == text::join(
            seq![status_line(version, status, phrase)] + lines_of(hs),
            seq!['\n'],
        )) ==> (r matches Ok(b) && builder_head(b) matches Some((code, es)) && code == status
            && values_of(es, name) == (if stays_behind(name) {
            Seq::empty()
        } else {
            given_values(hs.reverse(), name)
        })),
        received matches Some(Err(e)) ==> (r matches Err(told) && told@ == e@),
        received is None ==> r is Err,
{
    let lines = lines_of(hs);
    assert forall|i: int| 0 <= i < lines.len() implies !(#[trigger] lines[i]).contains('\n') by {
        assert(lines[i] == hs[i].line());
    }
    law_message_is_taken_apart(version, status, phrase, lines);
    let back = hs.reverse();
    assert(lines.reverse() =~= lines_of(back));
    assert forall|i: int| 0 <= i < back.len() implies (#[trigger] back[i]).wf() by {
        assert(back[i] == hs[hs.len() - 1 - i]);
    }
    assert forall|i: int| 0 <= i < lines_of(back).len() implies (
    #[trigger] lines_of(back)[i]).len() > 0 by {
        assert(back[i].wf());
    }
    lemma_none_empty(lines_of(back));
    law_response_has_the_headers(status, back, name);
}

/// Without listeners, [`RouterSocketV1::on_client_req`] starts a request with the headers that are
/// made for the target, and its message holds them.
pub proof fn law_request_is_started(
    before: RouterSocketV1,
    after: RouterSocketV1,
    config: &CrankerRouterConfig,
    req: &ClientRequest,
    now: i64,
    r: Result<V1Start, CrankerRouterException>,
)
    requires
        exists|m: &mut RouterSocketV1|
            *m == before && *final(m) == after && #[trigger] call_ensures(
                RouterSocketV1::on_client_req,
                (m, config, req, false, now),
                r,
            ),
        config.proxy_listeners@.len() == 0,
    ensures
        r matches Ok(start) && entries(start.hdr_to_tgt) == req.target_entries(config.settings)
            && start.message@ == req.method@ + " "@ + (match req.orig_uri.path_and_query {
            Some(p) => p@,
            None => Seq::empty(),
        }) + " HTTP/1.1"@ + "\n"@ + header_str(entries(start.hdr_to_tgt)) + "\n"@ + (
        if req.has_body {
            "_1"@
        } else {
            "_2"@
        }),
        after@.start == now,
{
}


/// The listeners see of a request what was counted of it, and over which socket it went.
pub proof fn law_request_is_shown(s: &RouterSocketV1, r: ProxyInfoData)
    requires
        call_ensures(RouterSocketV1::proxy_info, (s,), r),
    ensures
        r@.bytes_received == s@.bytes_received && r@.bytes_sent == s@.bytes_sent,
        r@.response_body_frames == s@.frames && r@.duration_millis == s@.duration,
        r@.socket_wait_in_millis == s@.socket_wait && r@.error == s@.error,
        r@.route == s.info.route@ && r@.router_socket_id == s.info.router_socket_id@,
        r@.connector_id == s.info.connector_id@ && r@.service_address == s.info.service_address,
{
}

/// When a request is over the socket leaves the farm, and the listeners are told, if there are some
/// and there was a request, with the time that it took.
pub proof fn law_completion_is_raised(
    before: RouterSocketV1,
    after: RouterSocketV1,
    has_listeners: bool,
    now: i64,
    r: Vec<V1Effect>,
)
    requires
        exists|m: &mut RouterSocketV1|
            *m == before && *final(m) == after && #[trigger] call_ensures(
                RouterSocketV1::raise_completion_event,
                (m, has_listeners, now),
                r,
            ),
    ensures
        effects(r@)[0] == V1EffectView::RemoveFromFarm,
        before@.start != 0 && has_listeners ==> effects(r@).len() == 2 && (
        effects(r@)[1] matches V1EffectView::Completed(info) && info.duration_millis == (now
            - before@.start) as i64 && info.error == before@.error && info.bytes_sent
            == before@.bytes_sent && info.bytes_received == before@.bytes_received),
        before@.start == 0 || !has_listeners ==> effects(r@).len() == 1,
{
}

/// A client that goes before the connector has closed the connection is reported as a broken
/// connection; one that goes later is not.
pub proof fn law_client_goes(
    before: RouterSocketV1,
    after: RouterSocketV1,
    has_listeners: bool,
    now: i64,
    r: V1Outcome,
)
    requires
        exists|m: &mut RouterSocketV1|
            *m == before && *final(m) == after && #[trigger] call_ensures(
                RouterSocketV1::on_client_gone,
                (m, has_listeners, now),
                r,
            ),
        before@.err_chan_open,
    ensures
        before@.close_received ==> r.result is Ok && effects(r.effects@).len() == 0 && after@
            == before@,
        !before@.close_received ==> r.result is Ok && (
        effects(r.effects@)[0] matches V1EffectView::ReportError(e) && e.opt_err_kind == Some(
            CrexKind::BrokenConnection_0011,
        ) && e.reason == "connection to client closed unexpectedly"@ && after@.error == Some(e)),
{
}

/// What comes of a last message is well if all was well, and otherwise every error that there was.
pub proof fn law_close_result(
    first: Result<(), CrankerRouterException>,
    second: Result<(), CrankerRouterException>,
    r: Result<(), CrankerRouterException>,
)
    requires
        call_ensures(close_result, (first, second), r),
    ensures
        r is Ok <==> first is Ok && second is Ok,
        first is Err && second is Ok ==> r->Err_0@ == first->Err_0@,
        first is Ok && second is Err ==> r->Err_0@ == second->Err_0@,
        first is Err && second is Err ==> r->Err_0@.reason == first->Err_0@.reason
            + second->Err_0@.reason,
{
}

/// Bytes from the client are counted, an error is kept, and what was closed takes nothing more.
pub proof fn law_socket_is_told(
    before: RouterSocketV1,
    counted: RouterSocketV1,
    given: RouterSocketV1,
    deaf: RouterSocketV1,
    silent: RouterSocketV1,
    n: i32,
    e: Option<CrankerRouterException>,
    inflight: i32,
)
    requires
        exists|m: &mut RouterSocketV1|
            *m == before && *final(m) == counted && #[trigger] call_ensures(
                RouterSocketV1::inc_bytes_received_from_cli,
                (m, n),
                (),
            ),
        exists|m: &mut RouterSocketV1|
            *m == before && *final(m) == given && #[trigger] call_ensures(
                RouterSocketV1::try_provide_general_error,
                (m, e),
                (),
            ),
        exists|m: &mut RouterSocketV1|
            *m == before && *final(m) == deaf && #[trigger] call_ensures(
                RouterSocketV1::close_uplink,
                (m,),
                (),
            ),
        exists|m: &mut RouterSocketV1|
            *m == before && *final(m) == silent && #[trigger] call_ensures(
                RouterSocketV1::close_err_chan,
                (m,),
                (),
            ),
        call_ensures(RouterSocketV1::inflight_count, (&before,), inflight),
    ensures
        counted@.bytes_received == before@.bytes_received.wrapping_add(n as i64),
        counted@.bytes_sent == before@.bytes_sent && counted@.error == before@.error,
        given@.error is Some <==> e is Some,
        e is Some ==> given@.error == Some(e->0@),
        given@.bytes_received == before@.bytes_received,
        !deaf@.uplink_open && deaf@.err_chan_open == before@.err_chan_open && deaf@.hdr_open
            == before@.hdr_open,
        !silent@.err_chan_open && silent@.uplink_open == before@.uplink_open,
        inflight == -1,
{
}

/// Where no listener has asked for the pieces of a response, none is told and none can stop it.
pub proof fn law_no_listener_asks(
    s: &RouterSocketV1,
    config: &CrankerRouterConfig,
    chunk: &Bytes,
    r: Result<(), CrankerRouterException>,
)
    requires
        call_ensures(RouterSocketV1::response_chunk_came, (s, config, chunk), r),
    ensures
        !s@.needs_response_chunks || config.proxy_listeners@.len() == 0 ==> r is Ok,
{
}


/// A connection that is closed without a word counts as closed with the code 4000 and no reason.
pub proof fn law_close_without_a_word(
    before: RouterSocketV1,
    after: RouterSocketV1,
    has_listeners: bool,
    now: i64,
    r: V1Outcome,
)
    requires
        exists|m: &mut RouterSocketV1|
            *m == before && *final(m) == after && #[trigger] call_ensures(
                RouterSocketV1::on_close,
                (m, None, has_listeners, now),
                r,
            ),
        before@.err_chan_open,
        before@.hdr_open || before@.bdy_open,
    ensures
        after@.error matches Some(e) && e.reason == "upstream server error: ws code="@
            + text::decimal_int(4000) + ", reason="@,
        !after@.hdr_open && !after@.bdy_open,
        before@.uplink_open ==> effects(r.effects@)[0] == V1EffectView::Send(
            MessageView::Close(None),
        ),
{
    let e = ExceptionView {
        reason: "upstream server error: ws code="@ + text::decimal_int(4000) + ", reason="@
            + Seq::<char>::empty(),
        opt_status_code: None,
        opt_err_kind: None,
    };
    assert(e.reason =~= "upstream server error: ws code="@ + text::decimal_int(4000)
        + ", reason="@);
    let s = V1View { close_received: true, ..before@ };
    let first = V1Step {
        state: s,
        effects: (if before@.uplink_open {
            seq![V1EffectView::Send(MessageView::Close(None))]
        } else {
            Seq::empty()
        }).push(V1EffectView::BodyReceived(s.info(before.info))),
        err: None,
    };
    let refusal = first.and_tell_refusal(before.info, 4000, has_listeners, now);
    reveal(V1Step::and_tell_refusal);
    assert(refusal == first);
    lemma_report(refusal, before.info, e, has_listeners, now);
    reveal(V1Step::and_close_response);
    let closed = refusal.and_close_response(
        before.info,
        4000,
        Seq::empty(),
        has_listeners,
        now,
    );
    let all = closed.and_complete(before.info, has_listeners, now).effects;
    assert(effects(r.effects@) == all);
    if before@.uplink_open {
        let told = refusal.and_report(before.info, e, has_listeners, now);
        assert(told.effects[0] == refusal.effects[0]);
        assert(all[0] == told.effects[0]);
    }
}

/// Over a connection that takes nothing more nothing is sent, and whoever sends is told so.
pub proof fn law_nothing_goes_out(
    before: RouterSocketV1,
    after: RouterSocketV1,
    start: String,
    started: V1Outcome,
    piece: Bytes,
    sent: V1Outcome,
    ended: V1Outcome,
    m: WsMessage,
    other: V1Outcome,
)
    requires
        !before@.uplink_open,
        exists|m: &mut RouterSocketV1|
            *m == before && *final(m) == after && #[trigger] call_ensures(
                RouterSocketV1::send_header,
                (m, start),
                started,
            ),
        call_ensures(RouterSocketV1::send_body_chunk, (&before, piece), sent),
        call_ensures(RouterSocketV1::send_body_end, (&before,), ended),
        call_ensures(RouterSocketV1::send_ws_msg_to_uwss, (&before, m), other),
    ensures
        started.result matches Err(e) && e@.reason
            == "failed to send cli req hdr to tgt: SendError(..)"@,
        sent.result matches Err(e) && e@.reason
            == "error when sending req body to tgt: SendError(..)"@,
        ended.result matches Err(e) && e@.reason
            == "failed to send end of body end marker to tgt: SendError(..)"@,
        other.result matches Err(e) && e@.reason
            == "failed to send ws msg to wss_send_task_tx: SendError(..)"@,
        effects(started.effects@).len() == 0 && effects(sent.effects@).len() == 0 && effects(
            ended.effects@,
        ).len() == 0 && effects(other.effects@).len() == 0,
{
}

/// A message goes out as it is over a connection that takes something.
pub proof fn law_message_goes_out(s: &RouterSocketV1, m: WsMessage, r: V1Outcome)
    requires
        s@.uplink_open,
        call_ensures(RouterSocketV1::send_ws_msg_to_uwss, (s, m), r),
    ensures
        r.result is Ok,
        effects(r.effects@) == seq![V1EffectView::Send(m@)],
{
}

/// Why a part of a response is not taken: it comes before the request, it comes twice or too late,
/// or it is too long.
pub proof fn law_why_it_is_not_taken(
    before: RouterSocketV1,
    header: String,
    piece: Bytes,
    after_header: RouterSocketV1,
    after_piece: RouterSocketV1,
    h: V1Outcome,
    b: V1Outcome,
)
    requires
        exists|m: &mut RouterSocketV1|
            *m == before && *final(m) == after_header && #[trigger] call_ensures(
                RouterSocketV1::on_text,
                (m, header),
                h,
            ),
        exists|m: &mut RouterSocketV1|
            *m == before && *final(m) == after_piece && #[trigger] call_ensures(
                RouterSocketV1::on_binary,
                (m, piece),
                b,
            ),
    ensures
        !before@.can_respond ==> (h.result matches Err(e) && e@.reason
            == "recv txt before handle cli req."@) && (b.result matches Err(e) && e@.reason
            == "recv bin before handle cli req."@),
        before@.can_respond && (before@.hdr_sent || before@.hdr_received) ==> (
        h.result matches Err(e) && e@.reason == "res header already handled!"@),
        before@.can_respond && !before@.hdr_sent && !before@.hdr_received && encode_utf8(
            header@,
        ).len() > 65536 ==> (h.result matches Err(e) && e@.reason
            == "response header too large: over 64 * 1024 bytes."@),
        before@.can_respond && !before@.hdr_sent ==> (b.result matches Err(e) && e@.reason
            == "res header not handle yet but comes binary first"@),
{
}

} // verus!
