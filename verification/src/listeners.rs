//! How the proxy listeners are told of a request. What a listener answers is its own affair; one
//! that fails stops the request, and those behind it are not told. Only where nothing is left to
//! stop are all of them told, whatever they answer.
//!
//! Of a listener it is known only which answers it may give to what it is told. The `may_*`
//! functions name these for each hook: an answer is one that a call of the hook may come back
//! with. The `told_*` functions say what may come of it when all listeners are told the same.

use crate::exceptions::CrankerRouterException;
use crate::headers;
use crate::headers::Entry;
use crate::proxy_info::{ProxyInfo, ProxyInfoData, ProxyInfoView};
use crate::proxy_listener::ProxyListener;
use crate::websocket_farm::ErrorProxyInfo;
use axum::http::HeaderMap;
use bytes::Bytes;
use std::sync::Arc;
use vstd::prelude::*;

verus! {

/// The listeners of a router.
pub type Listeners = Vec<Arc<dyn ProxyListener>>;

/// Whether a listener may say this of its need for the pieces of a request's body.
pub open spec fn may_need_request_chunks<L: ProxyListener + ?Sized>(l: &L, need: bool) -> bool {
    call_ensures(L::really_need_on_request_body_chunk_sent_to_target, (l,), need)
}

/// Whether a listener may say this of its need for the pieces of a response's body.
pub open spec fn may_need_response_chunks<L: ProxyListener + ?Sized>(l: &L, need: bool) -> bool {
    call_ensures(L::really_need_on_response_body_chunk_received_from_target, (l,), need)
}

/// Whether a listener that may change the headers to the target may answer like this. The last
/// part of what it is told is the headers, as they are and as they will be.
pub open spec fn may_prepare<'a, L: ProxyListener + ?Sized>(
    told: (&'a L, &'a ProxyInfoData, &'a mut HeaderMap),
    r: Result<(), CrankerRouterException>,
) -> bool {
    let shown: &dyn ProxyInfo = told.1;
    call_ensures(L::on_before_proxy_to_target, (told.0, shown, told.2), r)
}

/// Whether a listener that is told that the headers were sent may answer like this.
pub open spec fn may_take_headers_sent<'a, L: ProxyListener + ?Sized>(
    l: &'a L,
    info: &'a ProxyInfoData,
    headers: Option<&'a HeaderMap>,
    r: Result<(), CrankerRouterException>,
) -> bool {
    let shown: &dyn ProxyInfo = info;
    call_ensures(L::on_after_proxy_to_target_headers_sent, (l, shown, headers), r)
}

/// Whether a listener that is told of a piece of a request's body before it is sent may answer like
/// this.
pub open spec fn may_take_chunk_to_be_sent<'a, L: ProxyListener + ?Sized>(
    l: &'a L,
    info: &'a ProxyInfoData,
    chunk: &'a Bytes,
    r: Result<(), CrankerRouterException>,
) -> bool {
    let shown: &dyn ProxyInfo = info;
    call_ensures(L::on_before_request_body_chunk_sent_to_target, (l, shown, chunk), r)
}

/// Whether a listener that is told of a piece of a request's body that was sent may answer like
/// this.
pub open spec fn may_take_chunk_sent<'a, L: ProxyListener + ?Sized>(
    l: &'a L,
    info: &'a ProxyInfoData,
    chunk: &'a Bytes,
    r: Result<(), CrankerRouterException>,
) -> bool {
    let shown: &dyn ProxyInfo = info;
    call_ensures(L::on_request_body_chunk_sent_to_target, (l, shown, chunk), r)
}

/// Whether a listener that is told that a request's body was sent may answer like this.
pub open spec fn may_take_body_sent<'a, L: ProxyListener + ?Sized>(
    l: &'a L,
    info: &'a ProxyInfoData,
    r: Result<(), CrankerRouterException>,
) -> bool {
    let shown: &dyn ProxyInfo = info;
    call_ensures(L::on_request_body_sent_to_target, (l, shown), r)
}

/// Whether a listener that is told that the client is about to be answered may answer like this.
pub open spec fn may_take_responding<'a, L: ProxyListener + ?Sized>(
    l: &'a L,
    info: &'a ProxyInfoData,
    r: Result<(), CrankerRouterException>,
) -> bool {
    let shown: &dyn ProxyInfo = info;
    call_ensures(L::on_before_responding_to_client, (l, shown), r)
}

/// Whether a listener that is told of the status and the headers of a response may answer like
/// this.
pub open spec fn may_take_headers_received<'a, L: ProxyListener + ?Sized>(
    l: &'a L,
    info: &'a ProxyInfoData,
    status: u16,
    headers: Option<&'a HeaderMap>,
    r: Result<(), CrankerRouterException>,
) -> bool {
    let shown: &dyn ProxyInfo = info;
    call_ensures(L::on_after_target_to_proxy_headers_received, (l, shown, status, headers), r)
}

/// Whether a listener that is told of a piece of a response's body may answer like this.
pub open spec fn may_take_chunk_received<'a, L: ProxyListener + ?Sized>(
    l: &'a L,
    info: &'a ProxyInfoData,
    chunk: &'a Bytes,
    r: Result<(), CrankerRouterException>,
) -> bool {
    let shown: &dyn ProxyInfo = info;
    call_ensures(L::on_response_body_chunk_received_from_target, (l, shown, chunk), r)
}

/// Whether a listener that is told that a request is over may answer like this.
pub open spec fn may_take_complete<'a, L: ProxyListener + ?Sized>(
    l: &'a L,
    info: &'a ProxyInfoData,
    r: Result<(), CrankerRouterException>,
) -> bool {
    let shown: &dyn ProxyInfo = info;
    call_ensures(L::on_complete, (l, shown), r)
}

/// What may come of a request without a body that was sent, for one listener: it is told that the
/// headers were sent and, unless it fails, that the body was.
pub open spec fn may_take_bodiless_sent<'a, L: ProxyListener + ?Sized>(
    l: &'a L,
    info: &'a ProxyInfoData,
    headers: Option<&'a HeaderMap>,
    r: Result<(), CrankerRouterException>,
) -> bool {
    ||| r is Err && may_take_headers_sent(l, info, headers, r)
    ||| may_take_headers_sent(l, info, headers, Ok(())) && may_take_body_sent(l, info, r)
}

/// Whether a listener that is told that a response's body has come may answer like this.
pub open spec fn may_take_body_received<'a, L: ProxyListener + ?Sized>(
    l: &'a L,
    info: &'a ProxyInfoData,
    r: Result<(), CrankerRouterException>,
) -> bool {
    let shown: &dyn ProxyInfo = info;
    call_ensures(L::on_response_body_chunk_received, (l, shown), r)
}

/// Whether a listener that is told that no socket was found for a request may answer like this.
pub open spec fn may_miss_socket<'a, L: ProxyListener + ?Sized>(
    l: &'a L,
    info: &'a ErrorProxyInfo,
    r: Result<(), CrankerRouterException>,
) -> bool {
    let shown: &dyn ProxyInfo = info;
    call_ensures(L::on_failure_to_acquire_proxy_socket, (l, shown), r)
}

/// What may come of a piece of a request's body that was sent, for one listener: it is told if it
/// asks for the pieces.
pub open spec fn may_take_request_chunk<'a, L: ProxyListener + ?Sized>(
    l: &'a L,
    info: &'a ProxyInfoData,
    chunk: &'a Bytes,
    r: Result<(), CrankerRouterException>,
) -> bool {
    ||| may_need_request_chunks(l, true) && may_take_chunk_sent(l, info, chunk, r)
    ||| may_need_request_chunks(l, false) && r is Ok
}

/// What may come of a piece of a response's body, for one listener: it is told if it asks for the
/// pieces.
pub open spec fn may_take_response_chunk<'a, L: ProxyListener + ?Sized>(
    l: &'a L,
    info: &'a ProxyInfoData,
    chunk: &'a Bytes,
    r: Result<(), CrankerRouterException>,
) -> bool {
    ||| may_need_response_chunks(l, true) && may_take_chunk_received(l, info, chunk, r)
    ||| may_need_response_chunks(l, false) && r is Ok
}

/// What may come of a response that begins, for one listener: it is told that the client is about
/// to be answered and, unless it fails, of the status and the headers.
pub open spec fn may_respond<'a, L: ProxyListener + ?Sized>(
    l: &'a L,
    info: &'a ProxyInfoData,
    status: u16,
    headers: Option<&'a HeaderMap>,
    r: Result<(), CrankerRouterException>,
) -> bool {
    ||| r is Err && may_take_responding(l, info, r)
    ||| may_take_responding(l, info, Ok(())) && may_take_headers_received(
        l,
        info,
        status,
        headers,
        r,
    )
}

/// Whether `answers` are those of the first of `n` listeners, one after the other, up to the first
/// that failed, and `r` is what they come to.
pub open spec fn come_to(
    answers: Seq<Result<(), CrankerRouterException>>,
    n: nat,
    r: Result<(), CrankerRouterException>,
) -> bool {
    &&& answers.len() <= n
    &&& forall|i: int| 0 <= i < answers.len() - 1 ==> (#[trigger] answers[i]) is Ok
    &&& match r {
        Ok(_) => answers.len() == n && forall|i: int| 0 <= i < n ==> (#[trigger] answers[i]) is Ok,
        Err(_) => answers.len() > 0 && answers.last() == r,
    }
}

/// Whether there is an answer from each of `n` listeners: all of them were told, whatever those
/// before them answered.
pub open spec fn all_told(answers: Seq<Result<(), CrankerRouterException>>, n: nat) -> bool {
    answers.len() == n
}

/// Whether an info says what `v` says.
pub open spec fn says(info: ProxyInfoData, v: ProxyInfoView) -> bool {
    info@ == v
}

/// What may come of telling the listeners that the headers were sent.
pub open spec fn told_headers_sent(
    all: Seq<Arc<dyn ProxyListener>>,
    v: ProxyInfoView,
    headers: Option<&HeaderMap>,
    r: Result<(), CrankerRouterException>,
) -> bool {
    exists|info: ProxyInfoData, answers: Seq<Result<(), CrankerRouterException>>|
        #[trigger] says(info, v) && #[trigger] come_to(answers, all.len(), r) && forall|i: int|
            #![trigger answers[i]]
            #![trigger all[i]]
            0 <= i < answers.len() ==> may_take_headers_sent(&*all[i], &info, headers, answers[i])
}

/// What may come of telling the listeners that a request without a body was sent.
pub open spec fn told_bodiless_sent(
    all: Seq<Arc<dyn ProxyListener>>,
    v: ProxyInfoView,
    headers: Option<&HeaderMap>,
    r: Result<(), CrankerRouterException>,
) -> bool {
    exists|info: ProxyInfoData, answers: Seq<Result<(), CrankerRouterException>>|
        #[trigger] says(info, v) && #[trigger] come_to(answers, all.len(), r) && forall|i: int|
            #![trigger answers[i]]
            #![trigger all[i]]
            0 <= i < answers.len() ==> may_take_bodiless_sent(&*all[i], &info, headers, answers[i])
}

/// What may come of telling the listeners of a piece of a request's body before it is sent.
pub open spec fn told_chunk_to_be_sent(
    all: Seq<Arc<dyn ProxyListener>>,
    v: ProxyInfoView,
    chunk: &Bytes,
    r: Result<(), CrankerRouterException>,
) -> bool {
    exists|info: ProxyInfoData, answers: Seq<Result<(), CrankerRouterException>>|
        #[trigger] says(info, v) && #[trigger] come_to(answers, all.len(), r) && forall|i: int|
            #![trigger answers[i]]
            #![trigger all[i]]
            0 <= i < answers.len() ==> may_take_chunk_to_be_sent(&*all[i], &info, chunk, answers[i])
}

/// What may come of telling the listeners of a piece of a request's body that was sent, if they ask
/// for it.
pub open spec fn told_request_chunk(
    all: Seq<Arc<dyn ProxyListener>>,
    v: ProxyInfoView,
    chunk: &Bytes,
    r: Result<(), CrankerRouterException>,
) -> bool {
    exists|info: ProxyInfoData, answers: Seq<Result<(), CrankerRouterException>>|
        #[trigger] says(info, v) && #[trigger] come_to(answers, all.len(), r) && forall|i: int|
            #![trigger answers[i]]
            #![trigger all[i]]
            0 <= i < answers.len() ==> may_take_request_chunk(&*all[i], &info, chunk, answers[i])
}

/// What may come of telling the listeners of a piece of a request's body that was sent.
pub open spec fn told_chunk_sent(
    all: Seq<Arc<dyn ProxyListener>>,
    v: ProxyInfoView,
    chunk: &Bytes,
    r: Result<(), CrankerRouterException>,
) -> bool {
    exists|info: ProxyInfoData, answers: Seq<Result<(), CrankerRouterException>>|
        #[trigger] says(info, v) && #[trigger] come_to(answers, all.len(), r) && forall|i: int|
            #![trigger answers[i]]
            #![trigger all[i]]
            0 <= i < answers.len() ==> may_take_chunk_sent(&*all[i], &info, chunk, answers[i])
}

/// What may come of telling the listeners that a request's body was sent.
pub open spec fn told_body_sent(
    all: Seq<Arc<dyn ProxyListener>>,
    v: ProxyInfoView,
    r: Result<(), CrankerRouterException>,
) -> bool {
    exists|info: ProxyInfoData, answers: Seq<Result<(), CrankerRouterException>>|
        #[trigger] says(info, v) && #[trigger] come_to(answers, all.len(), r) && forall|i: int|
            #![trigger answers[i]]
            #![trigger all[i]]
            0 <= i < answers.len() ==> may_take_body_sent(&*all[i], &info, answers[i])
}

/// What may come of telling the listeners of a response that begins.
pub open spec fn told_responding(
    all: Seq<Arc<dyn ProxyListener>>,
    v: ProxyInfoView,
    status: u16,
    headers: Option<&HeaderMap>,
    r: Result<(), CrankerRouterException>,
) -> bool {
    exists|info: ProxyInfoData, answers: Seq<Result<(), CrankerRouterException>>|
        #[trigger] says(info, v) && #[trigger] come_to(answers, all.len(), r) && forall|i: int|
            #![trigger answers[i]]
            #![trigger all[i]]
            0 <= i < answers.len() ==> may_respond(&*all[i], &info, status, headers, answers[i])
}

/// What may come of telling the listeners of a piece of a response's body, if they ask for it.
pub open spec fn told_response_chunk(
    all: Seq<Arc<dyn ProxyListener>>,
    v: ProxyInfoView,
    chunk: &Bytes,
    r: Result<(), CrankerRouterException>,
) -> bool {
    exists|info: ProxyInfoData, answers: Seq<Result<(), CrankerRouterException>>|
        #[trigger] says(info, v) && #[trigger] come_to(answers, all.len(), r) && forall|i: int|
            #![trigger answers[i]]
            #![trigger all[i]]
            0 <= i < answers.len() ==> may_take_response_chunk(&*all[i], &info, chunk, answers[i])
}

/// What may come of telling the listeners that a request is over.
pub open spec fn told_complete(
    all: Seq<Arc<dyn ProxyListener>>,
    v: ProxyInfoView,
    r: Result<(), CrankerRouterException>,
) -> bool {
    exists|info: ProxyInfoData, answers: Seq<Result<(), CrankerRouterException>>|
        #[trigger] says(info, v) && #[trigger] come_to(answers, all.len(), r) && forall|i: int|
            #![trigger answers[i]]
            #![trigger all[i]]
            0 <= i < answers.len() ==> may_take_complete(&*all[i], &info, answers[i])
}

/// Whether `asked` of `n` listeners need nothing, and then comes one that does if `found`, or else
/// none.
pub open spec fn needs_end_at(asked: int, n: nat, found: bool) -> bool {
    if found {
        0 <= asked < n
    } else {
        asked == n
    }
}

/// Whether the listeners may say this of whether some of them asks for the pieces of a request's
/// body. They are asked one after the other up to the first that does.
pub open spec fn say_some_need(all: Seq<Arc<dyn ProxyListener>>, r: bool) -> bool {
    exists|asked: int|
        #[trigger] needs_end_at(asked, all.len(), r) && (r ==> may_need_request_chunks(
            &*all[asked],
            true,
        )) && forall|i: int|
            0 <= i < asked ==> may_need_request_chunks(&*(#[trigger] all[i]), false)
}

/// Whether the listeners may say this of whether some of them asks for the pieces of a response's
/// body. They are asked one after the other up to the first that does.
pub open spec fn say_some_need_response(all: Seq<Arc<dyn ProxyListener>>, r: bool) -> bool {
    exists|asked: int|
        #[trigger] needs_end_at(asked, all.len(), r) && (r ==> may_need_response_chunks(
            &*all[asked],
            true,
        )) && forall|i: int|
            0 <= i < asked ==> may_need_response_chunks(&*(#[trigger] all[i]), false)
}

/// Whether headers went from `from` to `to` in `n` steps, with `maps` as they were in between.
pub open spec fn lead_to(maps: Seq<HeaderMap>, n: nat, from: HeaderMap, to: HeaderMap) -> bool {
    &&& maps.len() == n + 1
    &&& maps[0] == from
    &&& maps.last() == to
}

/// Whether step `i` took the headers from `from` to `to`.
pub open spec fn step_is(maps: Seq<HeaderMap>, i: int, from: HeaderMap, to: HeaderMap) -> bool {
    &&& maps[i] == from
    &&& maps[i + 1] == to
}

/// What a result says of success, without its value.
pub open spec fn outcome<T>(r: Result<T, CrankerRouterException>) -> Result<
    (),
    CrankerRouterException,
> {
    match r {
        Ok(_) => Ok(()),
        Err(e) => Err(e),
    }
}

/// Whether headers went in `n` steps from ones with these entries to those of `r`, if it has
/// some, with `maps` as they were in between.
pub open spec fn leave(
    maps: Seq<HeaderMap>,
    n: nat,
    first: Seq<Entry>,
    r: Result<HeaderMap, CrankerRouterException>,
) -> bool {
    &&& maps.len() == n + 1
    &&& headers::entries(maps[0]) == first
    &&& r matches Ok(h) ==> maps.last() == h
}

/// Lets one listener change the headers to the target.
fn prepare<L: ProxyListener + ?Sized>(
    l: &L,
    info: &ProxyInfoData,
    hdr_to_tgt: &mut HeaderMap,
) -> (r: Result<(), CrankerRouterException>)
    ensures
        exists|m: &mut HeaderMap|
            *m == *old(hdr_to_tgt) && *final(m) == *final(hdr_to_tgt) && #[trigger] may_prepare(
                (l, info, m),
                r,
            ),
{
    let ghost before = *hdr_to_tgt;
    let shown: &dyn ProxyInfo = info;
    let r = l.on_before_proxy_to_target(shown, hdr_to_tgt);
    proof {
        let m = choose|m: &mut HeaderMap|
            *m == before && *final(m) == *hdr_to_tgt && #[trigger] call_ensures(
                L::on_before_proxy_to_target,
                (l, shown, m),
                r,
            );
        assert(may_prepare((l, info, m), r));
    }
    r
}

/// Tells the listeners that a request is about to go to the target. They may change its headers:
/// each is handed what the one before it has left.
pub fn before_proxy_to_target(
    listeners: &Listeners,
    info: &ProxyInfoData,
    hdr_to_tgt: &mut HeaderMap,
) -> (r: Result<(), CrankerRouterException>)
    ensures
        listeners@.len() == 0 ==> r is Ok && *final(hdr_to_tgt) == *old(hdr_to_tgt),
        exists|answers: Seq<Result<(), CrankerRouterException>>, maps: Seq<HeaderMap>|
            #[trigger] come_to(answers, listeners@.len(), r) && #[trigger] lead_to(
                maps,
                answers.len(),
                *old(hdr_to_tgt),
                *final(hdr_to_tgt),
            ) && forall|i: int, from: HeaderMap, to: HeaderMap|
                0 <= i < answers.len() && #[trigger] step_is(maps, i, from, to)
                    ==> exists|m: &mut HeaderMap|
                    *m == from && *final(m) == to && #[trigger] may_prepare(
                        (&*listeners@[i], info, m),
                        answers[i],
                    ),
{
    let mut i: usize = 0;
    let ghost mut answers: Seq<Result<(), CrankerRouterException>> = Seq::empty();
    let ghost mut maps: Seq<HeaderMap> = seq![*hdr_to_tgt];
    while i < listeners.len()
        invariant
            i <= listeners.len(),
            answers.len() == i,
            lead_to(maps, answers.len(), *old(hdr_to_tgt), *hdr_to_tgt),
            forall|j: int| 0 <= j < i ==> (#[trigger] answers[j]) is Ok,
            forall|j: int, from: HeaderMap, to: HeaderMap|
                0 <= j < i && #[trigger] step_is(maps, j, from, to) ==> exists|m: &mut HeaderMap|
                    *m == from && *final(m) == to && #[trigger] may_prepare(
                        (&*listeners@[j], info, m),
                        answers[j],
                    ),
        decreases listeners.len() - i,
    {
        let ghost answers0 = answers;
        let ghost maps0 = maps;
        let told = prepare(&*listeners[i], info, hdr_to_tgt);
        proof {
            answers = answers.push(told);
            maps = maps.push(*hdr_to_tgt);
            assert forall|j: int, from: HeaderMap, to: HeaderMap|
                0 <= j <= i && #[trigger] step_is(maps, j, from, to) implies exists|
                m: &mut HeaderMap,
            |
                *m == from && *final(m) == to && #[trigger] may_prepare(
                    (&*listeners@[j], info, m),
                    answers[j],
                ) by {
                if j < i {
                    assert(step_is(maps0, j, from, to));
                    assert(answers[j] == answers0[j]);
                } else {
                    assert(from == maps0.last() && to == *hdr_to_tgt);
                    assert(answers[j] == told);
                }
            }
        }
        if let Err(e) = told {
            assert(come_to(answers, listeners@.len(), Err(e)));
            assert(lead_to(maps, answers.len(), *old(hdr_to_tgt), *final(hdr_to_tgt)));
            return Err(e);
        }
        i = i + 1;
    }
    assert(come_to(answers, listeners@.len(), Ok(())));
    assert(lead_to(maps, answers.len(), *old(hdr_to_tgt), *final(hdr_to_tgt)));
    Ok(())
}

/// Tells the listeners that the headers of a request were sent.
pub fn headers_sent_to_target(
    listeners: &Listeners,
    info: &ProxyInfoData,
    headers: &HeaderMap,
) -> (r: Result<(), CrankerRouterException>)
    ensures
        listeners@.len() == 0 ==> r is Ok,
        told_headers_sent(listeners@, info@, Some(headers), r),
{
    let mut i: usize = 0;
    assert(says(*info, info@));
    let ghost mut answers: Seq<Result<(), CrankerRouterException>> = Seq::empty();
    while i < listeners.len()
        invariant
            i <= listeners.len(),
            says(*info, info@),
            answers.len() == i,
            forall|j: int| 0 <= j < i ==> (#[trigger] answers[j]) is Ok,
            forall|j: int|
                0 <= j < i ==> #[trigger] may_take_headers_sent(
                    &*listeners@[j],
                    info,
                    Some(headers),
                    answers[j],
                ),
        decreases listeners.len() - i,
    {
        let shown: &dyn ProxyInfo = info;
        let told = listeners[i].on_after_proxy_to_target_headers_sent(shown, Some(headers));
        proof {
            answers = answers.push(told);
        }
        if let Err(e) = told {
            assert(come_to(answers, listeners@.len(), Err(e)));
            return Err(e);
        }
        i = i + 1;
    }
    assert(come_to(answers, listeners@.len(), Ok(())));
    Ok(())
}

/// Tells the listeners that a request without a body was sent: each of them that the headers were
/// and then that the body was, before the next is told anything.
pub fn bodiless_sent_to_target(
    listeners: &Listeners,
    info: &ProxyInfoData,
    headers: &HeaderMap,
) -> (r: Result<(), CrankerRouterException>)
    ensures
        listeners@.len() == 0 ==> r is Ok,
        told_bodiless_sent(listeners@, info@, Some(headers), r),
{
    let mut i: usize = 0;
    assert(says(*info, info@));
    let ghost mut answers: Seq<Result<(), CrankerRouterException>> = Seq::empty();
    while i < listeners.len()
        invariant
            i <= listeners.len(),
            says(*info, info@),
            answers.len() == i,
            forall|j: int| 0 <= j < i ==> (#[trigger] answers[j]) is Ok,
            forall|j: int|
                0 <= j < i ==> #[trigger] may_take_bodiless_sent(
                    &*listeners@[j],
                    info,
                    Some(headers),
                    answers[j],
                ),
        decreases listeners.len() - i,
    {
        let shown: &dyn ProxyInfo = info;
        let told_headers = listeners[i].on_after_proxy_to_target_headers_sent(shown, Some(headers));
        assert(told_headers is Ok ==> told_headers->Ok_0 == ());
        let told = match told_headers {
            Ok(_) => {
                let shown: &dyn ProxyInfo = info;
                listeners[i].on_request_body_sent_to_target(shown)
            },
            Err(e) => Err(e),
        };
        proof {
            answers = answers.push(told);
        }
        if let Err(e) = told {
            assert(come_to(answers, listeners@.len(), Err(e)));
            return Err(e);
        }
        i = i + 1;
    }
    assert(come_to(answers, listeners@.len(), Ok(())));
    Ok(())
}

/// Tells the listeners of a piece of a request's body that is about to be sent.
pub fn request_body_chunk_to_be_sent(
    listeners: &Listeners,
    info: &ProxyInfoData,
    chunk: &Bytes,
) -> (r: Result<(), CrankerRouterException>)
    ensures
        listeners@.len() == 0 ==> r is Ok,
        told_chunk_to_be_sent(listeners@, info@, chunk, r),
{
    let mut i: usize = 0;
    assert(says(*info, info@));
    let ghost mut answers: Seq<Result<(), CrankerRouterException>> = Seq::empty();
    while i < listeners.len()
        invariant
            i <= listeners.len(),
            says(*info, info@),
            answers.len() == i,
            forall|j: int| 0 <= j < i ==> (#[trigger] answers[j]) is Ok,
            forall|j: int|
                0 <= j < i ==> #[trigger] may_take_chunk_to_be_sent(
                    &*listeners@[j],
                    info,
                    chunk,
                    answers[j],
                ),
        decreases listeners.len() - i,
    {
        let shown: &dyn ProxyInfo = info;
        let told = listeners[i].on_before_request_body_chunk_sent_to_target(shown, chunk);
        proof {
            answers = answers.push(told);
        }
        if let Err(e) = told {
            assert(come_to(answers, listeners@.len(), Err(e)));
            return Err(e);
        }
        i = i + 1;
    }
    assert(come_to(answers, listeners@.len(), Ok(())));
    Ok(())
}

/// Tells those listeners of a piece of a request's body that was sent that ask for it.
pub fn request_body_chunk_asked_for(
    listeners: &Listeners,
    info: &ProxyInfoData,
    chunk: &Bytes,
) -> (r: Result<(), CrankerRouterException>)
    ensures
        listeners@.len() == 0 ==> r is Ok,
        told_request_chunk(listeners@, info@, chunk, r),
{
    let mut i: usize = 0;
    assert(says(*info, info@));
    let ghost mut answers: Seq<Result<(), CrankerRouterException>> = Seq::empty();
    while i < listeners.len()
        invariant
            i <= listeners.len(),
            says(*info, info@),
            answers.len() == i,
            forall|j: int| 0 <= j < i ==> (#[trigger] answers[j]) is Ok,
            forall|j: int|
                0 <= j < i ==> #[trigger] may_take_request_chunk(
                    &*listeners@[j],
                    info,
                    chunk,
                    answers[j],
                ),
        decreases listeners.len() - i,
    {
        let shown: &dyn ProxyInfo = info;
        let told = if listeners[i].really_need_on_request_body_chunk_sent_to_target() {
            listeners[i].on_request_body_chunk_sent_to_target(shown, chunk)
        } else {
            Ok(())
        };
        proof {
            answers = answers.push(told);
        }
        if let Err(e) = told {
            assert(come_to(answers, listeners@.len(), Err(e)));
            return Err(e);
        }
        i = i + 1;
    }
    assert(come_to(answers, listeners@.len(), Ok(())));
    Ok(())
}

/// Tells the listeners of a piece of a request's body that was sent.
pub fn request_body_chunk_sent(
    listeners: &Listeners,
    info: &ProxyInfoData,
    chunk: &Bytes,
) -> (r: Result<(), CrankerRouterException>)
    ensures
        listeners@.len() == 0 ==> r is Ok,
        told_chunk_sent(listeners@, info@, chunk, r),
{
    let mut i: usize = 0;
    assert(says(*info, info@));
    let ghost mut answers: Seq<Result<(), CrankerRouterException>> = Seq::empty();
    while i < listeners.len()
        invariant
            i <= listeners.len(),
            says(*info, info@),
            answers.len() == i,
            forall|j: int| 0 <= j < i ==> (#[trigger] answers[j]) is Ok,
            forall|j: int|
                0 <= j < i ==> #[trigger] may_take_chunk_sent(
                    &*listeners@[j],
                    info,
                    chunk,
                    answers[j],
                ),
        decreases listeners.len() - i,
    {
        let shown: &dyn ProxyInfo = info;
        let told = listeners[i].on_request_body_chunk_sent_to_target(shown, chunk);
        proof {
            answers = answers.push(told);
        }
        if let Err(e) = told {
            assert(come_to(answers, listeners@.len(), Err(e)));
            return Err(e);
        }
        i = i + 1;
    }
    assert(come_to(answers, listeners@.len(), Ok(())));
    Ok(())
}

/// Tells the listeners that a request's body was sent.
pub fn request_body_sent(
    listeners: &Listeners,
    info: &ProxyInfoData,
) -> (r: Result<(), CrankerRouterException>)
    ensures
        listeners@.len() == 0 ==> r is Ok,
        told_body_sent(listeners@, info@, r),
{
    let mut i: usize = 0;
    assert(says(*info, info@));
    let ghost mut answers: Seq<Result<(), CrankerRouterException>> = Seq::empty();
    while i < listeners.len()
        invariant
            i <= listeners.len(),
            says(*info, info@),
            answers.len() == i,
            forall|j: int| 0 <= j < i ==> (#[trigger] answers[j]) is Ok,
            forall|j: int|
                0 <= j < i ==> #[trigger] may_take_body_sent(
                    &*listeners@[j],
                    info,
                    answers[j],
                ),
        decreases listeners.len() - i,
    {
        let shown: &dyn ProxyInfo = info;
        let told = listeners[i].on_request_body_sent_to_target(shown);
        proof {
            answers = answers.push(told);
        }
        if let Err(e) = told {
            assert(come_to(answers, listeners@.len(), Err(e)));
            return Err(e);
        }
        i = i + 1;
    }
    assert(come_to(answers, listeners@.len(), Ok(())));
    Ok(())
}

/// Tells the listeners that the client is about to be answered, and with what.
pub fn responding(
    listeners: &Listeners,
    info: &ProxyInfoData,
    status: u16,
    headers: Option<&HeaderMap>,
) -> (r: Result<(), CrankerRouterException>)
    ensures
        listeners@.len() == 0 ==> r is Ok,
        told_responding(listeners@, info@, status, headers, r),
{
    let mut i: usize = 0;
    assert(says(*info, info@));
    let ghost mut answers: Seq<Result<(), CrankerRouterException>> = Seq::empty();
    while i < listeners.len()
        invariant
            i <= listeners.len(),
            says(*info, info@),
            answers.len() == i,
            forall|j: int| 0 <= j < i ==> (#[trigger] answers[j]) is Ok,
            forall|j: int|
                0 <= j < i ==> #[trigger] may_respond(
                    &*listeners@[j],
                    info,
                    status,
                    headers,
                    answers[j],
                ),
        decreases listeners.len() - i,
    {
        let shown: &dyn ProxyInfo = info;
        let first = listeners[i].on_before_responding_to_client(shown);
        assert(first is Ok ==> first->Ok_0 == ());
        let told = match first {
            Ok(_) => listeners[i].on_after_target_to_proxy_headers_received(shown, status, headers),
            Err(e) => Err(e),
        };
        proof {
            answers = answers.push(told);
        }
        if let Err(e) = told {
            assert(come_to(answers, listeners@.len(), Err(e)));
            return Err(e);
        }
        i = i + 1;
    }
    assert(come_to(answers, listeners@.len(), Ok(())));
    Ok(())
}

/// Tells those listeners of a piece of a response's body that ask for it.
pub fn response_body_chunk_asked_for(
    listeners: &Listeners,
    info: &ProxyInfoData,
    chunk: &Bytes,
) -> (r: Result<(), CrankerRouterException>)
    ensures
        listeners@.len() == 0 ==> r is Ok,
        told_response_chunk(listeners@, info@, chunk, r),
{
    let mut i: usize = 0;
    assert(says(*info, info@));
    let ghost mut answers: Seq<Result<(), CrankerRouterException>> = Seq::empty();
    while i < listeners.len()
        invariant
            i <= listeners.len(),
            says(*info, info@),
            answers.len() == i,
            forall|j: int| 0 <= j < i ==> (#[trigger] answers[j]) is Ok,
            forall|j: int|
                0 <= j < i ==> #[trigger] may_take_response_chunk(
                    &*listeners@[j],
                    info,
                    chunk,
                    answers[j],
                ),
        decreases listeners.len() - i,
    {
        let shown: &dyn ProxyInfo = info;
        let told = if listeners[i].really_need_on_response_body_chunk_received_from_target() {
            listeners[i].on_response_body_chunk_received_from_target(shown, chunk)
        } else {
            Ok(())
        };
        proof {
            answers = answers.push(told);
        }
        if let Err(e) = told {
            assert(come_to(answers, listeners@.len(), Err(e)));
            return Err(e);
        }
        i = i + 1;
    }
    assert(come_to(answers, listeners@.len(), Ok(())));
    Ok(())
}

/// Tells the listeners that a request is over.
pub fn complete(
    listeners: &Listeners,
    info: &ProxyInfoData,
) -> (r: Result<(), CrankerRouterException>)
    ensures
        listeners@.len() == 0 ==> r is Ok,
        told_complete(listeners@, info@, r),
{
    let mut i: usize = 0;
    assert(says(*info, info@));
    let ghost mut answers: Seq<Result<(), CrankerRouterException>> = Seq::empty();
    while i < listeners.len()
        invariant
            i <= listeners.len(),
            says(*info, info@),
            answers.len() == i,
            forall|j: int| 0 <= j < i ==> (#[trigger] answers[j]) is Ok,
            forall|j: int|
                0 <= j < i ==> #[trigger] may_take_complete(
                    &*listeners@[j],
                    info,
                    answers[j],
                ),
        decreases listeners.len() - i,
    {
        let shown: &dyn ProxyInfo = info;
        let told = listeners[i].on_complete(shown);
        proof {
            answers = answers.push(told);
        }
        if let Err(e) = told {
            assert(come_to(answers, listeners@.len(), Err(e)));
            return Err(e);
        }
        i = i + 1;
    }
    assert(come_to(answers, listeners@.len(), Ok(())));
    Ok(())
}

/// Tells all listeners that a request is over, whatever they answer.
pub fn complete_whatever_they_answer(listeners: &Listeners, info: &ProxyInfoData)
    ensures
        exists|answers: Seq<Result<(), CrankerRouterException>>| #[trigger]
            all_told(answers, listeners@.len()) && forall|i: int|
                #![trigger answers[i]]
                0 <= i < answers.len() ==> may_take_complete(&*listeners@[i], info, answers[i]),
{
    let mut i: usize = 0;
    let ghost mut answers: Seq<Result<(), CrankerRouterException>> = Seq::empty();
    while i < listeners.len()
        invariant
            i <= listeners.len(),
            answers.len() == i,
            forall|j: int|
                #![trigger answers[j]]
                0 <= j < i ==> may_take_complete(&*listeners@[j], info, answers[j]),
        decreases listeners.len() - i,
    {
        let shown: &dyn ProxyInfo = info;
        let told = listeners[i].on_complete(shown);
        proof {
            answers = answers.push(told);
        }
        i = i + 1;
    }
    assert(all_told(answers, listeners@.len()));
}

/// Tells all listeners that a response's body has come, whatever they answer.
pub fn response_body_received(listeners: &Listeners, info: &ProxyInfoData)
    ensures
        exists|answers: Seq<Result<(), CrankerRouterException>>| #[trigger]
            all_told(answers, listeners@.len()) && forall|i: int|
                #![trigger answers[i]]
                0 <= i < answers.len() ==> may_take_body_received(
                    &*listeners@[i],
                    info,
                    answers[i],
                ),
{
    let mut i: usize = 0;
    let ghost mut answers: Seq<Result<(), CrankerRouterException>> = Seq::empty();
    while i < listeners.len()
        invariant
            i <= listeners.len(),
            answers.len() == i,
            forall|j: int|
                #![trigger answers[j]]
                0 <= j < i ==> may_take_body_received(&*listeners@[j], info, answers[j]),
        decreases listeners.len() - i,
    {
        let shown: &dyn ProxyInfo = info;
        let told = listeners[i].on_response_body_chunk_received(shown);
        proof {
            answers = answers.push(told);
        }
        i = i + 1;
    }
    assert(all_told(answers, listeners@.len()));
}

/// Tells all listeners that no socket was found for a request, whatever they answer.
pub fn no_socket(listeners: &Listeners, info: &ErrorProxyInfo)
    ensures
        exists|answers: Seq<Result<(), CrankerRouterException>>| #[trigger]
            all_told(answers, listeners@.len()) && forall|i: int|
                #![trigger answers[i]]
                0 <= i < answers.len() ==> may_miss_socket(&*listeners@[i], info, answers[i]),
{
    let mut i: usize = 0;
    let ghost mut answers: Seq<Result<(), CrankerRouterException>> = Seq::empty();
    while i < listeners.len()
        invariant
            i <= listeners.len(),
            answers.len() == i,
            forall|j: int|
                #![trigger answers[j]]
                0 <= j < i ==> may_miss_socket(&*listeners@[j], info, answers[j]),
        decreases listeners.len() - i,
    {
        let shown: &dyn ProxyInfo = info;
        let told = listeners[i].on_failure_to_acquire_proxy_socket(shown);
        proof {
            answers = answers.push(told);
        }
        i = i + 1;
    }
    assert(all_told(answers, listeners@.len()));
}

/// Whether some listener asks for the pieces of a request's body. Those behind the first that does
/// are not asked.
pub fn some_need_request_chunks(listeners: &Listeners) -> (r: bool)
    ensures
        listeners@.len() == 0 ==> !r,
        say_some_need(listeners@, r),
{
    let mut i: usize = 0;
    while i < listeners.len()
        invariant
            i <= listeners.len(),
            forall|j: int|
                0 <= j < i ==> may_need_request_chunks(&*(#[trigger] listeners@[j]), false),
        decreases listeners.len() - i,
    {
        if listeners[i].really_need_on_request_body_chunk_sent_to_target() {
            assert(needs_end_at(i as int, listeners@.len(), true));
            return true;
        }
        i = i + 1;
    }
    assert(needs_end_at(i as int, listeners@.len(), false));
    false
}

/// Whether some listener asks for the pieces of a response's body. Those behind the first that
/// does are not asked.
pub fn some_need_response_chunks(listeners: &Listeners) -> (r: bool)
    ensures
        listeners@.len() == 0 ==> !r,
        say_some_need_response(listeners@, r),
{
    let mut i: usize = 0;
    while i < listeners.len()
        invariant
            i <= listeners.len(),
            forall|j: int|
                0 <= j < i ==> may_need_response_chunks(&*(#[trigger] listeners@[j]), false),
        decreases listeners.len() - i,
    {
        if listeners[i].really_need_on_response_body_chunk_received_from_target() {
            assert(needs_end_at(i as int, listeners@.len(), true));
            return true;
        }
        i = i + 1;
    }
    assert(needs_end_at(i as int, listeners@.len(), false));
    false
}

} // verus!
