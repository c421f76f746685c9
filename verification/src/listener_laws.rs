//! How the listeners are told, and what comes of what they answer.

use crate::exceptions::CrankerRouterException;
use crate::listeners::{
    before_proxy_to_target, bodiless_sent_to_target, come_to, complete, headers_sent_to_target,
    may_miss_socket, may_need_request_chunks, may_need_response_chunks, may_respond,
    may_take_bodiless_sent, may_take_body_received, may_take_body_sent, may_take_chunk_received,
    may_take_chunk_sent, may_take_chunk_to_be_sent, may_take_complete, may_take_headers_received,
    may_take_headers_sent, may_take_request_chunk, may_take_responding, may_take_response_chunk,
    needs_end_at,
    request_body_chunk_asked_for, request_body_chunk_sent, request_body_chunk_to_be_sent,
    request_body_sent, responding, response_body_chunk_asked_for, says, some_need_request_chunks,
    some_need_response_chunks, Listeners,
};
use crate::proxy_info::{ProxyInfo, ProxyInfoData};
use crate::proxy_listener::ProxyListener;
use crate::websocket_farm::ErrorProxyInfo;
use axum::http::HeaderMap;
use bytes::Bytes;
use vstd::prelude::*;

verus! {

/// What a listener answers.
pub type Answer = Result<(), CrankerRouterException>;

/// Whether `r` is what comes of asking `n` listeners one after the other up to the first that
/// fails, where the `i`th may give the answers that `may` says: the first failure, or none.
pub open spec fn first_failure(n: nat, may: spec_fn(int, Answer) -> bool, r: Answer) -> bool {
    match r {
        Ok(_) => forall|i: int| 0 <= i < n ==> #[trigger] may(i, Ok(())),
        Err(_) => exists|k: int|
            0 <= k < n && #[trigger] may(k, r) && forall|i: int|
                0 <= i < k ==> #[trigger] may(i, Ok(())),
    }
}

/// The answers of listeners come to the first failure among them, or to none.
proof fn lemma_first_failure(
    answers: Seq<Answer>,
    n: nat,
    may: spec_fn(int, Answer) -> bool,
    r: Answer,
)
    requires
        come_to(answers, n, r),
        forall|i: int| 0 <= i < answers.len() ==> may(i, #[trigger] answers[i]),
    ensures
        first_failure(n, may, r),
{
    assert forall|i: int| 0 <= i < answers.len() && (#[trigger] answers[i]) is Ok implies may(
        i,
        Ok(()),
    ) by {
        assert(answers[i]->Ok_0 == ());
        assert(answers[i] == Ok::<(), CrankerRouterException>(()));
    }
    if r is Err {
        let k = answers.len() - 1;
        assert(may(k, answers[k]));
        assert forall|i: int| 0 <= i < k implies #[trigger] may(i, Ok(())) by {
            assert(answers[i] is Ok);
        }
    } else {
        assert forall|i: int| 0 <= i < n implies #[trigger] may(i, Ok(())) by {
            assert(answers[i] is Ok);
        }
    }
}

/// A listener that never agrees stops the request: what comes of asking is then an error, and it is
/// that of this listener or of one before it. Where none ever fails nothing is stopped.
pub proof fn law_failure_stops(n: nat, may: spec_fn(int, Answer) -> bool, r: Answer, k: int)
    requires
        first_failure(n, may, r),
    ensures
        0 <= k < n && !may(k, Ok(())) ==> r is Err && exists|i: int|
            0 <= i <= k && #[trigger] may(i, r),
        (forall|i: int, e: CrankerRouterException| 0 <= i < n ==> !#[trigger] may(i, Err(e)))
            ==> r is Ok,
{
    if r is Err {
        let j = choose|j: int|
            0 <= j < n && #[trigger] may(j, r) && forall|i: int|
                0 <= i < j ==> #[trigger] may(i, Ok(()));
        assert(may(j, Err(r->Err_0)));
        if 0 <= k < n && !may(k, Ok(())) {
            assert(j <= k);
        }
    } else {
        assert(r->Ok_0 == ());
    }
}

/// What a listener may answer is what the hook of its name may: each hook is asked where its time
/// has come, and with what it is to be told.
pub proof fn law_hooks<'a, L: ProxyListener>(
    l: &'a L,
    info: &'a ProxyInfoData,
    error: &'a ErrorProxyInfo,
    headers: Option<&'a HeaderMap>,
    chunk: &'a Bytes,
    status: u16,
    need: bool,
    r: Answer,
)
    ensures
        ({
            let shown: &dyn ProxyInfo = info;
            let missed: &dyn ProxyInfo = error;
            &&& may_need_request_chunks(l, need) <==> call_ensures(
                L::really_need_on_request_body_chunk_sent_to_target,
                (l,),
                need,
            )
            &&& may_need_response_chunks(l, need) <==> call_ensures(
                L::really_need_on_response_body_chunk_received_from_target,
                (l,),
                need,
            )
            &&& may_take_headers_sent(l, info, headers, r) <==> call_ensures(
                L::on_after_proxy_to_target_headers_sent,
                (l, shown, headers),
                r,
            )
            &&& may_take_chunk_to_be_sent(l, info, chunk, r) <==> call_ensures(
                L::on_before_request_body_chunk_sent_to_target,
                (l, shown, chunk),
                r,
            )
            &&& may_take_chunk_sent(l, info, chunk, r) <==> call_ensures(
                L::on_request_body_chunk_sent_to_target,
                (l, shown, chunk),
                r,
            )
            &&& may_take_body_sent(l, info, r) <==> call_ensures(
                L::on_request_body_sent_to_target,
                (l, shown),
                r,
            )
            &&& may_take_responding(l, info, r) <==> call_ensures(
                L::on_before_responding_to_client,
                (l, shown),
                r,
            )
            &&& may_take_headers_received(l, info, status, headers, r) <==> call_ensures(
                L::on_after_target_to_proxy_headers_received,
                (l, shown, status, headers),
                r,
            )
            &&& may_take_chunk_received(l, info, chunk, r) <==> call_ensures(
                L::on_response_body_chunk_received_from_target,
                (l, shown, chunk),
                r,
            )
            &&& may_take_complete(l, info, r) <==> call_ensures(L::on_complete, (l, shown), r)
            &&& may_take_body_received(l, info, r) <==> call_ensures(
                L::on_response_body_chunk_received,
                (l, shown),
                r,
            )
            &&& may_miss_socket(l, error, r) <==> call_ensures(
                L::on_failure_to_acquire_proxy_socket,
                (l, missed),
                r,
            )
        }),
{
}

/// A listener that needs no pieces is told of none and cannot stop anything, and one that needs
/// them is told. Of two things that follow each other it is told the second only if it has agreed
/// to the first.
pub proof fn law_listener_is_told_in_order<'a, L: ProxyListener>(
    l: &'a L,
    info: &'a ProxyInfoData,
    headers: Option<&'a HeaderMap>,
    chunk: &'a Bytes,
    status: u16,
    r: Answer,
)
    ensures
        may_take_request_chunk(l, info, chunk, r) && !may_need_request_chunks(l, true) ==> r is Ok,
        may_take_request_chunk(l, info, chunk, r) && !may_need_request_chunks(l, false)
            ==> may_take_chunk_sent(l, info, chunk, r),
        may_take_response_chunk(l, info, chunk, r) && !may_need_response_chunks(l, true)
            ==> r is Ok,
        may_take_response_chunk(l, info, chunk, r) && !may_need_response_chunks(l, false)
            ==> may_take_chunk_received(l, info, chunk, r),
        may_respond(l, info, status, headers, r) && !may_take_responding(l, info, Ok(()))
            ==> r is Err && may_take_responding(l, info, r),
        may_respond(l, info, status, headers, r) && r is Ok ==> may_take_responding(l, info, r)
            && may_take_headers_received(l, info, status, headers, r),
        may_take_bodiless_sent(l, info, headers, r) && !may_take_headers_sent(
            l,
            info,
            headers,
            Ok(()),
        ) ==> r is Err && may_take_headers_sent(l, info, headers, r),
        may_take_bodiless_sent(l, info, headers, r) && r is Ok ==> may_take_headers_sent(
            l,
            info,
            headers,
            r,
        ) && may_take_body_sent(l, info, r),
{
    if r is Ok {
        assert(r->Ok_0 == ());
        assert(r == Ok::<(), CrankerRouterException>(()));
    }
}

/// All listeners are told that the headers were sent, up to the first that fails.
pub proof fn law_headers_sent(
    listeners: &Listeners,
    info: &ProxyInfoData,
    headers: &HeaderMap,
    r: Answer,
) -> (shown: ProxyInfoData)
    requires
        call_ensures(headers_sent_to_target, (listeners, info, headers), r),
    ensures
        shown@ == info@,
        first_failure(
            listeners@.len(),
            |i: int, a: Answer| may_take_headers_sent(&*listeners@[i], &shown, Some(headers), a),
            r,
        ),
{
    let (shown, answers) = choose|shown: ProxyInfoData, answers: Seq<Answer>|
        #[trigger] says(shown, info@) && #[trigger] come_to(answers, listeners@.len(), r)
            && forall|i: int|
            #![trigger answers[i]]
            #![trigger listeners@[i]]
            0 <= i < answers.len() ==> may_take_headers_sent(
                &*listeners@[i],
                &shown,
                Some(headers),
                answers[i],
            );
    lemma_first_failure(
        answers,
        listeners@.len(),
        |i: int, a: Answer| may_take_headers_sent(&*listeners@[i], &shown, Some(headers), a),
        r,
    );
    shown
}

/// All listeners are told that a request without a body was sent, up to the first that fails.
pub proof fn law_bodiless_sent(
    listeners: &Listeners,
    info: &ProxyInfoData,
    headers: &HeaderMap,
    r: Answer,
) -> (shown: ProxyInfoData)
    requires
        call_ensures(bodiless_sent_to_target, (listeners, info, headers), r),
    ensures
        shown@ == info@,
        first_failure(
            listeners@.len(),
            |i: int, a: Answer| may_take_bodiless_sent(&*listeners@[i], &shown, Some(headers), a),
            r,
        ),
{
    let (shown, answers) = choose|shown: ProxyInfoData, answers: Seq<Answer>|
        #[trigger] says(shown, info@) && #[trigger] come_to(answers, listeners@.len(), r)
            && forall|i: int|
            #![trigger answers[i]]
            #![trigger listeners@[i]]
            0 <= i < answers.len() ==> may_take_bodiless_sent(
                &*listeners@[i],
                &shown,
                Some(headers),
                answers[i],
            );
    lemma_first_failure(
        answers,
        listeners@.len(),
        |i: int, a: Answer| may_take_bodiless_sent(&*listeners@[i], &shown, Some(headers), a),
        r,
    );
    shown
}

/// All listeners are told of a piece of the body that is about to be sent, up to the first that
/// fails.
pub proof fn law_chunk_to_be_sent(
    listeners: &Listeners,
    info: &ProxyInfoData,
    chunk: &Bytes,
    r: Answer,
) -> (shown: ProxyInfoData)
    requires
        call_ensures(request_body_chunk_to_be_sent, (listeners, info, chunk), r),
    ensures
        shown@ == info@,
        first_failure(
            listeners@.len(),
            |i: int, a: Answer| may_take_chunk_to_be_sent(&*listeners@[i], &shown, chunk, a),
            r,
        ),
{
    let (shown, answers) = choose|shown: ProxyInfoData, answers: Seq<Answer>|
        #[trigger] says(shown, info@) && #[trigger] come_to(answers, listeners@.len(), r)
            && forall|i: int|
            #![trigger answers[i]]
            #![trigger listeners@[i]]
            0 <= i < answers.len() ==> may_take_chunk_to_be_sent(
                &*listeners@[i],
                &shown,
                chunk,
                answers[i],
            );
    lemma_first_failure(
        answers,
        listeners@.len(),
        |i: int, a: Answer| may_take_chunk_to_be_sent(&*listeners@[i], &shown, chunk, a),
        r,
    );
    shown
}

/// All listeners that ask for the pieces of the body are told of one that was sent, up to the first
/// that fails.
pub proof fn law_chunk_asked_for(
    listeners: &Listeners,
    info: &ProxyInfoData,
    chunk: &Bytes,
    r: Answer,
) -> (shown: ProxyInfoData)
    requires
        call_ensures(request_body_chunk_asked_for, (listeners, info, chunk), r),
    ensures
        shown@ == info@,
        first_failure(
            listeners@.len(),
            |i: int, a: Answer| may_take_request_chunk(&*listeners@[i], &shown, chunk, a),
            r,
        ),
{
    let (shown, answers) = choose|shown: ProxyInfoData, answers: Seq<Answer>|
        #[trigger] says(shown, info@) && #[trigger] come_to(answers, listeners@.len(), r)
            && forall|i: int|
            #![trigger answers[i]]
            #![trigger listeners@[i]]
            0 <= i < answers.len() ==> may_take_request_chunk(
                &*listeners@[i],
                &shown,
                chunk,
                answers[i],
            );
    lemma_first_failure(
        answers,
        listeners@.len(),
        |i: int, a: Answer| may_take_request_chunk(&*listeners@[i], &shown, chunk, a),
        r,
    );
    shown
}

/// All listeners are told of a piece of the body that was sent, up to the first that fails.
pub proof fn law_chunk_sent(
    listeners: &Listeners,
    info: &ProxyInfoData,
    chunk: &Bytes,
    r: Answer,
) -> (shown: ProxyInfoData)
    requires
        call_ensures(request_body_chunk_sent, (listeners, info, chunk), r),
    ensures
        shown@ == info@,
        first_failure(
            listeners@.len(),
            |i: int, a: Answer| may_take_chunk_sent(&*listeners@[i], &shown, chunk, a),
            r,
        ),
{
    let (shown, answers) = choose|shown: ProxyInfoData, answers: Seq<Answer>|
        #[trigger] says(shown, info@) && #[trigger] come_to(answers, listeners@.len(), r)
            && forall|i: int|
            #![trigger answers[i]]
            #![trigger listeners@[i]]
            0 <= i < answers.len() ==> may_take_chunk_sent(
                &*listeners@[i],
                &shown,
                chunk,
                answers[i],
            );
    lemma_first_failure(
        answers,
        listeners@.len(),
        |i: int, a: Answer| may_take_chunk_sent(&*listeners@[i], &shown, chunk, a),
        r,
    );
    shown
}

/// All listeners are told that the body was sent, up to the first that fails.
pub proof fn law_body_sent(
    listeners: &Listeners,
    info: &ProxyInfoData,
    r: Answer,
) -> (shown: ProxyInfoData)
    requires
        call_ensures(request_body_sent, (listeners, info), r),
    ensures
        shown@ == info@,
        first_failure(
            listeners@.len(),
            |i: int, a: Answer| may_take_body_sent(&*listeners@[i], &shown, a),
            r,
        ),
{
    let (shown, answers) = choose|shown: ProxyInfoData, answers: Seq<Answer>|
        #[trigger] says(shown, info@) && #[trigger] come_to(answers, listeners@.len(), r)
            && forall|i: int|
            #![trigger answers[i]]
            #![trigger listeners@[i]]
            0 <= i < answers.len() ==> may_take_body_sent(
                &*listeners@[i],
                &shown,
                answers[i],
            );
    lemma_first_failure(
        answers,
        listeners@.len(),
        |i: int, a: Answer| may_take_body_sent(&*listeners@[i], &shown, a),
        r,
    );
    shown
}

/// All listeners are told of a response that begins, up to the first that fails.
pub proof fn law_responding(
    listeners: &Listeners,
    info: &ProxyInfoData,
    status: u16,
    headers: Option<&HeaderMap>,
    r: Answer,
) -> (shown: ProxyInfoData)
    requires
        call_ensures(responding, (listeners, info, status, headers), r),
    ensures
        shown@ == info@,
        first_failure(
            listeners@.len(),
            |i: int, a: Answer| may_respond(&*listeners@[i], &shown, status, headers, a),
            r,
        ),
{
    let (shown, answers) = choose|shown: ProxyInfoData, answers: Seq<Answer>|
        #[trigger] says(shown, info@) && #[trigger] come_to(answers, listeners@.len(), r)
            && forall|i: int|
            #![trigger answers[i]]
            #![trigger listeners@[i]]
            0 <= i < answers.len() ==> may_respond(
                &*listeners@[i],
                &shown,
                status,
                headers,
                answers[i],
            );
    lemma_first_failure(
        answers,
        listeners@.len(),
        |i: int, a: Answer| may_respond(&*listeners@[i], &shown, status, headers, a),
        r,
    );
    shown
}

/// All listeners that ask for the pieces of a response are told of one, up to the first that fails.
pub proof fn law_response_chunk_asked_for(
    listeners: &Listeners,
    info: &ProxyInfoData,
    chunk: &Bytes,
    r: Answer,
) -> (shown: ProxyInfoData)
    requires
        call_ensures(response_body_chunk_asked_for, (listeners, info, chunk), r),
    ensures
        shown@ == info@,
        first_failure(
            listeners@.len(),
            |i: int, a: Answer| may_take_response_chunk(&*listeners@[i], &shown, chunk, a),
            r,
        ),
{
    let (shown, answers) = choose|shown: ProxyInfoData, answers: Seq<Answer>|
        #[trigger] says(shown, info@) && #[trigger] come_to(answers, listeners@.len(), r)
            && forall|i: int|
            #![trigger answers[i]]
            #![trigger listeners@[i]]
            0 <= i < answers.len() ==> may_take_response_chunk(
                &*listeners@[i],
                &shown,
                chunk,
                answers[i],
            );
    lemma_first_failure(
        answers,
        listeners@.len(),
        |i: int, a: Answer| may_take_response_chunk(&*listeners@[i], &shown, chunk, a),
        r,
    );
    shown
}

/// All listeners are told that a request is over, up to the first that fails.
pub proof fn law_complete(
    listeners: &Listeners,
    info: &ProxyInfoData,
    r: Answer,
) -> (shown: ProxyInfoData)
    requires
        call_ensures(complete, (listeners, info), r),
    ensures
        shown@ == info@,
        first_failure(
            listeners@.len(),
            |i: int, a: Answer| may_take_complete(&*listeners@[i], &shown, a),
            r,
        ),
{
    let (shown, answers) = choose|shown: ProxyInfoData, answers: Seq<Answer>|
        #[trigger] says(shown, info@) && #[trigger] come_to(answers, listeners@.len(), r)
            && forall|i: int|
            #![trigger answers[i]]
            #![trigger listeners@[i]]
            0 <= i < answers.len() ==> may_take_complete(
                &*listeners@[i],
                &shown,
                answers[i],
            );
    lemma_first_failure(
        answers,
        listeners@.len(),
        |i: int, a: Answer| may_take_complete(&*listeners@[i], &shown, a),
        r,
    );
    shown
}

/// Some listener asks for pieces only if one may, and none does only if none must.
pub proof fn law_some_need(listeners: &Listeners, request: bool, response: bool, k: int)
    requires
        call_ensures(some_need_request_chunks, (listeners,), request),
        call_ensures(some_need_response_chunks, (listeners,), response),
    ensures
        request ==> exists|i: int|
            0 <= i < listeners@.len() && may_need_request_chunks(
                &*(#[trigger] listeners@[i]),
                true,
            ),
        !request && 0 <= k < listeners@.len() ==> may_need_request_chunks(&*listeners@[k], false),
        response ==> exists|i: int|
            0 <= i < listeners@.len() && may_need_response_chunks(
                &*(#[trigger] listeners@[i]),
                true,
            ),
        !response && 0 <= k < listeners@.len() ==> may_need_response_chunks(&*listeners@[k], false),
{
    let asked = choose|asked: int|
        #[trigger] needs_end_at(asked, listeners@.len(), request) && (request
            ==> may_need_request_chunks(&*listeners@[asked], true)) && forall|i: int|
            0 <= i < asked ==> may_need_request_chunks(&*(#[trigger] listeners@[i]), false);
    let other = choose|asked: int|
        #[trigger] needs_end_at(asked, listeners@.len(), response) && (response
            ==> may_need_response_chunks(&*listeners@[asked], true)) && forall|i: int|
            0 <= i < asked ==> may_need_response_chunks(&*(#[trigger] listeners@[i]), false);
}


/// Without listeners the headers go to the target as they were made.
pub proof fn law_headers_without_listeners(
    listeners: &Listeners,
    info: &ProxyInfoData,
    before: HeaderMap,
    after: HeaderMap,
    r: Answer,
)
    requires
        exists|m: &mut HeaderMap|
            *m == before && *final(m) == after && #[trigger] call_ensures(
                before_proxy_to_target,
                (listeners, info, m),
                r,
            ),
        listeners@.len() == 0,
    ensures
        r is Ok,
        after == before,
{
}

} // verus!
