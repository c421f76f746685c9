//! What holds of the requests that share a connection, whatever comes over it.

use crate::exceptions::ExceptionView;
use crate::frames::MESSAGE_TYPE_WINDOW_UPDATE;
use crate::request_context::ContextView;
use crate::router_socket::RouterSocketInfo;
use crate::router_socket_v3::{
    all_closed, chunk_sent, closed, closed_context, cut_off, failed, frame_came, opened, EffectView,
    V3View,
};
use crate::{frames, octets, router_socket_v3};
use vstd::prelude::*;

verus! {

/// Whether two states of a socket agree on a request.
pub open spec fn same_request(a: V3View, b: V3View, k: i32) -> bool {
    &&& a.live.dom().contains(k) == b.live.dom().contains(k)
    &&& a.live.dom().contains(k) ==> a.live[k] == b.live[k]
    &&& a.retired.dom().contains(k) == b.retired.dom().contains(k)
    &&& a.retired.dom().contains(k) ==> a.retired[k] == b.retired[k]
}

/// A frame concerns the request whose number it carries and no other: what goes wrong with one
/// request leaves the others on the connection as they are.
pub proof fn law_frame_concerns_one_request(
    socket: RouterSocketInfo,
    s: V3View,
    bin: Seq<u8>,
    is_removed: bool,
    now: i64,
    k: i32,
)
    requires
        s.wf(),
        frames::parts(bin) matches Some(f) ==> f.req_id != k,
    ensures
        same_request(frame_came(socket, s, bin, is_removed, now).state, s, k),
{
    reveal(failed);
    if let Some(f) = frames::parts(bin) {
        let id = f.req_id as i32;
        lemma_req_id(bin);
        if s.live.dom().contains(id) {
            assert(s.live[id].request_id == id);
        }
    }
}

/// The number in a frame is an `i32`.
proof fn lemma_req_id(bin: Seq<u8>)
    ensures
        frames::parts(bin) matches Some(f) ==> f.req_id as i32 == f.req_id,
{
}

/// A request that was closed is over, and its response takes nothing more.
pub proof fn law_closed_is_over(
    socket: RouterSocketInfo,
    s: V3View,
    c: ContextView,
    code: u16,
    now: i64,
)
    requires
        c.response_open,
    ensures
        !closed(socket, s, c, code, now).state.live.dom().contains(c.request_id),
        closed(socket, s, c, code, now).effects.contains(
            EffectView::CloseResponse(c.request_id),
        ),
{
    reveal(router_socket_v3::closed_effects);
    let all = closed(socket, s, c, code, now).effects;
    let failed = c.not_started() && router_socket_v3::early_failure(code) is Some;
    let i: int = if failed {
        2
    } else {
        1
    };
    assert(all[i] == EffectView::CloseResponse(c.request_id));
}

/// The requests that are not among those that were closed are as they were; the others are over.
proof fn lemma_rest_stays(
    socket: RouterSocketInfo,
    s: V3View,
    ids: Seq<i32>,
    code: u16,
    reason: Seq<char>,
    now: i64,
)
    requires
        s.wf(),
        ids.no_duplicates(),
        forall|i: int| 0 <= i < ids.len() ==> s.live.dom().contains(#[trigger] ids[i]),
    ensures
        ({
            let t = all_closed(socket, s, ids, code, reason, now).state;
            forall|k: i32| #[trigger]
                t.live.dom().contains(k) <==> s.live.dom().contains(k) && !ids.contains(k)
        }),
        ({
            let t = all_closed(socket, s, ids, code, reason, now).state;
            forall|k: i32| #[trigger] t.live.dom().contains(k) ==> t.live[k] == s.live[k]
        }),
    decreases ids.len(),
{
    if ids.len() > 0 {
        let first = ids.drop_last();
        assert forall|i: int| 0 <= i < first.len() implies s.live.dom().contains(
            #[trigger] first[i],
        ) by {
            assert(first[i] == ids[i]);
        }
        lemma_rest_stays(socket, s, first, code, reason, now);
        let t = all_closed(socket, s, first, code, reason, now).state;
        let id = ids.last();
        assert(ids[ids.len() - 1] == id);
        assert(!first.contains(id));
        assert(t.live.dom().contains(id));
        let u = all_closed(socket, s, ids, code, reason, now).state;
        assert forall|k: i32| #[trigger]
            u.live.dom().contains(k) <==> s.live.dom().contains(k) && !ids.contains(k) by {
            assert(t.live.dom().contains(k) <==> s.live.dom().contains(k) && !first.contains(k));
            assert(ids.contains(k) <==> first.contains(k) || k == id) by {
                if first.contains(k) {
                    let j = choose|j: int| 0 <= j < first.len() && first[j] == k;
                    assert(ids[j] == k);
                }
                if ids.contains(k) && k != id {
                    let j = choose|j: int| 0 <= j < ids.len() && ids[j] == k;
                    assert(first[j] == k);
                }
            }
        }
        assert forall|k: i32| #[trigger] u.live.dom().contains(k) implies u.live[k]
            == s.live[k] by {
            assert(t.live.dom().contains(k));
        }
    }
}

/// When the connector closes the connection the listeners are told of every request under way that
/// it is over and, unless all was well, with an error for them to see.
pub proof fn law_close_completes_every_request(
    socket: RouterSocketInfo,
    s: V3View,
    ids: Seq<i32>,
    code: u16,
    reason: Seq<char>,
    now: i64,
    id: i32,
)
    requires
        s.wf(),
        ids.no_duplicates(),
        ids.to_set() == s.live.dom(),
        s.live.dom().contains(id),
    ensures
        ({
            let step = all_closed(socket, s, ids, code, reason, now);
            let shown = closed_context(cut_off(s.live[id], code, reason), now).info(socket);
            &&& !step.state.live.dom().contains(id)
            &&& step.effects.contains(EffectView::Completed(shown))
            &&& code != 1000 ==> shown.error is Some
        }),
{
    assert(ids.to_set().contains(id));
    assert forall|i: int| 0 <= i < ids.len() implies s.live.dom().contains(#[trigger] ids[i]) by {
        assert(ids.to_set().contains(ids[i]));
    }
    lemma_rest_stays(socket, s, ids, code, reason, now);
    lemma_completed(socket, s, ids, code, reason, now, id);
}

proof fn lemma_completed(
    socket: RouterSocketInfo,
    s: V3View,
    ids: Seq<i32>,
    code: u16,
    reason: Seq<char>,
    now: i64,
    id: i32,
)
    requires
        s.wf(),
        ids.no_duplicates(),
        forall|i: int| 0 <= i < ids.len() ==> s.live.dom().contains(#[trigger] ids[i]),
        ids.contains(id),
    ensures
        all_closed(socket, s, ids, code, reason, now).effects.contains(
            EffectView::Completed(
                closed_context(cut_off(s.live[id], code, reason), now).info(socket),
            ),
        ),
    decreases ids.len(),
{
    let first = ids.drop_last();
    assert forall|i: int| 0 <= i < first.len() implies s.live.dom().contains(
        #[trigger] first[i],
    ) by {
        assert(first[i] == ids[i]);
    }
    let told = EffectView::Completed(
        closed_context(cut_off(s.live[id], code, reason), now).info(socket),
    );
    let before = all_closed(socket, s, first, code, reason, now);
    let all = all_closed(socket, s, ids, code, reason, now).effects;
    if ids.last() == id {
        lemma_rest_stays(socket, s, first, code, reason, now);
        assert(s.live.dom().contains(ids[ids.len() - 1]));
        assert(!first.contains(id));
        assert(before.state.live.dom().contains(id));
        reveal(router_socket_v3::closed_effects);
        assert(all.last() == told);
        assert(all[all.len() - 1] == told);
    } else {
        let j = choose|j: int| 0 <= j < ids.len() && ids[j] == id;
        assert(first[j] == id);
        lemma_completed(socket, s, first, code, reason, now, id);
        let j = choose|j: int| 0 <= j < before.effects.len() && before.effects[j] == told;
        assert(all[j] == told);
    }
}

/// A request under way that fails is over, its client is told, and its listeners are told that
/// it is over, with the error for them to see.
pub proof fn law_failed_is_over(
    socket: RouterSocketInfo,
    s: V3View,
    c: ContextView,
    e: ExceptionView,
    now: i64,
)
    requires
        s.live.dom().contains(c.request_id),
    ensures
        ({
            let step = failed(socket, s, c, e, now);
            &&& !step.state.live.dom().contains(c.request_id)
            &&& step.effects.len() == 2
            &&& step.effects[0] == EffectView::Fail(
                c.request_id,
                router_socket_v3::error_to_client(c, e),
            )
            &&& step.effects[1] matches EffectView::Completed(info) && info.error == Some(e)
        }),
{
    reveal(failed);
}

/// Whether reading and the bytes on their way are in keeping for every request under way.
pub open spec fn all_in_keeping(s: V3View) -> bool {
    forall|k: i32| #[trigger] s.live.dom().contains(k) ==> s.live[k].flow_in_keeping()
}

/// Whatever frame comes in, reading and the bytes on their way stay in keeping, as long as an
/// acknowledgement is of no negative count and does not overflow.
pub proof fn law_frame_keeps_flow(
    socket: RouterSocketInfo,
    s: V3View,
    bin: Seq<u8>,
    is_removed: bool,
    now: i64,
)
    requires
        s.wf(),
        all_in_keeping(s),
        frames::parts(bin) matches Some(f) ==> {
            let n = octets::be_value(f.payload[0], f.payload[1], f.payload[2], f.payload[3]);
            f.msg_type == MESSAGE_TYPE_WINDOW_UPDATE && f.payload.len() >= 4
                && s.live.dom().contains(f.req_id as i32) ==> 0 <= n && s.live[f.req_id as i32].pending
                - n >= i32::MIN
        },
    ensures
        all_in_keeping(frame_came(socket, s, bin, is_removed, now).state),
{
    reveal(failed);
    let after = frame_came(socket, s, bin, is_removed, now).state;
    assert forall|k: i32| #[trigger] after.live.dom().contains(k) implies
        after.live[k].flow_in_keeping() by {
        if let Some(f) = frames::parts(bin) {
            let id = f.req_id as i32;
            lemma_req_id(bin);
            if s.live.dom().contains(id) {
                let c = s.live[id];
                assert(c.flow_in_keeping());
                assert(c.request_id == id);
                if k != id {
                    law_frame_concerns_one_request(socket, s, bin, is_removed, now, k);
                } else if f.msg_type == MESSAGE_TYPE_WINDOW_UPDATE && f.payload.len() >= 4 {
                    let n = octets::be_value(
                        f.payload[0],
                        f.payload[1],
                        f.payload[2],
                        f.payload[3],
                    ) as i32;
                    crate::request_context::law_flow_control(c, n);
                }
            }
        }
    }
}

/// Sending a piece of a request's body keeps reading and the bytes on their way in keeping, as
/// long as the count does not overflow.
pub proof fn law_chunk_keeps_flow(c: ContextView, n: nat)
    requires
        c.flow_in_keeping(),
        n <= i32::MAX,
        c.pending + n <= i32::MAX,
    ensures
        chunk_sent(c, n).flow_in_keeping(),
{
    crate::request_context::law_flow_control(c, n as i32);
}

/// A new request gets a number that none had before it, and no other request is touched.
pub proof fn law_request_numbers_are_new(s: V3View, now: i64, k: i32)
    requires
        s.wf(),
        s.last_id < i32::MAX,
        k != s.last_id + 1,
    ensures
        !s.known((s.last_id + 1) as i32),
        opened(s, now).known((s.last_id + 1) as i32),
        opened(s, now).known(k) == s.known(k),
        s.known(k) ==> opened(s, now).context(k) == s.context(k),
{
}

} // verus!
