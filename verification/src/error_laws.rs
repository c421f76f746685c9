//! What an error says, and what a client is told of it.

use crate::exceptions::{
    compose_ex, opt_exception_clone, CrankerRouterException, CrexKind,
};
use vstd::prelude::*;

verus! {

/// An error says what it was made with: its reason, and the status and the kind that it was given,
/// if any.
pub proof fn law_error_is_made(
    reason: String,
    status: u16,
    kind: CrexKind,
    made: CrankerRouterException,
    coded: CrankerRouterException,
    both: CrankerRouterException,
    shown: String,
)
    requires
        call_ensures(CrankerRouterException::new, (reason,), made),
        call_ensures(CrankerRouterException::with_status_code, (made, status), coded),
        call_ensures(CrankerRouterException::with_err_kind, (coded, kind), both),
        call_ensures(CrankerRouterException::to_string, (&both,), shown),
    ensures
        made@.reason == reason@ && made@.opt_status_code is None && made@.opt_err_kind is None,
        coded@.reason == reason@ && coded@.opt_status_code == Some(status)
            && coded@.opt_err_kind is None,
        both@.reason == reason@ && both@.opt_status_code == Some(status) && both@.opt_err_kind
            == Some(kind),
        shown@ == "Cranker router exception: "@ + reason@,
{
}

/// Text that is added to an error stands behind its reason, or in front of it with a blank between
/// them; nothing else of the error changes.
pub proof fn law_reason_grows(
    e: CrankerRouterException,
    more: String,
    more_str: &str,
    a: CrankerRouterException,
    b: CrankerRouterException,
    c: CrankerRouterException,
    d: CrankerRouterException,
    f: CrankerRouterException,
    g: CrankerRouterException,
)
    requires
        more@ == more_str@,
        call_ensures(CrankerRouterException::append_string, (e, more), a),
        call_ensures(CrankerRouterException::append_str, (e, more_str), b),
        call_ensures(CrankerRouterException::plus_string, (e, more), c),
        call_ensures(CrankerRouterException::plus_str, (e, more_str), d),
        call_ensures(CrankerRouterException::prepend_string, (e, more), f),
        call_ensures(CrankerRouterException::prepend_str, (e, more_str), g),
    ensures
        a@.reason == e@.reason + more@,
        f@.reason == more@ + seq![' '] + e@.reason,
        a@.opt_status_code == e@.opt_status_code && a@.opt_err_kind == e@.opt_err_kind,
        f@.opt_status_code == e@.opt_status_code && f@.opt_err_kind == e@.opt_err_kind,
        a@ == b@ && b@ == c@ && c@ == d@,
        f@ == g@,
{
    assert(more@.push(' ') =~= more@ + seq![' ']);
}

/// Two errors are joined into one with both reasons in their order; of the status and of the kind
/// the first that is said holds.
pub proof fn law_errors_are_joined(
    a: CrankerRouterException,
    b: CrankerRouterException,
    r: CrankerRouterException,
)
    requires
        call_ensures(CrankerRouterException::plus, (a, b), r),
    ensures
        r@.reason == a@.reason + b@.reason,
        r@.opt_status_code == (if a@.opt_status_code is Some {
            a@.opt_status_code
        } else {
            b@.opt_status_code
        }),
        r@.opt_err_kind == (if a@.opt_err_kind is Some {
            a@.opt_err_kind
        } else {
            b@.opt_err_kind
        }),
{
}

/// Adding up the errors of the steps of a task: a step that went well changes nothing, and one that
/// failed adds its reason behind those before it.
pub proof fn law_errors_add_up(
    total: Option<CrankerRouterException>,
    this: Result<(), CrankerRouterException>,
    r: Option<CrankerRouterException>,
)
    requires
        call_ensures(compose_ex::<()>, (total, this), r),
    ensures
        this is Ok ==> (r is Some <==> total is Some) && (r is Some ==> r->0@ == total->0@),
        this is Err && total is None ==> (r matches Some(e) && e@ == this->Err_0@),
        this is Err && total is Some ==> (r matches Some(e) && e@.reason == total->0@.reason
            + this->Err_0@.reason),
{
}

/// A client gets the status of the error, or 500 where it says none, and a text with the reason,
/// the kind where there is one, and the identifier of the error.
pub proof fn law_client_is_answered(e: CrankerRouterException, id: &str, r: (u16, String))
    requires
        call_ensures(CrankerRouterException::into_response_with_id, (e, id), r),
    ensures
        e@.opt_status_code matches Some(code) ==> r.0 == code,
        e@.opt_status_code is None ==> r.0 == 500,
        e@.opt_err_kind is None ==> r.1@ == e@.reason + " (error id = "@ + id@ + ")"@,
        e@.opt_err_kind matches Some(k) ==> r.1@ == e@.reason + " (error kind = "@ + k.name()
            + ")"@ + " (error id = "@ + id@ + ")"@,
{
    if e@.opt_err_kind is None {
        assert(r.1@ =~= e@.reason + " (error id = "@ + id@ + ")"@);
    } else {
        let k = e@.opt_err_kind->0;
        assert(r.1@ =~= e@.reason + " (error kind = "@ + k.name() + ")"@ + " (error id = "@ + id@
            + ")"@);
    }
}

/// Under an identifier of its own the answer begins with the reason all the same.
pub proof fn law_client_is_told_the_reason(e: CrankerRouterException, r: (u16, String))
    requires
        call_ensures(CrankerRouterException::into_response, (e,), r),
    ensures
        r.0 == (match e@.opt_status_code {
            Some(code) => code,
            None => 500,
        }),
        r.1@.len() >= e@.reason.len(),
        r.1@.take(e@.reason.len() as int) == e@.reason,
{
    let id = choose|id: Seq<char>| id.len() == 36 && r.1@ == #[trigger] e@.response_body(id);
    assert(r.1@.take(e@.reason.len() as int) =~= e@.reason);
}

/// Each kind of error has the name by which it is documented.
pub proof fn law_kinds_have_names(k: CrexKind, r: &'static str)
    requires
        call_ensures(CrexKind::as_str, (&k,), r),
    ensures
        r@ == (match k {
            CrexKind::Timeout_0001 => "Timeout_0001"@,
            CrexKind::NoRouterSocketAvailable_0002 => "NoRouterSocketAvailable_0002"@,
            CrexKind::CrankerProtocolVersionNotFound_0003 => "CrankerProtocolVersionNotFound_0003"@,
            CrexKind::CrankerProtocolVersionNotSupported_0004 =>
                "CrankerProtocolVersionNotSupported_0004"@,
            CrexKind::CrankerProtocolEndMarkerMissing_0005 =>
                "CrankerProtocolEndMarkerMissing_0005"@,
            CrexKind::CrankerProtocolZeroLengthHeaderLine_0006 =>
                "CrankerProtocolZeroLengthHeaderLine_0006"@,
            CrexKind::CrankerProtocolHttpStatusCodeMissing_0007 =>
                "CrankerProtocolHttpStatusCodeMissing_0007"@,
            CrexKind::ForwardedHeaderParserError_0008 => "ForwardedHeaderParserError_0008"@,
            CrexKind::ProxyListenerError_0009 => "ProxyListenerError_0009"@,
            CrexKind::ClientRequestBodyReadError_0010 => "ClientRequestBodyReadError_0010"@,
            CrexKind::BrokenConnection_0011 => "BrokenConnection_0011"@,
        }),
        r@ == k.name(),
{
}

/// A copy of an error says the same.
pub proof fn law_error_is_copied(
    e: Option<CrankerRouterException>,
    r: Option<CrankerRouterException>,
)
    requires
        call_ensures(opt_exception_clone, (&e,), r),
    ensures
        r is Some <==> e is Some,
        r is Some ==> r->0@.reason == e->0@.reason && r->0@.opt_status_code
            == e->0@.opt_status_code && r->0@.opt_err_kind == e->0@.opt_err_kind,
{
}

} // verus!
