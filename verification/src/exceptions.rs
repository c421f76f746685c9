//! The error that every part of the router reports.

use crate::ids::new_uuid;
use crate::text::concat;
use vstd::prelude::*;

verus! {

pub type CrexKind = CrankerRouterExceptionErrorKind;

/// The custom error struct in this library
#[derive(Debug)]
pub struct CrankerRouterException {
    /// Description of the error
    pub reason: String,
    /// If the error specifies the status code
    /// then this status code will be responded
    /// to client request
    pub opt_status_code: Option<u16>,
    /// An option error kind enum
    pub opt_err_kind: Option<CrexKind>,
}

/// Kinds of error that can be easily categorized
#[allow(non_camel_case_types)]
#[derive(Debug, Clone, Copy, PartialEq, Eq, Structural)]
#[non_exhaustive]
pub enum CrankerRouterExceptionErrorKind {
    Timeout_0001,
    NoRouterSocketAvailable_0002,
    CrankerProtocolVersionNotFound_0003,
    CrankerProtocolVersionNotSupported_0004,
    CrankerProtocolEndMarkerMissing_0005,
    CrankerProtocolZeroLengthHeaderLine_0006,
    CrankerProtocolHttpStatusCodeMissing_0007,
    ForwardedHeaderParserError_0008,
    ProxyListenerError_0009,
    ClientRequestBodyReadError_0010,
    BrokenConnection_0011,
}

/// What a [`CrankerRouterException`] says.
#[verifier::ext_equal]
pub struct ExceptionView {
    pub reason: Seq<char>,
    pub opt_status_code: Option<u16>,
    pub opt_err_kind: Option<CrexKind>,
}

impl View for CrankerRouterException {
    type V = ExceptionView;

    open spec fn view(&self) -> ExceptionView {
        ExceptionView {
            reason: self.reason@,
            opt_status_code: self.opt_status_code,
            opt_err_kind: self.opt_err_kind,
        }
    }
}

impl ExceptionView {
    /// The error that has a reason and nothing else.
    pub open spec fn of(reason: Seq<char>) -> ExceptionView {
        ExceptionView { reason, opt_status_code: None, opt_err_kind: None }
    }

    /// The same error, to be answered with the given status code.
    pub open spec fn with_status_code(self, status_code: u16) -> ExceptionView {
        ExceptionView { opt_status_code: Some(status_code), ..self }
    }

    /// The same error, of the given kind.
    pub open spec fn with_err_kind(self, err_kind: CrexKind) -> ExceptionView {
        ExceptionView { opt_err_kind: Some(err_kind), ..self }
    }

    /// The same error with more text behind its reason.
    pub open spec fn append(self, more: Seq<char>) -> ExceptionView {
        ExceptionView { reason: self.reason + more, ..self }
    }

    /// The same error with a text and a space in front of its reason.
    pub open spec fn prepend(self, prior: Seq<char>) -> ExceptionView {
        ExceptionView { reason: prior.push(' ') + self.reason, ..self }
    }

    /// Two errors as one: the reasons one behind the other; of the rest what the first says,
    /// and what the second says where the first says nothing.
    pub open spec fn plus(self, another: ExceptionView) -> ExceptionView {
        ExceptionView {
            reason: self.reason + another.reason,
            opt_status_code: if self.opt_status_code is Some {
                self.opt_status_code
            } else {
                another.opt_status_code
            },
            opt_err_kind: if self.opt_err_kind is Some {
                self.opt_err_kind
            } else {
                another.opt_err_kind
            },
        }
    }

    /// The status code of the response to a client that ran into this error.
    pub open spec fn response_status(self) -> u16 {
        match self.opt_status_code {
            Some(code) => code,
            None => 500,
        }
    }

    /// The body of the response to a client that ran into this error.
    pub open spec fn response_body(self, error_id: Seq<char>) -> Seq<char> {
        let kind = match self.opt_err_kind {
            Some(kind) => " (error kind = "@ + kind.name() + ")"@,
            None => Seq::empty(),
        };
        self.reason + kind + (" (error id = "@ + error_id + ")"@)
    }
}

/// What an optional error says.
pub open spec fn opt_exception(e: Option<CrankerRouterException>) -> Option<ExceptionView> {
    match e {
        Some(e) => Some(e@),
        None => None,
    }
}

/// The same error again, if there is one.
pub fn opt_exception_clone(e: &Option<CrankerRouterException>) -> (r: Option<
    CrankerRouterException,
>)
    ensures
        opt_exception(r) == opt_exception(*e),
{
    match e {
        Some(e) => Some(e.clone()),
        None => None,
    }
}

/// What the outcome of a step says.
pub open spec fn outcome<T>(r: Result<T, CrankerRouterException>) -> Result<T, ExceptionView> {
    match r {
        Ok(v) => Ok(v),
        Err(e) => Err(e@),
    }
}

impl CrankerRouterExceptionErrorKind {
    /// The kind's name.
    pub open spec fn name(self) -> Seq<char> {
        match self {
            CrexKind::Timeout_0001 => "Timeout_0001"@,
            CrexKind::NoRouterSocketAvailable_0002 => "NoRouterSocketAvailable_0002"@,
            CrexKind::CrankerProtocolVersionNotFound_0003 => "CrankerProtocolVersionNotFound_0003"@,
            CrexKind::CrankerProtocolVersionNotSupported_0004 =>
                "CrankerProtocolVersionNotSupported_0004"@,
            CrexKind::CrankerProtocolEndMarkerMissing_0005 =>
                "CrankerProtocolEndMarkerMissing_0005"@,
            CrexKind::CrankerProtocolZeroLengthHeaderLine_0006 =>
                "CrankerProtocolZeroLengthHeaderLine_0006"@,
            CrexKind::CrankerProtocolHttpStatusCodeMissing_0007 =>
                "CrankerProtocolHttpStatusCodeMissing_0007"@,
            CrexKind::ForwardedHeaderParserError_0008 => "ForwardedHeaderParserError_0008"@,
            CrexKind::ProxyListenerError_0009 => "ProxyListenerError_0009"@,
            CrexKind::ClientRequestBodyReadError_0010 => "ClientRequestBodyReadError_0010"@,
            CrexKind::BrokenConnection_0011 => "BrokenConnection_0011"@,
        }
    }

    /// The kind's name.
    pub fn as_str(&self) -> (r: &'static str)
        ensures
            r@ == self.name(),
    {
        match self {
            CrexKind::Timeout_0001 => "Timeout_0001",
            CrexKind::NoRouterSocketAvailable_0002 => "NoRouterSocketAvailable_0002",
            CrexKind::CrankerProtocolVersionNotFound_0003 => "CrankerProtocolVersionNotFound_0003",
            CrexKind::CrankerProtocolVersionNotSupported_0004 =>
                "CrankerProtocolVersionNotSupported_0004",
            CrexKind::CrankerProtocolEndMarkerMissing_0005 => "CrankerProtocolEndMarkerMissing_0005",
            CrexKind::CrankerProtocolZeroLengthHeaderLine_0006 =>
                "CrankerProtocolZeroLengthHeaderLine_0006",
            CrexKind::CrankerProtocolHttpStatusCodeMissing_0007 =>
                "CrankerProtocolHttpStatusCodeMissing_0007",
            CrexKind::ForwardedHeaderParserError_0008 => "ForwardedHeaderParserError_0008",
            CrexKind::ProxyListenerError_0009 => "ProxyListenerError_0009",
            CrexKind::ClientRequestBodyReadError_0010 => "ClientRequestBodyReadError_0010",
            CrexKind::BrokenConnection_0011 => "BrokenConnection_0011",
        }
    }
}

impl Clone for CrankerRouterException {
    fn clone(&self) -> (r: Self)
        ensures
            r == *self,
    {
        CrankerRouterException {
            reason: self.reason.clone(),
            opt_status_code: self.opt_status_code,
            opt_err_kind: self.opt_err_kind,
        }
    }
}

impl CrankerRouterException {
    pub fn new(reason: String) -> (r: Self)
        ensures
            r@ == ExceptionView::of(reason@),
    {
        Self { reason, opt_status_code: None, opt_err_kind: None }
    }

    pub fn with_status_code(self, status_code: u16) -> (r: Self)
        ensures
            r@ == self@.with_status_code(status_code),
    {
        Self {
            reason: self.reason,
            opt_status_code: Some(status_code),
            opt_err_kind: self.opt_err_kind,
        }
    }

    pub fn with_err_kind(self, err_kind: CrexKind) -> (r: Self)
        ensures
            r@ == self@.with_err_kind(err_kind),
    {
        Self {
            reason: self.reason,
            opt_status_code: self.opt_status_code,
            opt_err_kind: Some(err_kind),
        }
    }

    pub fn plus(self, another: CrankerRouterException) -> (r: Self)
        ensures
            r@ == self@.plus(another@),
    {
        let mut reason = self.reason;
        reason.push_str(another.reason.as_str());
        Self {
            reason,
            opt_err_kind: match self.opt_err_kind {
                Some(kind) => Some(kind),
                None => another.opt_err_kind,
            },
            opt_status_code: match self.opt_status_code {
                Some(code) => Some(code),
                None => another.opt_status_code,
            },
        }
    }

    pub fn append_string(self, further_reason: String) -> (r: Self)
        ensures
            r@ == self@.append(further_reason@),
    {
        self.append_str(further_reason.as_str())
    }

    pub fn append_str(self, further_reason: &str) -> (r: Self)
        ensures
            r@ == self@.append(further_reason@),
    {
        let mut reason = self.reason;
        reason.push_str(further_reason);
        Self { reason, opt_err_kind: self.opt_err_kind, opt_status_code: self.opt_status_code }
    }

    pub fn plus_str(self, further_reason: &str) -> (r: Self)
        ensures
            r@ == self@.append(further_reason@),
    {
        self.append_str(further_reason)
    }

    pub fn plus_string(self, further_reason: String) -> (r: Self)
        ensures
            r@ == self@.append(further_reason@),
    {
        self.append_string(further_reason)
    }

    pub fn prepend_str(self, prior_reason: &str) -> (r: Self)
        ensures
            r@ == self@.prepend(prior_reason@),
    {
        let mut reason = prior_reason.to_string();
        reason.push(' ');
        reason.push_str(self.reason.as_str());
        Self { reason, opt_err_kind: self.opt_err_kind, opt_status_code: self.opt_status_code }
    }

    pub fn prepend_string(self, prior_reason: String) -> (r: Self)
        ensures
            r@ == self@.prepend(prior_reason@),
    {
        self.prepend_str(prior_reason.as_str())
    }

    /// The error as it is shown.
    pub fn to_string(&self) -> (r: String)
        ensures
            r@ == "Cranker router exception: "@ + self@.reason,
    {
        concat("Cranker router exception: ", self.reason.as_str())
    }

    /// The status code and the body of the response to a client that ran into this error,
    /// under the identifier by which the error can be found in the log.
    pub fn into_response_with_id(self, err_id: &str) -> (r: (u16, String))
        ensures
            r.0 == self@.response_status(),
            r.1@ == self@.response_body(err_id@),
    {
        let mut body = self.reason;
        if let Some(kind) = self.opt_err_kind {
            body.push_str(" (error kind = ");
            body.push_str(kind.as_str());
            body.push_str(")");
        }
        body.push_str(" (error id = ");
        body.push_str(err_id);
        body.push_str(")");
        let status_code: u16 = match self.opt_status_code {
            Some(code) => code,
            None => 500,
        };
        assert(body@ =~= self@.response_body(err_id@));
        (status_code, body)
    }

    /// The status code and the body of the response to a client that ran into this error,
    /// under a fresh identifier.
    pub fn into_response(self) -> (r: (u16, String))
        ensures
            r.0 == self@.response_status(),
            exists|err_id: Seq<char>|
                err_id.len() == 36 && r.1@ == #[trigger] self@.response_body(err_id),
    {
        let err_id = new_uuid();
        self.into_response_with_id(err_id.as_str())
    }
}

/// The error so far together with the error of one more step, if it failed.
pub open spec fn compose(
    total: Option<ExceptionView>,
    this: Option<ExceptionView>,
) -> Option<ExceptionView> {
    match (total, this) {
        (Some(total), Some(this)) => Some(total.plus(this)),
        (Some(total), None) => Some(total),
        (None, this) => this,
    }
}

/// Adds the error of one more step, if it failed, to the error so far.
pub fn compose_ex<ANY>(
    opt_total_err: Option<CrankerRouterException>,
    this_may_err: Result<ANY, CrankerRouterException>,
) -> (r: Option<CrankerRouterException>)
    ensures
        opt_exception(r) == compose(
            opt_exception(opt_total_err),
            match this_may_err {
                Ok(_) => None,
                Err(e) => Some(e@),
            },
        ),
{
    match this_may_err {
        Err(ex) => match opt_total_err {
            Some(total) => Some(total.plus(ex)),
            None => Some(ex),
        },
        Ok(_) => opt_total_err,
    }
}

/// Joining errors is associative: it does not matter in which order the steps of a longer
/// task add theirs up, as long as the steps keep their order.
pub proof fn law_compose_associative(
    a: Option<ExceptionView>,
    b: Option<ExceptionView>,
    c: Option<ExceptionView>,
)
    ensures
        compose(compose(a, b), c) == compose(a, compose(b, c)),
{
    if a is Some && b is Some && c is Some {
        assert(a->0.reason + b->0.reason + c->0.reason =~= a->0.reason + (b->0.reason
            + c->0.reason));
    }
}

/// No error of any step is lost, and no error appears where no step failed.
pub proof fn law_compose_keeps_failure(a: Option<ExceptionView>, b: Option<ExceptionView>)
    ensures
        compose(a, b) is Some <==> a is Some || b is Some,
{
}

} // verus!
