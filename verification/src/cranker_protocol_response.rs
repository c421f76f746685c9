//! The message in which a connector hands back a target's response.

use crate::config::hop_by_hop;
use crate::exceptions::{CrankerRouterException, ExceptionView};
use crate::headers::Entry;
use crate::{config, headers, text};
use crate::listeners::{outcome, responding, told_responding, Listeners};
use crate::proxy_info::{ProxyInfoData, ProxyInfoView};
use crate::proxy_listener::ProxyListener;
use axum::http::response::Builder;
use axum::http::{HeaderMap, Response};
use std::sync::Arc;
use vstd::prelude::*;

verus! {

#[verifier::external_type_specification]
#[verifier::external_body]
pub struct ExBuilder(Builder);

/// The status and the headers that a response is going to have, or nothing where the builder
/// has been given something wrong.
pub uninterp spec fn builder_head(b: Builder) -> Option<(u16, Seq<(Seq<char>, Seq<Seq<u8>>)>)>;

/// `Response::builder`, then `Builder::status`: no headers, and the status if it is one of
/// three digits.
#[verifier::external_body]
fn builder_status(status: u16) -> (r: Builder)
    ensures
        builder_head(r) == (if 100 <= status <= 999 {
            Some((status, Seq::<Entry>::empty()))
        } else {
            None
        }),
{
    Response::builder().status(status)
}

/// The head of a response with one more header, if it can have it.
pub open spec fn head_with(
    head: Option<(u16, Seq<Entry>)>,
    key: Seq<char>,
    value: Seq<char>,
) -> Option<(u16, Seq<Entry>)> {
    match (head, headers::text_value(value)) {
        (Some((status, es)), Some(bytes)) => if headers::is_name(text::lower(key)) {
            Some((status, headers::appended(es, text::lower(key), bytes)))
        } else {
            None
        },
        _ => None,
    }
}

/// `Builder::header`: adds the value behind those of the name, which goes to small letters.
/// What can be no name or no value spoils the builder, and so does a header that finds no room
/// in the map; with fewer names than the map's limit there is room.
#[verifier::external_body]
fn builder_header(b: Builder, key: &str, value: &str) -> (r: Builder)
    ensures
        builder_head(r) is Some ==> builder_head(r) == head_with(builder_head(b), key@, value@),
        (builder_head(b) matches Some((_, es)) && headers::has_room(es, 1)) ==> builder_head(r)
            == head_with(builder_head(b), key@, value@),
        builder_head(b) is None ==> builder_head(r) is None,
{
    b.header(key, value)
}

/// A target's response: the header lines from the last to the first, and the status.
#[derive(Debug)]
pub struct CrankerProtocolResponse {
    pub headers: Vec<String>,
    pub status: u16,
}

/// The lines that hold something.
pub open spec fn nonempty(lines: Seq<Seq<char>>) -> Seq<Seq<char>>
    decreases lines.len(),
{
    if lines.len() == 0 {
        Seq::empty()
    } else {
        let before = nonempty(lines.drop_last());
        if lines.last().len() > 0 {
            before.push(lines.last())
        } else {
            before
        }
    }
}

/// What a message from a connector says: the status, which is the second word of the first
/// line, and the header lines, of which the last comes first.
pub open spec fn response_of(message: Seq<char>) -> Result<
    (u16, Seq<Seq<char>>),
    ExceptionView,
> {
    let lines = text::split(message, '\n');
    let bits = text::split(lines[0], ' ');
    if bits.len() < 2 {
        Err(
            ExceptionView::of(
                "failed to parse status code from target response ("@ + message
                    + "): no status code found"@,
            ),
        )
    } else {
        match text::unsigned_value(bits[1], u16::MAX as nat) {
            Err(kind) => Err(
                ExceptionView::of(
                    "failed to parse status code from target response header ("@ + bits[1]
                        + "): ParseIntError { kind: "@ + kind.name() + " }"@,
                ),
            ),
            Ok(status) => Ok((status as u16, nonempty(lines.skip(1).reverse()))),
        }
    }
}

/// The name in a header line: what stands in front of the first colon.
pub open spec fn line_key(line: Seq<char>) -> Seq<char> {
    text::trim(line.take(line.index_of_first(':')->0))
}

/// The value in a header line: what stands behind the first colon.
pub open spec fn line_value(line: Seq<char>) -> Seq<char> {
    text::trim(line.skip(line.index_of_first(':')->0 + 1))
}

/// Whether a header of this name is sent back to the client.
pub open spec fn is_sent_back(key: Seq<char>) -> bool {
    !config::is_hop_by_hop(text::lower(key)) && !config::is_not_sent_back(text::lower(key))
}

/// The head of the response to the client, from the header lines.
pub open spec fn response_head(status: u16, lines: Seq<Seq<char>>) -> Option<(u16, Seq<Entry>)>
    decreases lines.len(),
{
    if lines.len() == 0 {
        if 100 <= status <= 999 {
            Some((status, Seq::empty()))
        } else {
            None
        }
    } else {
        let before = response_head(status, lines.drop_last());
        let line = lines.last();
        if is_sent_back(line_key(line)) {
            head_with(before, line_key(line), line_value(line))
        } else {
            before
        }
    }
}

/// Whether every line has a colon.
pub open spec fn all_colons(lines: Seq<Seq<char>>) -> bool {
    forall|i: int| 0 <= i < lines.len() ==> (#[trigger] lines[i]).contains(':')
}

/// Whether a builder has the head that the header lines make up. Only where there are more
/// lines than a header map is sure to take may it have been spoilt instead.
pub open spec fn is_head(b: Builder, status: u16, lines: Seq<Seq<char>>) -> bool {
    &&& builder_head(b) is Some ==> builder_head(b) == response_head(status, lines)
    &&& lines.len() <= headers::NAME_LIMIT ==> builder_head(b) == response_head(status, lines)
}

/// The error of a response with a header line that has no colon.
pub open spec fn corrupted(lines: Seq<Seq<char>>) -> ExceptionView {
    ExceptionView::of(
        "failed to parse protocol response, header seems corrupted: "@ + text::strings_debug(lines),
    )
}

/// `Builder::headers_ref`: the headers so far, unless the builder has been given something wrong.
#[verifier::external_body]
fn builder_headers(b: &Builder) -> (r: Option<&HeaderMap>)
    ensures
        match r {
            Some(h) => builder_head(*b) matches Some(head) && headers::entries(*h) == head.1,
            None => builder_head(*b) is None,
        },
{
    b.headers_ref()
}

fn find_colon(chars: &Vec<char>) -> (r: Option<usize>)
    ensures
        match r {
            Some(i) => i < chars@.len() && chars@.index_of_first(':') == Some(i as int),
            None => !chars@.contains(':'),
        },
        r is Some <==> chars@.contains(':'),
{
    let mut i: usize = 0;
    while i < chars.len()
        invariant
            i <= chars.len(),
            forall|j: int| 0 <= j < i ==> chars@[j] != ':',
        decreases chars.len() - i,
    {
        if chars[i] == ':' {
            proof {
                chars@.index_of_first_ensures(':');
                assert(chars@.contains(':'));
            }
            return Some(i);
        }
        i = i + 1;
    }
    None
}

proof fn lemma_head_stays_none(status: u16, lines: Seq<Seq<char>>, n: int)
    requires
        0 <= n <= lines.len(),
        response_head(status, lines.take(n)) is None,
    ensures
        response_head(status, lines) is None,
    decreases lines.len(),
{
    if n < lines.len() {
        assert(lines.drop_last().take(n) =~= lines.take(n));
        lemma_head_stays_none(status, lines.drop_last(), n);
    } else {
        assert(lines.take(n) =~= lines);
    }
}

impl CrankerProtocolResponse {
    /**
     * CRANKER_PROTOCOL_VERSION_1_0
     * <p>
     * response msg format:
     * <p>
     * =====Part 1===================
     * ** HTTP/1.1 200 OK\n
     * ** [headers]\n
     * ** \n
     * ===== Part 2 (if msg with body)======
     * **Binary Content
     */
    pub fn new(message_to_apply: String) -> (r: Result<Self, CrankerRouterException>)
        ensures
            match response_of(message_to_apply@) {
                Ok((status, lines)) => r matches Ok(x) && x.status == status && text::texts(
                    x.headers@,
                ) == lines,
                Err(ex) => r matches Err(e) && e@ == ex,
            },
    {
        let lines = text::split_on(message_to_apply.as_str(), '\n');
        let ghost texts = text::texts(lines@);
        assert(texts.len() == lines@.len());
        assert(texts[0] == lines@[0]@);
        let bits = text::split_on(lines[0].as_str(), ' ');
        assert(text::texts(bits@).len() == bits@.len());
        if bits.len() < 2 {
            let mut reason = text::concat(
                "failed to parse status code from target response (",
                message_to_apply.as_str(),
            );
            reason.push_str("): no status code found");
            return Err(CrankerRouterException::new(reason));
        }
        assert(text::texts(bits@)[1] == bits@[1]@);
        let status: u16 = match text::parse_u16(bits[1].as_str()) {
            Ok(status) => status,
            Err(kind) => {
                let mut reason = text::concat(
                    "failed to parse status code from target response header (",
                    bits[1].as_str(),
                );
                reason.push_str("): ParseIntError { kind: ");
                reason.push_str(kind.as_str());
                reason.push_str(" }");
                return Err(CrankerRouterException::new(reason));
            },
        };
        let ghost rev = texts.skip(1).reverse();
        let mut headers: Vec<String> = Vec::new();
        let mut n: usize = lines.len();
        assert(text::texts(headers@) =~= nonempty(rev.take(0)));
        while n > 1
            invariant
                1 <= n <= lines.len(),
                texts == text::texts(lines@),
                rev == texts.skip(1).reverse(),
                text::texts(headers@) == nonempty(rev.take(lines.len() - n)),
            decreases n,
        {
            n = n - 1;
            proof {
                let t = rev.take(lines.len() - n);
                assert(t.drop_last() =~= rev.take(lines.len() - n - 1));
                assert(t.last() == texts[n as int]);
                assert(texts[n as int] == lines@[n as int]@);
            }
            if text::chars_of(lines[n].as_str()).len() > 0 {
                let ghost before = headers@;
                headers.push(lines[n].clone());
                assert(text::texts(headers@) =~= text::texts(before).push(lines@[n as int]@));
            }
        }
        assert(rev.take(rev.len() as int) =~= rev);
        Ok(Self { headers, status })
    }

    pub fn headers_map(&self) {
    }

    /// The answer in place of one that could not be had.
    pub fn default_failed() -> (r: Self)
        ensures
            r.headers@.len() == 0,
            r.status == 500,
    {
        Self { headers: Vec::new(), status: 500 }
    }

    /// The response to the client, without its body. Headers that concern one connection only
    /// are left out, and with them the `Connection` header that could list more of them.
    pub fn build(&self) -> (r: Result<Builder, CrankerRouterException>)
        ensures
            if all_colons(text::texts(self.headers@)) {
                r matches Ok(b) && is_head(b, self.status, text::texts(self.headers@))
            } else {
                r matches Err(e) && e@ == corrupted(text::texts(self.headers@))
            },
    {
        let ghost lines = text::texts(self.headers@);
        assert(lines.len() == self.headers@.len());
        let mut res = builder_status(self.status);
        let mut i: usize = 0;
        assert(lines.take(0) =~= Seq::empty());
        while i < self.headers.len()
            invariant
                i <= self.headers.len(),
                lines == text::texts(self.headers@),
                forall|j: int| 0 <= j < i ==> (#[trigger] lines[j]).contains(':'),
                builder_head(res) is Some ==> builder_head(res) == response_head(
                    self.status,
                    lines.take(i as int),
                ),
                self.headers@.len() <= headers::NAME_LIMIT ==> builder_head(res) == response_head(
                    self.status,
                    lines.take(i as int),
                ),
                builder_head(res) matches Some((_, es)) ==> es.len() <= i,
            decreases self.headers.len() - i,
        {
            let header_line = text::chars_of(self.headers[i].as_str());
            assert(lines[i as int] == header_line@);
            let colon_idx: usize = match find_colon(&header_line) {
                Some(c) => c,
                None => {
                    let reason = text::concat(
                        "failed to parse protocol response, header seems corrupted: ",
                        text::debug_strings(&self.headers).as_str(),
                    );
                    return Err(CrankerRouterException::new(reason));
                },
            };
            let key_part = text::string_between(&header_line, 0, colon_idx);
            let key = text::trimmed(key_part.as_str());
            let lowercase_key = text::lowered(key.as_str());
            proof {
                let t = lines.take(i + 1);
                assert(t.drop_last() =~= lines.take(i as int));
                assert(t.last() == header_line@);
                assert(key_part@ =~= header_line@.take(colon_idx as int));
            }
            if !hop_by_hop(lowercase_key.as_str()) && !text::str_eq(
                lowercase_key.as_str(),
                "server",
            ) {
                let value_part = text::string_between(
                    &header_line,
                    colon_idx + 1,
                    header_line.len(),
                );
                assert(value_part@ =~= header_line@.skip(colon_idx + 1));
                let value = text::trimmed(value_part.as_str());
                proof {
                    if let Some((status, es)) = builder_head(res) {
                        if let Some(bytes) = headers::text_value(value@) {
                            headers::lemma_appended_len(es, lowercase_key@, bytes);
                        }
                    }
                }
                res = builder_header(res, key.as_str(), value.as_str());
            }
            i = i + 1;
        }
        assert(lines.take(lines.len() as int) =~= lines);
        Ok(res)
    }
}

/// Whether these are the headers that a builder has so far, if it has not been given something
/// wrong.
pub open spec fn has_headers(b: Builder, headers: Option<&HeaderMap>) -> bool {
    match headers {
        Some(h) => builder_head(b) matches Some(head) && headers::entries(*h) == head.1,
        None => builder_head(b) is None,
    }
}

/// Whether `r` is what comes of a connector's message that starts the response, when the listeners
/// are told what `v` says. A listener may stop what is stopped by nothing else.
pub open spec fn begins(
    all: Seq<Arc<dyn ProxyListener>>,
    v: ProxyInfoView,
    message: Seq<char>,
    r: Result<Builder, CrankerRouterException>,
) -> bool {
    match response_of(message) {
        Err(ex) => r matches Err(e) && e@ == ex,
        Ok((status, lines)) => if !all_colons(lines) {
            r matches Err(e) && e@ == corrupted(lines)
        } else {
            exists|b: Builder, hdr: Option<&HeaderMap>|
                #[trigger] is_head(b, status, lines) && #[trigger] has_headers(b, hdr)
                    && told_responding(all, v, status, hdr, outcome(r)) && (r matches Ok(built)
                    ==> built == b)
        },
    }
}

/// Starts the response to the client from a connector's message. A listener may stop it.
pub fn begin_response(
    listeners: &Listeners,
    info: &ProxyInfoData,
    message_to_apply: String,
) -> (r: Result<Builder, CrankerRouterException>)
    ensures
        begins(listeners@, info@, message_to_apply@, r),
{
    let cpr = match CrankerProtocolResponse::new(message_to_apply) {
        Ok(cpr) => cpr,
        Err(e) => {
            return Err(e);
        },
    };
    let status = cpr.status;
    let res_builder = match cpr.build() {
        Ok(b) => b,
        Err(e) => {
            return Err(e);
        },
    };
    let hdr = builder_headers(&res_builder);
    assert(has_headers(res_builder, hdr));
    let told = responding(listeners, info, status, hdr);
    assert(told is Ok ==> told->Ok_0 == ());
    match told {
        Ok(_) => Ok(res_builder),
        Err(e) => Err(e),
    }
}

/// No header that concerns one connection only, and no `Server` header, is sent back to the
/// client, whatever the target's response holds.
pub proof fn law_not_sent_back(status: u16, lines: Seq<Seq<char>>, i: int)
    requires
        response_head(status, lines) matches Some((_, es)) && 0 <= i < es.len(),
    ensures
        ({
            let name = (response_head(status, lines)->0).1[i].0;
            !config::is_hop_by_hop(name) && !config::is_not_sent_back(name)
        }),
    decreases lines.len(),
{
    if lines.len() > 0 {
        let before = response_head(status, lines.drop_last());
        let line = lines.last();
        let es = (response_head(status, lines)->0).1;
        let es0 = (before->0).1;
        if is_sent_back(line_key(line)) {
            let name = text::lower(line_key(line));
            let bytes = headers::text_value(line_value(line))->0;
            if i < es0.len() {
                law_not_sent_back(status, lines.drop_last(), i);
                assert(es[i].0 == es0[i].0);
            } else {
                assert(es[i].0 == name);
            }
        } else {
            law_not_sent_back(status, lines.drop_last(), i);
        }
    }
}

} // verus!
