//! The message that hands a client's request to a connector.

use crate::exceptions::{CrankerRouterException, ExceptionView};
use crate::headers::{header_keys, header_values, name_str, value_to_str, Entry};
use crate::http_utils::ok_strings;
use crate::{headers, text};
use axum::http::{HeaderMap, HeaderValue};
use vstd::prelude::*;

verus! {

pub struct CrankerProtocolRequestBuilder {
    pub request_line: Option<String>,
    pub header_map_str: Option<String>,
    pub end_marker: Option<EndMarker>,
}

/// Whether a request has a body, and where in it the message stands.
#[derive(Debug, Clone, Copy, PartialEq, Eq, Structural)]
pub enum EndMarker {
    RequestBodyPending,
    RequestHasNoBody,
    RequestBodyEnded,
}

impl EndMarker {
    /// The marker as it is sent.
    pub open spec fn mark(self) -> Seq<char> {
        match self {
            EndMarker::RequestBodyPending => "_1"@,
            EndMarker::RequestHasNoBody => "_2"@,
            EndMarker::RequestBodyEnded => "_3"@,
        }
    }

    pub fn as_str(&self) -> (r: &'static str)
        ensures
            r@ == self.mark(),
    {
        match self {
            EndMarker::RequestBodyPending => "_1",
            EndMarker::RequestHasNoBody => "_2",
            EndMarker::RequestBodyEnded => "_3",
        }
    }
}

/// The lines of one name's values that are visible ASCII.
pub open spec fn entry_lines(name: Seq<char>, values: Seq<Seq<u8>>) -> Seq<char>
    decreases values.len(),
{
    if values.len() == 0 {
        Seq::empty()
    } else {
        let before = entry_lines(name, values.drop_last());
        match headers::value_text(values.last()) {
            Some(t) => before + name + ":"@ + t + "\n"@,
            None => before,
        }
    }
}

/// The lines of all headers but the cookies.
pub open spec fn header_lines(es: Seq<Entry>) -> Seq<char>
    decreases es.len(),
{
    if es.len() == 0 {
        Seq::empty()
    } else {
        let before = header_lines(es.drop_last());
        if es.last().0 == "cookie"@ {
            before
        } else {
            before + entry_lines(es.last().0, es.last().1)
        }
    }
}

/// The cookies: the values of `cookie` that are visible ASCII.
pub open spec fn cookies(es: Seq<Entry>) -> Seq<Seq<char>>
    decreases es.len(),
{
    if es.len() == 0 {
        Seq::empty()
    } else {
        let before = cookies(es.drop_last());
        if es.last().0 == "cookie"@ {
            before + crate::http_utils::ok_texts(es.last().1)
        } else {
            before
        }
    }
}

/// The headers as they are sent: a line for each value, then one line with all cookies.
pub open spec fn header_str(es: Seq<Entry>) -> Seq<char> {
    header_lines(es) + text::join(cookies(es), "; "@) + "\n"@
}

/// The message that the parts make up, or why they make up none.
pub open spec fn request_message(
    request_line: Option<Seq<char>>,
    header_map_str: Option<Seq<char>>,
    end_marker: Option<EndMarker>,
) -> Result<Seq<char>, ExceptionView> {
    match (request_line, header_map_str, end_marker) {
        (_, _, None) => Err(
            ExceptionView::of("failed to build cranker protocol request. end marker missing"@),
        ),
        (Some(line), Some(hdr), Some(m)) => Ok(line + "\n"@ + hdr + "\n"@ + m.mark()),
        (_, _, Some(EndMarker::RequestBodyEnded)) => Ok(EndMarker::RequestBodyEnded.mark()),
        _ => Err(
            ExceptionView::of(
                "failed to build cranker protocol request. end marker should be RequestBodyEnded \\\n                     when no request line and header map str is present."@,
            ),
        ),
    }
}

impl CrankerProtocolRequestBuilder {
    pub fn new() -> (r: Self)
        ensures
            r == (CrankerProtocolRequestBuilder {
                request_line: None,
                header_map_str: None,
                end_marker: None,
            }),
    {
        Self { request_line: None, header_map_str: None, end_marker: None }
    }

    pub fn with_request_line(self, request_line: String) -> (r: Self)
        ensures
            r == (CrankerProtocolRequestBuilder { request_line: Some(request_line), ..self }),
    {
        Self {
            request_line: Some(request_line),
            header_map_str: self.header_map_str,
            end_marker: self.end_marker,
        }
    }

    pub fn with_request_headers(self, header_map: &HeaderMap) -> (r: Self)
        ensures
            r.header_map_str matches Some(s) && s@ == header_str(headers::entries(*header_map)),
            r.request_line == self.request_line,
            r.end_marker == self.end_marker,
    {
        Self {
            request_line: self.request_line,
            header_map_str: Some(Self::build_header_str(header_map)),
            end_marker: self.end_marker,
        }
    }

    pub fn with_request_body_pending(self) -> (r: Self)
        ensures
            r == (CrankerProtocolRequestBuilder {
                end_marker: Some(EndMarker::RequestBodyPending),
                ..self
            }),
    {
        self.with_end_marker(EndMarker::RequestBodyPending)
    }

    pub fn with_request_has_no_body(self) -> (r: Self)
        ensures
            r == (CrankerProtocolRequestBuilder {
                end_marker: Some(EndMarker::RequestHasNoBody),
                ..self
            }),
    {
        self.with_end_marker(EndMarker::RequestHasNoBody)
    }

    pub fn with_request_body_ended(self) -> (r: Self)
        ensures
            r == (CrankerProtocolRequestBuilder {
                end_marker: Some(EndMarker::RequestBodyEnded),
                ..self
            }),
    {
        self.with_end_marker(EndMarker::RequestBodyEnded)
    }

    fn with_end_marker(self, end_marker: EndMarker) -> (r: Self)
        ensures
            r == (CrankerProtocolRequestBuilder { end_marker: Some(end_marker), ..self }),
    {
        Self {
            request_line: self.request_line,
            header_map_str: self.header_map_str,
            end_marker: Some(end_marker),
        }
    }

    pub fn build(self) -> (r: Result<String, CrankerRouterException>)
        ensures
            match request_message(
                crate::forwarded::opt_text(self.request_line),
                crate::forwarded::opt_text(self.header_map_str),
                self.end_marker,
            ) {
                Ok(m) => r matches Ok(s) && s@ == m,
                Err(ex) => r matches Err(e) && e@ == ex,
            },
    {
        let end_marker = match self.end_marker {
            Some(m) => m,
            None => {
                return Err(
                    CrankerRouterException::new(
                        "failed to build cranker protocol request. end marker missing".to_string(),
                    ),
                );
            },
        };
        if let Some(line) = &self.request_line {
            if let Some(hdr) = &self.header_map_str {
                return Ok(Self::build_req_and_hdr(line.as_str(), hdr.as_str(), end_marker));
            }
        }
        match end_marker {
            EndMarker::RequestBodyEnded => Ok(end_marker.as_str().to_string()),
            _ => Err(
                CrankerRouterException::new(
                    "failed to build cranker protocol request. end marker should be RequestBodyEnded \\\n                     when no request line and header map str is present.".to_string(),
                ),
            ),
        }
    }

    fn build_req_and_hdr(line: &str, hdr: &str, end_marker: EndMarker) -> (r: String)
        ensures
            r@ == line@ + "\n"@ + hdr@ + "\n"@ + end_marker.mark(),
    {
        let mut res = String::new();
        res.push_str(line);
        res.push_str("\n");
        res.push_str(hdr);
        res.push_str("\n");
        res.push_str(end_marker.as_str());
        assert(res@ =~= line@ + "\n"@ + hdr@ + "\n"@ + end_marker.mark());
        res
    }

    fn build_header_str(header_map: &HeaderMap) -> (r: String)
        ensures
            r@ == header_str(headers::entries(*header_map)),
    {
        let ghost es = headers::entries(*header_map);
        let mut headers_str = String::new();
        let mut cookie_list: Vec<String> = Vec::new();
        let keys = header_keys(header_map);
        let mut i: usize = 0;
        assert(es.take(0) =~= Seq::empty());
        assert(text::texts(cookie_list@) =~= Seq::empty());
        proof {
            assert forall|j: int, k: int| 0 <= j < k < es.len() implies (#[trigger] es[j]).0 != (
            #[trigger] es[k]).0 by {
                assert(headers::name_text(*keys@[j]) == es[j].0);
                assert(headers::name_text(*keys@[k]) == es[k].0);
            }
        }
        while i < keys.len()
            invariant
                i <= keys.len(),
                es == headers::entries(*header_map),
                keys@.len() == es.len(),
                forall|j: int|
                    0 <= j < keys@.len() ==> headers::name_text(*(#[trigger] keys@[j])) == es[j].0,
                forall|j: int, k: int|
                    0 <= j < k < es.len() ==> (#[trigger] es[j]).0 != (#[trigger] es[k]).0,
                headers_str@ == header_lines(es.take(i as int)),
                text::texts(cookie_list@) == cookies(es.take(i as int)),
            decreases keys.len() - i,
        {
            let k = name_str(keys[i]);
            proof {
                let t = es.take(i + 1);
                assert(t.drop_last() =~= es.take(i as int));
                assert(t.last() == es[i as int]);
                headers::lemma_values_of_entry(es, i as int);
            }
            if text::str_eq(k, "cookie") {
                let mut more = ok_strings(header_values(header_map, keys[i]));
                let ghost before = cookie_list@;
                let ghost added = more@;
                cookie_list.append(&mut more);
                assert(text::texts(cookie_list@) =~= text::texts(before) + text::texts(added));
            } else {
                Self::push_entry_lines(&mut headers_str, k, header_values(header_map, keys[i]));
            }
            i = i + 1;
        }
        assert(es.take(es.len() as int) =~= es);
        let cookie_cat = text::joined(&cookie_list, "; ");
        headers_str.push_str(cookie_cat.as_str());
        headers_str.push_str("\n");
        headers_str
    }

    fn push_entry_lines(out: &mut String, name: &str, values: Vec<&HeaderValue>)
        ensures
            final(out)@ == old(out)@ + entry_lines(
                name@,
                values@.map_values(|v: &HeaderValue| headers::value_bytes(*v)),
            ),
    {
        let ghost bytes = values@.map_values(|v: &HeaderValue| headers::value_bytes(*v));
        let ghost start = out@;
        let mut i: usize = 0;
        assert(out@ =~= start + entry_lines(name@, bytes.take(0)));
        while i < values.len()
            invariant
                i <= values.len(),
                bytes == values@.map_values(|v: &HeaderValue| headers::value_bytes(*v)),
                out@ == start + entry_lines(name@, bytes.take(i as int)),
            decreases values.len() - i,
        {
            proof {
                let t = bytes.take(i + 1);
                assert(t.drop_last() =~= bytes.take(i as int));
                assert(t.last() == headers::value_bytes(*values@[i as int]));
            }
            let ghost before = out@;
            if let Some(s) = value_to_str(values[i]) {
                out.push_str(name);
                out.push_str(":");
                out.push_str(s);
                out.push_str("\n");
                assert(out@ =~= before + name@ + ":"@ + s@ + "\n"@);
                assert(out@ =~= start + entry_lines(name@, bytes.take(i + 1)));
            }
            i = i + 1;
        }
        assert(bytes.take(bytes.len() as int) =~= bytes);
    }
}

/// Whether `part` stands in `s` at `k`.
pub open spec fn stands_at(s: Seq<char>, k: int, part: Seq<char>) -> bool {
    0 <= k && k + part.len() <= s.len() && s.subrange(k, k + part.len()) == part
}

proof fn lemma_stands_in_front(s: Seq<char>, k: int, part: Seq<char>, more: Seq<char>)
    requires
        stands_at(s, k, part),
    ensures
        stands_at(s + more, k, part),
{
    assert((s + more).subrange(k, k + part.len()) =~= s.subrange(k, k + part.len()));
}

proof fn lemma_stands_behind(s: Seq<char>, k: int, part: Seq<char>, before: Seq<char>)
    requires
        stands_at(s, k, part),
    ensures
        stands_at(before + s, before.len() + k, part),
{
    let a = before.len() + k;
    assert((before + s).subrange(a, a + part.len()) =~= s.subrange(k, k + part.len()));
}

proof fn lemma_entry_line(name: Seq<char>, values: Seq<Seq<u8>>, j: int, t: Seq<char>) -> (k: int)
    requires
        0 <= j < values.len(),
        headers::value_text(values[j]) == Some(t),
    ensures
        stands_at(entry_lines(name, values), k, name + ":"@ + t + "\n"@),
    decreases values.len(),
{
    let line = name + ":"@ + t + "\n"@;
    let before = entry_lines(name, values.drop_last());
    if j == values.len() - 1 {
        assert(entry_lines(name, values) =~= before + line);
        assert(line.subrange(0, line.len() as int) =~= line);
        lemma_stands_behind(line, 0, line, before);
        before.len() as int
    } else {
        let k = lemma_entry_line(name, values.drop_last(), j, t);
        if let Some(last) = headers::value_text(values.last()) {
            let more = name + ":"@ + last + "\n"@;
            assert(entry_lines(name, values) =~= before + more);
            lemma_stands_in_front(before, k, line, more);
        }
        k
    }
}

proof fn lemma_header_line(es: Seq<Entry>, i: int, j: int, t: Seq<char>) -> (k: int)
    requires
        0 <= i < es.len(),
        0 <= j < es[i].1.len(),
        es[i].0 != "cookie"@,
        headers::value_text(es[i].1[j]) == Some(t),
    ensures
        stands_at(header_lines(es), k, es[i].0 + ":"@ + t + "\n"@),
    decreases es.len(),
{
    let line = es[i].0 + ":"@ + t + "\n"@;
    let before = header_lines(es.drop_last());
    let lines = entry_lines(es.last().0, es.last().1);
    if i == es.len() - 1 {
        let k = lemma_entry_line(es.last().0, es.last().1, j, t);
        lemma_stands_behind(lines, k, line, before);
        before.len() + k
    } else {
        let k = lemma_header_line(es.drop_last(), i, j, t);
        if es.last().0 != "cookie"@ {
            lemma_stands_in_front(before, k, line, lines);
        }
        k
    }
}

/// Each value of a header that is visible ASCII is sent in a line of its own behind the header's
/// name, but for cookies, which share a line.
pub proof fn law_header_has_its_line(es: Seq<Entry>, i: int, j: int, t: Seq<char>)
    requires
        0 <= i < es.len(),
        0 <= j < es[i].1.len(),
        es[i].0 != "cookie"@,
        headers::value_text(es[i].1[j]) == Some(t),
    ensures
        exists|k: int| #[trigger] stands_at(header_str(es), k, es[i].0 + ":"@ + t + "\n"@),
{
    let k = lemma_header_line(es, i, j, t);
    let rest = text::join(cookies(es), "; "@) + "\n"@;
    assert(header_str(es) =~= header_lines(es) + rest);
    lemma_stands_in_front(header_lines(es), k, es[i].0 + ":"@ + t + "\n"@, rest);
}

} // verus!
