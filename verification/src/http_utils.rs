//! The headers of a proxied request: what is read from the client's and what is sent on.

use crate::exceptions::{CrankerRouterException, CrexKind, ExceptionView};
use crate::forwarded::{ForwardedHeader, ForwardedView};
use crate::config::{contains_name, RouterSettings};
use crate::headers::{
    header_append, header_get, header_get_all, header_insert, header_keys, header_name_count,
    header_values, name_str, value_clone, value_from_str, value_to_str, Entry, NAME_LIMIT,
};
use crate::net::{HttpVersion, RequestUri};
use crate::text;
use crate::{config, forwarded, headers};
use axum::http::{HeaderMap, HeaderValue};
use vstd::prelude::*;

verus! {

/// The texts of the values that are visible ASCII, in order.
pub open spec fn ok_texts(values: Seq<Seq<u8>>) -> Seq<Seq<char>>
    decreases values.len(),
{
    if values.len() == 0 {
        Seq::empty()
    } else {
        let before = ok_texts(values.drop_last());
        match headers::value_text(values.last()) {
            Some(t) => before.push(t),
            None => before,
        }
    }
}

/// The texts of the values under a name that are visible ASCII.
pub fn header_map_get_all_ok_to_string(hdr: &HeaderMap, hdr_key: &str) -> (r: Vec<String>)
    ensures
        text::texts(r@) == ok_texts(headers::looked_up(headers::entries(*hdr), hdr_key@)),
{
    ok_strings(header_get_all(hdr, hdr_key))
}

/// The texts of the values that are visible ASCII.
pub(crate) fn ok_strings(all: Vec<&HeaderValue>) -> (r: Vec<String>)
    ensures
        text::texts(r@) == ok_texts(all@.map_values(|v: &HeaderValue| headers::value_bytes(*v))),
{
    let ghost values = all@.map_values(|v: &HeaderValue| headers::value_bytes(*v));
    let mut r: Vec<String> = Vec::new();
    let mut i: usize = 0;
    assert(text::texts(r@) =~= ok_texts(values.take(0)));
    while i < all.len()
        invariant
            i <= all.len(),
            values == all@.map_values(|v: &HeaderValue| headers::value_bytes(*v)),
            text::texts(r@) == ok_texts(values.take(i as int)),
        decreases all.len() - i,
    {
        proof {
            let t = values.take(i + 1);
            assert(t.drop_last() =~= values.take(i as int));
            assert(t.last() == headers::value_bytes(*all@[i as int]));
        }
        if let Some(s) = value_to_str(all[i]) {
            let ghost before = r@;
            r.push(s.to_string());
            assert(text::texts(r@) =~= text::texts(before).push(s@));
        }
        i = i + 1;
    }
    assert(values.take(values.len() as int) =~= values);
    r
}

/// The text of the first value under a name, if there is one and it is visible ASCII.
pub open spec fn first_text(es: Seq<Entry>, name: Seq<char>) -> Option<Seq<char>> {
    let values = headers::looked_up(es, name);
    if values.len() > 0 {
        headers::value_text(values[0])
    } else {
        None
    }
}

/// The text of the first value under a name, if there is one and it is visible ASCII.
pub fn header_first_text(hdr: &HeaderMap, name: &str) -> (r: Option<String>)
    ensures
        forwarded::opt_text(r) == first_text(headers::entries(*hdr), name@),
{
    match header_get(hdr, name) {
        Some(v) => match value_to_str(v) {
            Some(s) => Some(s.to_string()),
            None => None,
        },
        None => None,
    }
}

/// The pieces of a comma-separated list, without the white space around them.
pub open spec fn listed(s: Seq<char>) -> Seq<Seq<char>> {
    text::split(s, ',').map_values(|p: Seq<char>| text::trim(p))
}

/// Splits a comma-separated list.
pub fn split_list(s: &str) -> (r: Vec<String>)
    ensures
        text::texts(r@) == listed(s@),
{
    let pieces = text::split_on(s, ',');
    let mut r: Vec<String> = Vec::new();
    let mut i: usize = 0;
    while i < pieces.len()
        invariant
            i <= pieces.len(),
            text::texts(pieces@) == text::split(s@, ','),
            text::texts(r@) == listed(s@).take(i as int),
        decreases pieces.len() - i,
    {
        let ghost before = r@;
        r.push(text::trimmed(pieces[i].as_str()));
        proof {
            assert(text::texts(pieces@)[i as int] == pieces@[i as int]@);
            assert(text::texts(r@) =~= text::texts(before).push(listed(s@)[i as int]));
            assert(listed(s@).take(i + 1) =~= listed(s@).take(i as int).push(
                listed(s@)[i as int],
            ));
        }
        i = i + 1;
    }
    assert(pieces@.len() == text::texts(pieces@).len());
    assert(listed(s@).take(listed(s@).len() as int) =~= listed(s@));
    r
}

/// The header names that a `Connection` header lists.
pub open spec fn custom_hop_by_hop(conn: Option<Seq<u8>>) -> Seq<Seq<char>> {
    match conn {
        Some(bytes) => match headers::value_text(bytes) {
            Some(t) => if t.len() > 0 {
                listed(t)
            } else {
                Seq::empty()
            },
            None => Seq::empty(),
        },
        None => Seq::empty(),
    }
}

/// The header names that a `Connection` header lists, each of which concerns the connection
/// only.
pub fn get_custom_hop_by_hop_headers(opt_conn_hdr: Option<&HeaderValue>) -> (r: Vec<String>)
    ensures
        text::texts(r@) == custom_hop_by_hop(
            match opt_conn_hdr {
                Some(v) => Some(headers::value_bytes(*v)),
                None => None,
            },
        ),
{
    if let Some(conn_hdr) = opt_conn_hdr {
        if let Some(conn_hdr_str) = value_to_str(conn_hdr) {
            if text::chars_of(conn_hdr_str).len() > 0 {
                return split_list(conn_hdr_str);
            }
        }
    }
    let r: Vec<String> = Vec::new();
    assert(text::texts(r@) =~= Seq::empty());
    r
}

/// The pieces of several comma-separated lists.
pub open spec fn all_listed(lists: Seq<Seq<char>>) -> Seq<Seq<char>>
    decreases lists.len(),
{
    if lists.len() == 0 {
        Seq::empty()
    } else {
        all_listed(lists.drop_last()) + listed(lists.last())
    }
}

/// The pieces of the lists under one of the `X-Forwarded-*` names.
pub open spec fn x_forwarded_value(es: Seq<Entry>, name: Seq<char>) -> Seq<Seq<char>> {
    all_listed(ok_texts(headers::looked_up(es, name)))
}

/// The pieces of the lists under one of the `X-Forwarded-*` names.
pub fn get_x_forwarded_value(hdr: &HeaderMap, xf_key: &str) -> (r: Vec<String>)
    ensures
        text::texts(r@) == x_forwarded_value(headers::entries(*hdr), xf_key@),
{
    let vals = header_map_get_all_ok_to_string(hdr, xf_key);
    let ghost lists = text::texts(vals@);
    let mut r: Vec<String> = Vec::new();
    let mut i: usize = 0;
    assert(text::texts(r@) =~= all_listed(lists.take(0)));
    while i < vals.len()
        invariant
            i <= vals.len(),
            lists == text::texts(vals@),
            text::texts(r@) == all_listed(lists.take(i as int)),
        decreases vals.len() - i,
    {
        let mut pieces = split_list(vals[i].as_str());
        let ghost before = r@;
        let ghost added = pieces@;
        r.append(&mut pieces);
        proof {
            assert(text::texts(r@) =~= text::texts(before) + text::texts(added));
            let t = lists.take(i + 1);
            assert(t.drop_last() =~= lists.take(i as int));
            assert(t.last() == vals@[i as int]@);
        }
        i = i + 1;
    }
    assert(lists.take(lists.len() as int) =~= lists);
    r
}

/// The value of the `Via` header: those of the proxies before, then this server's.
pub open spec fn new_via_value(this_server_via: Seq<char>, prev: Seq<Seq<char>>) -> Seq<char> {
    text::join(prev.push(this_server_via), ", "@)
}

/// The value of the `Via` header: those of the proxies before, then this server's.
pub fn get_new_via_value(this_server_via: String, prev_via_list: Vec<String>) -> (r: String)
    ensures
        r@ == new_via_value(this_server_via@, text::texts(prev_via_list@)),
{
    let mut list = prev_via_list;
    list.push(this_server_via);
    assert(text::texts(list@) =~= text::texts(prev_via_list@).push(this_server_via@));
    text::joined(&list, ", ")
}

/// The position of the last character that is no digit, or -1.
pub open spec fn last_non_digit(host: Seq<char>) -> int
    decreases host.len(),
{
    if host.len() == 0 {
        -1
    } else if text::is_digit(host.last()) {
        last_non_digit(host.drop_last())
    } else {
        host.len() - 1
    }
}

/// One element made from `X-Forwarded-*` headers, or why there is none. A host whose port is
/// to be taken off must hold something other than digits to be readable at all, and a colon
/// must stand in front of its port.
pub enum XForwarded<T> {
    Read(T),
    Refused,
    Unreadable,
}

/// A host without its port.
pub open spec fn without_port(host: Seq<char>) -> XForwarded<Seq<char>> {
    let p = last_non_digit(host);
    if p < 0 {
        XForwarded::Unreadable
    } else if host[p] == ':' {
        XForwarded::Read(host.take(p))
    } else {
        XForwarded::Refused
    }
}

/// Takes the port off a host.
fn strip_port(host: &str) -> (r: XForwarded<String>)
    ensures
        match without_port(host@) {
            XForwarded::Read(h) => r matches XForwarded::Read(s) && s@ == h,
            XForwarded::Refused => r is Refused,
            XForwarded::Unreadable => r is Unreadable,
        },
{
    let chars = text::chars_of(host);
    let mut n: usize = chars.len();
    assert(chars@.take(n as int) =~= chars@);
    while n > 0 && chars[n - 1] >= '0' && chars[n - 1] <= '9'
        invariant
            n <= chars.len(),
            last_non_digit(chars@) == last_non_digit(chars@.take(n as int)),
        decreases n,
    {
        assert(chars@.take(n as int).drop_last() =~= chars@.take(n - 1));
        n = n - 1;
    }
    if n == 0 {
        assert(chars@.take(0).len() == 0);
        XForwarded::Unreadable
    } else {
        assert(chars@.take(n as int).last() == chars@[n - 1]);
        assert(last_non_digit(chars@) == n - 1);
        if chars[n - 1] != ':' {
            XForwarded::Refused
        } else {
            let s = text::string_between(&chars, 0, n - 1);
            assert(s@ =~= host@.take(n - 1));
            XForwarded::Read(s)
        }
    }
}

/// What the `X-Forwarded-*` headers of a request list.
#[verifier::ext_equal]
pub struct XLists {
    pub hosts: Seq<Seq<char>>,
    pub ports: Seq<Seq<char>>,
    pub protos: Seq<Seq<char>>,
    pub fors: Seq<Seq<char>>,
    pub cur_host: Option<Seq<char>>,
}

pub open spec fn greater(a: nat, b: nat) -> nat {
    if a < b {
        b
    } else {
        a
    }
}

impl XLists {
    /// What the headers of a request list.
    pub open spec fn of(es: Seq<Entry>) -> XLists {
        XLists {
            hosts: x_forwarded_value(es, "x-forwarded-host"@),
            ports: x_forwarded_value(es, "x-forwarded-port"@),
            protos: x_forwarded_value(es, "x-forwarded-proto"@),
            fors: x_forwarded_value(es, "x-forwarded-for"@),
            cur_host: first_text(es, "host"@),
        }
    }

    /// The length of the longest list. Only lists of this length count.
    pub open spec fn max(self) -> nat {
        greater(
            greater(greater(self.hosts.len(), self.protos.len()), self.fors.len()),
            self.ports.len(),
        )
    }

    pub open spec fn at(self, list: Seq<Seq<char>>, i: int) -> Option<Seq<char>> {
        if list.len() == self.max() {
            Some(list[i])
        } else {
            None
        }
    }

    /// Whether the port of the `i`th proxy need not be said: it is not, or it is the one that
    /// goes with the protocol.
    pub open spec fn default_port(self, i: int) -> bool {
        match (self.at(self.ports, i), self.at(self.protos, i)) {
            (None, _) => true,
            (Some(port), Some(proto)) => {
                ||| text::lower(proto) == "http"@ && port == "80"@
                ||| text::lower(proto) == "https"@ && port == "443"@
            },
            (Some(_), None) => false,
        }
    }

    /// The `i`th proxy's host: of the list, or else, where a port is listed, the request's.
    pub open spec fn host(self, i: int) -> Option<Seq<char>> {
        if self.hosts.len() == self.max() {
            Some(self.hosts[i])
        } else if self.ports.len() == self.max() {
            self.cur_host
        } else {
            None
        }
    }

    /// What the headers say of the `i`th proxy.
    pub open spec fn element(self, i: int) -> XForwarded<ForwardedView> {
        let with_host = |host: Option<Seq<char>>|
            ForwardedView {
                by: None,
                for_value: self.at(self.fors, i),
                host,
                proto: self.at(self.protos, i),
                extensions: Seq::empty(),
            };
        match self.host(i) {
            Some(h) if !self.default_port(i) => match without_port(h) {
                XForwarded::Read(h) => XForwarded::Read(with_host(Some(h))),
                XForwarded::Refused => XForwarded::Refused,
                XForwarded::Unreadable => XForwarded::Unreadable,
            },
            h => XForwarded::Read(with_host(h)),
        }
    }

    /// What the headers say of the first `n` proxies, or what kept the first of them from being
    /// read that could not.
    pub open spec fn elements(self, n: int) -> XForwarded<Seq<ForwardedView>>
        decreases n,
    {
        if n <= 0 {
            XForwarded::Read(Seq::empty())
        } else {
            match self.elements(n - 1) {
                XForwarded::Read(before) => match self.element(n - 1) {
                    XForwarded::Read(e) => XForwarded::Read(before.push(e)),
                    XForwarded::Refused => XForwarded::Refused,
                    XForwarded::Unreadable => XForwarded::Unreadable,
                },
                other => other,
            }
        }
    }
}

/// The elements of several `Forwarded` values, or the first error in them.
pub open spec fn all_parsed(values: Seq<Seq<char>>) -> Result<Seq<ForwardedView>, ExceptionView>
    decreases values.len(),
{
    if values.len() == 0 {
        Ok(Seq::empty())
    } else {
        match all_parsed(values.drop_last()) {
            Err(e) => Err(e),
            Ok(before) => match forwarded::parsed(values.last()) {
                Err(e) => Err(e),
                Ok(more) => Ok(before + more),
            },
        }
    }
}

/// The texts of the `Forwarded` headers.
pub open spec fn forwarded_texts(es: Seq<Entry>) -> Seq<Seq<char>> {
    ok_texts(headers::looked_up(es, "forwarded"@))
}

/// Whether the proxies that a request names can be made out, or found to be wrong.
pub open spec fn forwarded_readable(es: Seq<Entry>) -> bool {
    let x = XLists::of(es);
    forwarded_texts(es).len() == 0 ==> !(x.elements(x.max() as int) is Unreadable)
}

/// The error of an `X-Forwarded-Host` without a port to take off.
pub open spec fn port_error() -> ExceptionView {
    forwarded::parser_error("Failed to parse port"@)
}

/// The proxies that a request came through, as its headers say: in `Forwarded` headers, or
/// else in `X-Forwarded-*` headers.
pub open spec fn existing_forwarded(es: Seq<Entry>) -> Result<Seq<ForwardedView>, ExceptionView> {
    if forwarded_texts(es).len() > 0 {
        all_parsed(forwarded_texts(es))
    } else {
        let x = XLists::of(es);
        match x.elements(x.max() as int) {
            XForwarded::Read(hs) => Ok(hs),
            _ => Err(port_error()),
        }
    }
}

fn larger(a: usize, b: usize) -> (r: usize)
    ensures
        r == greater(a as nat, b as nat),
{
    if a < b {
        b
    } else {
        a
    }
}

fn list_at(list: &Vec<String>, counts: bool, i: usize) -> (r: Option<String>)
    requires
        counts ==> i < list@.len(),
    ensures
        forwarded::opt_text(r) == (if counts {
            Some(text::texts(list@)[i as int])
        } else {
            None
        }),
{
    if counts {
        Some(list[i].clone())
    } else {
        None
    }
}

fn is_default_port(port: &Option<String>, proto: &Option<String>) -> (r: bool)
    ensures
        r == (match (forwarded::opt_text(*port), forwarded::opt_text(*proto)) {
            (None, _) => true,
            (Some(port), Some(proto)) => {
                ||| text::lower(proto) == "http"@ && port == "80"@
                ||| text::lower(proto) == "https"@ && port == "443"@
            },
            (Some(_), None) => false,
        }),
{
    match port {
        None => true,
        Some(po) => match proto {
            None => false,
            Some(pr) => {
                let pr = text::lowered(pr.as_str());
                (text::str_eq(pr.as_str(), "http") && text::str_eq(po.as_str(), "80")) || (
                text::str_eq(pr.as_str(), "https") && text::str_eq(po.as_str(), "443"))
            },
        },
    }
}

/// Reads the `X-Forwarded-*` headers.
fn read_x_forwarded(hdr: &HeaderMap) -> (r: XForwarded<Vec<ForwardedHeader>>)
    ensures
        ({
            let x = XLists::of(headers::entries(*hdr));
            match x.elements(x.max() as int) {
                XForwarded::Read(hs) => {
                    &&& r matches XForwarded::Read(v)
                    &&& forwarded::forwarded_views(v@) == hs
                    &&& forall|i: int|
                        0 <= i < v@.len() ==> forwarded::no_empty_map(#[trigger] v@[i])
                },
                XForwarded::Refused => r is Refused,
                XForwarded::Unreadable => r is Unreadable,
            }
        }),
{
    let hosts = get_x_forwarded_value(hdr, "x-forwarded-host");
    let ports = get_x_forwarded_value(hdr, "x-forwarded-port");
    let protos = get_x_forwarded_value(hdr, "x-forwarded-proto");
    let fors = get_x_forwarded_value(hdr, "x-forwarded-for");
    let cur_host = header_first_text(hdr, "host");
    let ghost x = XLists::of(headers::entries(*hdr));
    assert(x.hosts.len() == hosts@.len() && x.ports.len() == ports@.len() && x.protos.len()
        == protos@.len() && x.fors.len() == fors@.len());
    let max: usize = larger(
        larger(larger(hosts.len(), protos.len()), fors.len()),
        ports.len(),
    );
    let include_host = hosts.len() == max;
    let include_port = ports.len() == max;
    let include_proto = protos.len() == max;
    let include_for = fors.len() == max;
    let mut res: Vec<ForwardedHeader> = Vec::new();
    let mut i: usize = 0;
    assert(forwarded::forwarded_views(res@) =~= Seq::empty());
    while i < max
        invariant
            i <= max,
            max == x.max(),
            x.hosts == text::texts(hosts@),
            x.ports == text::texts(ports@),
            x.protos == text::texts(protos@),
            x.fors == text::texts(fors@),
            x.hosts.len() == hosts@.len(),
            x.ports.len() == ports@.len(),
            x.protos.len() == protos@.len(),
            x.fors.len() == fors@.len(),
            include_host == (hosts@.len() == max),
            include_port == (ports@.len() == max),
            include_proto == (protos@.len() == max),
            include_for == (fors@.len() == max),
            x.cur_host == forwarded::opt_text(cur_host),
            x == XLists::of(headers::entries(*hdr)),
            x.elements(i as int) matches XForwarded::Read(hs)
                && forwarded::forwarded_views(res@) == hs,
            forall|j: int| 0 <= j < res@.len() ==> forwarded::no_empty_map(#[trigger] res@[j]),
        decreases max - i,
    {
        let port = list_at(&ports, include_port, i);
        let proto = list_at(&protos, include_proto, i);
        let for_value = list_at(&fors, include_for, i);
        let host = if include_host {
            list_at(&hosts, true, i)
        } else if include_port {
            cur_host.clone()
        } else {
            None
        };
        let use_default_port = is_default_port(&port, &proto);
        assert(use_default_port == x.default_port(i as int));
        assert(forwarded::opt_text(host) == x.host(i as int));
        let host_to_use = match host {
            Some(h) => if use_default_port {
                Some(h)
            } else {
                match strip_port(h.as_str()) {
                    XForwarded::Read(s) => Some(s),
                    XForwarded::Refused => {
                        assert(x.element(i as int) is Refused);
                        proof {
                            lemma_elements_stop(x, i + 1, max as int);
                        }
                        return XForwarded::Refused;
                    },
                    XForwarded::Unreadable => {
                        assert(x.element(i as int) is Unreadable);
                        proof {
                            lemma_elements_stop(x, i + 1, max as int);
                        }
                        return XForwarded::Unreadable;
                    },
                }
            },
            None => None,
        };
        let element = ForwardedHeader {
            by: None,
            for_value,
            host: host_to_use,
            proto,
            extensions: None,
        };
        proof {
            let e = x.element(i as int);
            assert(e matches XForwarded::Read(v) && v =~= element@);
        }
        let ghost before = res@;
        res.push(element);
        assert(forwarded::forwarded_views(res@) =~= forwarded::forwarded_views(
            before,
        ).push(element@));
        i = i + 1;
    }
    XForwarded::Read(res)
}

/// What keeps one proxy from being read keeps the list from being read.
proof fn lemma_elements_stop(x: XLists, n: int, m: int)
    requires
        0 <= n <= m,
        !(x.elements(n) is Read),
    ensures
        x.elements(m) == x.elements(n),
    decreases m,
{
    if n < m {
        lemma_elements_stop(x, n, m - 1);
    }
}

proof fn lemma_all_parsed_stops(values: Seq<Seq<char>>, n: int)
    requires
        0 <= n <= values.len(),
        all_parsed(values.take(n)) is Err,
    ensures
        all_parsed(values) == all_parsed(values.take(n)),
    decreases values.len(),
{
    if n < values.len() {
        assert(values.drop_last().take(n) =~= values.take(n));
        lemma_all_parsed_stops(values.drop_last(), n);
    } else {
        assert(values.take(n) =~= values);
    }
}

/// Whether [`get_existing_forwarded_headers`] can be asked.
pub fn is_forwarded_readable(hdr: &HeaderMap) -> (r: bool)
    ensures
        r == forwarded_readable(headers::entries(*hdr)),
{
    let all = header_map_get_all_ok_to_string(hdr, "forwarded");
    assert(text::texts(all@).len() == all@.len());
    if all.len() > 0 {
        return true;
    }
    match read_x_forwarded(hdr) {
        XForwarded::Unreadable => false,
        _ => true,
    }
}

/// The proxies that a request came through, as its headers say.
pub fn get_existing_forwarded_headers(hdr: &HeaderMap) -> (r: Result<
    Vec<ForwardedHeader>,
    CrankerRouterException,
>)
    requires
        forwarded_readable(headers::entries(*hdr)),
    ensures
        match existing_forwarded(headers::entries(*hdr)) {
            Ok(hs) => r matches Ok(v) && forwarded::forwarded_views(v@) == hs,
            Err(ex) => r matches Err(e) && e@ == ex,
        },
        r matches Ok(v) ==> forall|i: int|
            0 <= i < v@.len() ==> forwarded::no_empty_map(#[trigger] v@[i]),
{
    let all = header_map_get_all_ok_to_string(hdr, "forwarded");
    let ghost values = text::texts(all@);
    assert(values.len() == all@.len());
    if all.len() == 0 {
        return match read_x_forwarded(hdr) {
            XForwarded::Read(v) => Ok(v),
            _ => Err(
                CrankerRouterException::new("Failed to parse port".to_string()).with_err_kind(
                    CrexKind::ForwardedHeaderParserError_0008,
                ),
            ),
        };
    }
    let mut res: Vec<ForwardedHeader> = Vec::new();
    let mut i: usize = 0;
    assert(forwarded::forwarded_views(res@) =~= Seq::empty());
    assert(values.take(0) =~= Seq::empty());
    while i < all.len()
        invariant
            i <= all.len(),
            values == text::texts(all@),
            all_parsed(values.take(i as int)) matches Ok(hs)
                && forwarded::forwarded_views(res@) == hs,
            values == forwarded_texts(headers::entries(*hdr)),
            values.len() > 0,
            forall|j: int| 0 <= j < res@.len() ==> forwarded::no_empty_map(#[trigger] res@[j]),
        decreases all.len() - i,
    {
        proof {
            let t = values.take(i + 1);
            assert(t.drop_last() =~= values.take(i as int));
            assert(t.last() == all@[i as int]@);
        }
        match ForwardedHeader::from_string(all[i].as_str()) {
            Ok(mut more) => {
                let ghost before = res@;
                let ghost added = more@;
                res.append(&mut more);
                assert(forwarded::forwarded_views(res@)
                    =~= forwarded::forwarded_views(before)
                    + forwarded::forwarded_views(added));
            },
            Err(e) => {
                proof {
                    lemma_all_parsed_stops(values, i + 1);
                }
                return Err(e);
            },
        }
        i = i + 1;
    }
    assert(values.take(values.len() as int) =~= values);
    Ok(res)
}

/// What this router says of itself in the `Forwarded` header.
pub open spec fn forwarded_to_target(
    es: Seq<Entry>,
    server_ip: Seq<char>,
    remote_ip: Seq<char>,
    scheme: Option<Seq<char>>,
) -> ForwardedView {
    ForwardedView {
        by: Some(server_ip),
        for_value: Some(remote_ip),
        host: first_text(es, "host"@),
        proto: scheme,
        extensions: Seq::empty(),
    }
}

/// What this router says of itself in the `Forwarded` header: its own address, the client's,
/// the host that the client asked for, and the scheme.
pub fn create_forwarded_header_to_tgt(
    cli_hdr: &HeaderMap,
    server_self_ip: &str,
    cli_remote_ip: &str,
    cli_req_scheme: Option<&str>,
) -> (r: ForwardedHeader)
    ensures
        r@ == forwarded_to_target(
            headers::entries(*cli_hdr),
            server_self_ip@,
            cli_remote_ip@,
            match cli_req_scheme {
                Some(s) => Some(s@),
                None => None,
            },
        ),
        r.extensions is None,
{
    let r = ForwardedHeader {
        by: Some(server_self_ip.to_string()),
        for_value: Some(cli_remote_ip.to_string()),
        host: header_first_text(cli_hdr, "host"),
        proto: match cli_req_scheme {
            Some(s) => Some(s.to_string()),
            None => None,
        },
        extensions: None,
    };
    r
}

/// The headers with one more, if there is a text for it that can be a header's value.
pub open spec fn with_text(es: Seq<Entry>, name: Seq<char>, t: Option<Seq<char>>) -> Seq<Entry> {
    match t {
        Some(t) => match headers::text_value(t) {
            Some(bytes) => headers::appended(es, name, bytes),
            None => es,
        },
        None => es,
    }
}

/// Adds a header, if there is a text for it that can be a header's value.
fn append_text(hdr: &mut HeaderMap, name: &str, t: Option<&str>)
    requires
        headers::is_name(name@),
        headers::has_room(headers::entries(*old(hdr)), 1),
    ensures
        headers::entries(*final(hdr)) == with_text(
            headers::entries(*old(hdr)),
            name@,
            match t {
                Some(t) => Some(t@),
                None => None,
            },
        ),
        headers::entries(*final(hdr)).len() <= headers::entries(*old(hdr)).len() + 1,
        headers::has_name(headers::entries(*old(hdr)), name@)
            ==> headers::entries(*final(hdr)).len() == headers::entries(
            *old(hdr),
        ).len() && headers::has_name(headers::entries(*final(hdr)), name@),
        headers::entries(*final(hdr)).len() == headers::entries(*old(hdr)).len() + 1
            ==> headers::has_name(headers::entries(*final(hdr)), name@),
{
    if let Some(t) = t {
        if let Some(v) = value_from_str(t) {
            proof {
                headers::lemma_appended_len(
                    headers::entries(*hdr),
                    name@,
                    headers::value_bytes(v),
                );
            }
            header_append(hdr, name, v);
        }
    }
}

fn opt_str(s: &Option<String>) -> (r: Option<&str>)
    ensures
        forwarded::opt_text(*s) == (match r {
            Some(t) => Some(t@),
            None => None,
        }),
{
    match s {
        Some(s) => Some(s.as_str()),
        None => None,
    }
}

/// The headers with the non-standard ones for what a `Forwarded` element says.
pub open spec fn with_x_forwarded(es: Seq<Entry>, fh: ForwardedView) -> Seq<Entry> {
    let es = with_text(es, "x-forwarded-proto"@, fh.proto);
    let es = with_text(es, "x-forwarded-host"@, fh.host);
    with_text(es, "x-forwarded-for"@, fh.for_value)
}

proof fn lemma_own_names()
    ensures
        headers::is_name("x-forwarded-proto"@),
        headers::is_name("x-forwarded-host"@),
        headers::is_name("x-forwarded-for"@),
        headers::is_name("forwarded"@),
        headers::is_name("via"@),
{
    reveal_strlit("x-forwarded-proto");
    reveal_strlit("x-forwarded-host");
    reveal_strlit("x-forwarded-for");
    reveal_strlit("forwarded");
    reveal_strlit("via");
}

/// Adds the non-standard headers for what a `Forwarded` element says.
pub fn set_x_forwarded_headers(hdr_to_tgt: &mut HeaderMap, fh: &ForwardedHeader)
    requires
        headers::has_room(headers::entries(*old(hdr_to_tgt)), 3),
    ensures
        headers::entries(*final(hdr_to_tgt)) == with_x_forwarded(
            headers::entries(*old(hdr_to_tgt)),
            fh@,
        ),
{
    proof {
        lemma_own_names();
    }
    append_text(hdr_to_tgt, "x-forwarded-proto", opt_str(&fh.proto));
    append_text(hdr_to_tgt, "x-forwarded-host", opt_str(&fh.host));
    append_text(hdr_to_tgt, "x-forwarded-for", opt_str(&fh.for_value));
}

/// The headers with a `Forwarded` header for each of the elements.
pub open spec fn with_forwarded(es: Seq<Entry>, hs: Seq<ForwardedView>) -> Seq<Entry>
    decreases hs.len(),
{
    if hs.len() == 0 {
        es
    } else {
        with_text(
            with_forwarded(es, hs.drop_last()),
            "forwarded"@,
            Some(forwarded::written(hs.last())),
        )
    }
}

/// The proxies that are named to the target: those that the client's headers name, unless they
/// are to be dropped, then this router.
pub open spec fn forwarded_elements(
    existing: Seq<ForwardedView>,
    new: ForwardedView,
) -> Seq<ForwardedView> {
    existing.push(new)
}

/// The headers to the target after the ones about the proxies were added, given the proxies
/// that the client's headers name.
pub open spec fn forwarded_set(
    es: Seq<Entry>,
    existing: Seq<ForwardedView>,
    new: ForwardedView,
    legacy: bool,
) -> Seq<Entry> {
    let all = forwarded_elements(existing, new);
    let es = with_forwarded(es, all);
    if legacy {
        with_x_forwarded(es, all[0])
    } else {
        es
    }
}

/// The proxies that the client's headers name, if they count.
pub open spec fn counted_forwarded(cli: Seq<Entry>, discard: bool) -> Result<
    Seq<ForwardedView>,
    ExceptionView,
> {
    if discard {
        Ok(Seq::empty())
    } else {
        existing_forwarded(cli)
    }
}

/// Adds the headers that name the proxies which the request came through, this router as the
/// last. Where the client's headers are wrong, nothing is added.
pub fn set_forwarded_headers(
    cli_hdr: &HeaderMap,
    hdr_to_tgt: &mut HeaderMap,
    discard_client_forwarded_headers: bool,
    send_legacy_forwarded_headers: bool,
    server_self_ip: &str,
    cli_remote_ip: &str,
    cli_req_scheme: Option<&str>,
) -> (r: Result<(), CrankerRouterException>)
    requires
        !discard_client_forwarded_headers ==> forwarded_readable(
            headers::entries(*cli_hdr),
        ),
        headers::has_room(headers::entries(*old(hdr_to_tgt)), 4),
    ensures
        match counted_forwarded(
            headers::entries(*cli_hdr),
            discard_client_forwarded_headers,
        ) {
            Ok(existing) => r is Ok && headers::entries(*final(hdr_to_tgt))
                == forwarded_set(
                headers::entries(*old(hdr_to_tgt)),
                existing,
                forwarded_to_target(
                    headers::entries(*cli_hdr),
                    server_self_ip@,
                    cli_remote_ip@,
                    match cli_req_scheme {
                        Some(s) => Some(s@),
                        None => None,
                    },
                ),
                send_legacy_forwarded_headers,
            ),
            Err(ex) => (r matches Err(e) && e@ == ex) && *final(hdr_to_tgt) == *old(hdr_to_tgt),
        },
{
    let mut all: Vec<ForwardedHeader> = if discard_client_forwarded_headers {
        let none: Vec<ForwardedHeader> = Vec::new();
        assert(forwarded::forwarded_views(none@) =~= Seq::empty());
        none
    } else {
        match get_existing_forwarded_headers(cli_hdr) {
            Ok(v) => v,
            Err(e) => {
                return Err(e);
            },
        }
    };
    let ghost existing = forwarded::forwarded_views(all@);
    let ghost es = headers::entries(*hdr_to_tgt);
    all.push(
        create_forwarded_header_to_tgt(cli_hdr, server_self_ip, cli_remote_ip, cli_req_scheme),
    );
    let ghost views = forwarded::forwarded_views(all@);
    assert(views =~= forwarded_elements(existing, all@.last()@));
    proof {
        lemma_own_names();
    }
    let mut i: usize = 0;
    assert(views.take(0) =~= Seq::empty());
    while i < all.len()
        invariant
            i <= all.len(),
            views == forwarded::forwarded_views(all@),
            headers::entries(*hdr_to_tgt) == with_forwarded(es, views.take(i as int)),
            headers::has_room(es, 4),
            headers::is_name("forwarded"@),
            headers::entries(*hdr_to_tgt).len() == es.len()
                || headers::entries(*hdr_to_tgt).len() == es.len() + 1
                && headers::has_name(headers::entries(*hdr_to_tgt), "forwarded"@),
        decreases all.len() - i,
    {
        let written = all[i].to_string();
        append_text(hdr_to_tgt, "forwarded", Some(written.as_str()));
        proof {
            let t = views.take(i + 1);
            assert(t.drop_last() =~= views.take(i as int));
            assert(t.last() == all@[i as int]@);
        }
        i = i + 1;
    }
    assert(views.take(views.len() as int) =~= views);
    if send_legacy_forwarded_headers {
        assert(views[0] == all@[0]@);
        set_x_forwarded_headers(hdr_to_tgt, &all[0]);
    }
    Ok(())
}

/// Whether a header of the client's is sent on.
pub open spec fn is_sent_on(
    name: Seq<char>,
    do_not_proxy: Set<Seq<char>>,
    custom: Seq<Seq<char>>,
) -> bool {
    !do_not_proxy.contains(name) && !custom.contains(name)
}

/// The headers to the target with those of the client's that are sent on: of several values
/// of one name the last.
pub open spec fn sent_on(
    cli: Seq<Entry>,
    tgt: Seq<Entry>,
    do_not_proxy: Set<Seq<char>>,
    custom: Seq<Seq<char>>,
) -> Seq<Entry>
    decreases cli.len(),
{
    if cli.len() == 0 {
        tgt
    } else {
        let before = sent_on(cli.drop_last(), tgt, do_not_proxy, custom);
        if is_sent_on(cli.last().0, do_not_proxy, custom) {
            headers::inserted(before, cli.last().0, cli.last().1.last())
        } else {
            before
        }
    }
}

/// Whether a header says that there is a body.
pub open spec fn announces_body(name: Seq<char>) -> bool {
    name == "content-length"@ || name == "transfer-encoding"@
}

/// Whether one of the headers that are sent on says that there is a body.
pub open spec fn body_announced(
    cli: Seq<Entry>,
    do_not_proxy: Set<Seq<char>>,
    custom: Seq<Seq<char>>,
) -> bool {
    exists|i: int|
        0 <= i < cli.len() && is_sent_on((#[trigger] cli[i]).0, do_not_proxy, custom)
            && announces_body(cli[i].0)
}

/// The header names that the client's `Connection` header lists.
pub open spec fn custom_of(cli: Seq<Entry>) -> Seq<Seq<char>> {
    let values = headers::looked_up(cli, "connection"@);
    custom_hop_by_hop(
        if values.len() > 0 {
            Some(values[0])
        } else {
            None
        },
    )
}

/// The value of the `Via` header to the target.
pub open spec fn via_to_target(
    cli: Seq<Entry>,
    version: HttpVersion,
    via_name: Seq<char>,
) -> Seq<char> {
    new_via_value(
        version.name() + " "@ + via_name,
        ok_texts(headers::looked_up(cli, "via"@)),
    )
}

/// The headers to the target.
pub open spec fn target_headers(
    cli: Seq<Entry>,
    tgt: Seq<Entry>,
    settings: RouterSettings,
    version: HttpVersion,
    new: ForwardedView,
) -> Seq<Entry> {
    let es = sent_on(
        cli,
        tgt,
        config::names(settings.do_not_proxy_headers@),
        custom_of(cli),
    );
    let es = with_text(es, "via"@, Some(via_to_target(cli, version, settings.via_name@)));
    match counted_forwarded(cli, settings.discard_client_forwarded_headers) {
        Ok(existing) => forwarded_set(es, existing, new, settings.send_legacy_forwarded_headers),
        Err(_) => es,
    }
}

/// Whether a list holds a text.
fn is_listed(list: &Vec<String>, s: &str) -> (r: bool)
    ensures
        r == text::texts(list@).contains(s@),
{
    let mut i: usize = 0;
    while i < list.len()
        invariant
            i <= list.len(),
            forall|j: int| 0 <= j < i ==> #[trigger] text::texts(list@)[j] != s@,
        decreases list.len() - i,
    {
        assert(text::texts(list@)[i as int] == list@[i as int]@);
        if text::str_eq(list[i].as_str(), s) {
            return true;
        }
        i = i + 1;
    }
    false
}

/// Writes the headers to the target. Whether one of the headers that are sent on says that
/// there is a body is returned.
pub fn set_target_request_headers(
    cli_hdr: &HeaderMap,
    hdr_to_tgt: &mut HeaderMap,
    settings: &RouterSettings,
    http_version: HttpVersion,
    server_self_ip: &str,
    cli_remote_ip: &str,
    orig_uri: &RequestUri,
) -> (r: bool)
    requires
        !settings.discard_client_forwarded_headers ==> forwarded_readable(
            headers::entries(*cli_hdr),
        ),
        headers::has_room(
            headers::entries(*old(hdr_to_tgt)),
            headers::entries(*cli_hdr).len() + 5,
        ),
    ensures
        headers::entries(*final(hdr_to_tgt)) == target_headers(
            headers::entries(*cli_hdr),
            headers::entries(*old(hdr_to_tgt)),
            *settings,
            http_version,
            forwarded_to_target(
                headers::entries(*cli_hdr),
                server_self_ip@,
                cli_remote_ip@,
                forwarded::opt_text(orig_uri.scheme),
            ),
        ),
        r == body_announced(
            headers::entries(*cli_hdr),
            config::names(settings.do_not_proxy_headers@),
            custom_of(headers::entries(*cli_hdr)),
        ),
{
    let ghost cli = headers::entries(*cli_hdr);
    let ghost tgt = headers::entries(*hdr_to_tgt);
    let ghost do_not_proxy = config::names(settings.do_not_proxy_headers@);
    let ghost custom = custom_of(cli);
    let custom_hop_by_hop = get_custom_hop_by_hop_headers(header_get(cli_hdr, "connection"));
    let mut has_content_length_or_transfer_encoding = false;
    let keys = header_keys(cli_hdr);
    let mut i: usize = 0;
    assert(cli.take(0) =~= Seq::empty());
    proof {
        assert forall|j: int, k: int| 0 <= j < k < cli.len() implies (#[trigger] cli[j]).0 != (
        #[trigger] cli[k]).0 by {
            assert(headers::name_text(*keys@[j]) == cli[j].0);
            assert(headers::name_text(*keys@[k]) == cli[k].0);
        }
    }
    while i < keys.len()
        invariant
            i <= keys.len(),
            cli == headers::entries(*cli_hdr),
            do_not_proxy == config::names(settings.do_not_proxy_headers@),
            custom == custom_of(cli),
            text::texts(custom_hop_by_hop@) == custom,
            keys@.len() == cli.len(),
            forall|j: int|
                0 <= j < keys@.len() ==> headers::name_text(*(#[trigger] keys@[j])) == cli[j].0
                    && headers::values_of(cli, cli[j].0).len() > 0,
            forall|j: int, k: int|
                0 <= j < k < cli.len() ==> (#[trigger] cli[j]).0 != (#[trigger] cli[k]).0,
            headers::entries(*hdr_to_tgt) == sent_on(
                cli.take(i as int),
                tgt,
                do_not_proxy,
                custom,
            ),
            headers::entries(*hdr_to_tgt).len() <= tgt.len() + i,
            headers::has_room(tgt, cli.len() + 5),
            has_content_length_or_transfer_encoding == body_announced(
                cli.take(i as int),
                do_not_proxy,
                custom,
            ),
        decreases keys.len() - i,
    {
        let key = name_str(keys[i]);
        proof {
            let t = cli.take(i + 1);
            assert(t.drop_last() =~= cli.take(i as int));
            assert(t.last() == cli[i as int]);
            headers::lemma_values_of_entry(cli, i as int);
            assert forall|j: int| 0 <= j < i implies (#[trigger] t[j]) == cli.take(i as int)[j] by {}
            assert(t[i as int] == cli[i as int]);
        }
        if !contains_name(&settings.do_not_proxy_headers, key) && !is_listed(
            &custom_hop_by_hop,
            key,
        ) {
            if text::str_eq(key, "content-length") || text::str_eq(key, "transfer-encoding") {
                has_content_length_or_transfer_encoding = true;
            }
            let values = header_values(cli_hdr, keys[i]);
            let ghost bytes = values@.map_values(
                |v: &HeaderValue| headers::value_bytes(*v),
            );
            assert(bytes.len() == values@.len());
            let last = values[values.len() - 1];
            assert(bytes.last() == headers::value_bytes(*last));
            header_insert(hdr_to_tgt, keys[i], value_clone(last));
        }
        proof {
            let t = cli.take(i + 1);
            let before = cli.take(i as int);
            if body_announced(before, do_not_proxy, custom) {
                let j = choose|j: int|
                    0 <= j < before.len() && is_sent_on(
                        (#[trigger] before[j]).0,
                        do_not_proxy,
                        custom,
                    ) && announces_body(before[j].0);
                assert(t[j] == before[j]);
                assert(body_announced(t, do_not_proxy, custom));
            }
            if body_announced(t, do_not_proxy, custom) {
                let j = choose|j: int|
                    0 <= j < t.len() && is_sent_on((#[trigger] t[j]).0, do_not_proxy, custom)
                        && announces_body(t[j].0);
                if j < i {
                    assert(before[j] == t[j]);
                    assert(body_announced(before, do_not_proxy, custom));
                }
            }
        }
        i = i + 1;
    }
    assert(cli.take(cli.len() as int) =~= cli);
    let cli_all_via = header_map_get_all_ok_to_string(cli_hdr, "via");
    let mut this_via = text::concat(http_version.as_str(), " ");
    this_via.push_str(settings.via_name.as_str());
    let new_via_val = get_new_via_value(this_via, cli_all_via);
    proof {
        lemma_own_names();
    }
    append_text(hdr_to_tgt, "via", Some(new_via_val.as_str()));
    let _ = set_forwarded_headers(
        cli_hdr,
        hdr_to_tgt,
        settings.discard_client_forwarded_headers,
        settings.send_legacy_forwarded_headers,
        server_self_ip,
        cli_remote_ip,
        opt_str(&orig_uri.scheme),
    );
    has_content_length_or_transfer_encoding
}

/// Whether the map of a client's headers and that of the headers to the target are small
/// enough for [`set_target_request_headers`].
pub fn has_room_for_target_headers(cli_hdr: &HeaderMap, hdr_to_tgt: &HeaderMap) -> (r: bool)
    ensures
        r == headers::has_room(
            headers::entries(*hdr_to_tgt),
            headers::entries(*cli_hdr).len() + 5,
        ),
{
    let a = header_name_count(cli_hdr);
    let b = header_name_count(hdr_to_tgt);
    a <= NAME_LIMIT - 5 && b <= NAME_LIMIT - 5 - a
}

} // verus!
