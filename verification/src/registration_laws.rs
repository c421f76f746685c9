//! What holds of registrations and of clients' requests, whatever their headers hold.

use crate::config::{version_name, Versions};
use crate::exceptions::CrankerRouterException;
use crate::headers::{entries, value_text, values_of, Entry};
use crate::http_laws::law_look_ups_find_all;
use crate::registration::{
    agreed_version, de_reg_decide, deregisters, extract_cranker_version, first_offered,
    has_body_http_1, negotiates, offered_number, reg_check, registers, request_has_body,
    version_readable, Deregistration, Registration,
};
use crate::net::HttpVersion;
use crate::text;
use crate::text_laws::{
    is_blank, is_tight, law_joined_is_split, law_removed, law_signed_number_is_read_back, law_trim,
};
use axum::http::HeaderMap;
use vstd::prelude::*;

verus! {

/// A sub protocol as a connector offers it: a version's number, most often with the protocol's name
/// in front, and white space around.
pub struct Offer {
    pub front: Seq<char>,
    pub is_named: bool,
    pub number: Seq<char>,
    pub back: Seq<char>,
}

impl Offer {
    /// The piece of the list that makes the offer.
    pub open spec fn piece(self) -> Seq<char> {
        self.front + (if self.is_named {
            "cranker_"@ + self.number
        } else {
            self.number
        }) + self.back
    }

    /// Whether the parts are what they are called.
    pub open spec fn wf(self) -> bool {
        &&& is_blank(self.front)
        &&& is_blank(self.back)
        &&& is_tight(self.number)
        &&& !self.piece().contains(',')
        &&& forall|j: int| !#[trigger] text::occurs_at(self.number, "cranker_"@, j)
    }
}

/// Whether the router speaks the version of this number, and it is the `v`th of those that it
/// speaks.
pub open spec fn speaks(
    versions: Seq<(&'static str, &'static str)>,
    number: Seq<char>,
    v: int,
) -> bool {
    &&& 0 <= v < versions.len()
    &&& versions[v].0@ == number
    &&& forall|w: int| 0 <= w < v ==> (#[trigger] versions[w]).0@ != number
}

/// Whether the router does not speak the version of this number.
pub open spec fn does_not_speak(
    versions: Seq<(&'static str, &'static str)>,
    number: Seq<char>,
) -> bool {
    forall|w: int| 0 <= w < versions.len() ==> (#[trigger] versions[w]).0@ != number
}

/// A version is found by its number: it is the first that has the number.
pub proof fn law_version_by_number(
    versions: Seq<(&'static str, &'static str)>,
    number: Seq<char>,
    v: int,
)
    ensures
        speaks(versions, number, v) ==> version_name(versions, number) == Some(versions[v].1@),
        does_not_speak(versions, number) ==> version_name(versions, number) is None,
    decreases versions.len(),
{
    if versions.len() > 0 {
        let rest = versions.drop_first();
        law_version_by_number(rest, number, v - 1);
        if versions[0].0@ != number {
            if speaks(versions, number, v) {
                assert(v > 0);
                assert forall|w: int| 0 <= w < v - 1 implies (#[trigger] rest[w]).0@ != number by {
                    assert(rest[w] == versions[w + 1]);
                }
                assert(rest[v - 1] == versions[v]);
            }
            if does_not_speak(versions, number) {
                assert forall|w: int| 0 <= w < rest.len() implies (#[trigger] rest[w]).0@
                    != number by {
                    assert(rest[w] == versions[w + 1]);
                }
            }
        } else if speaks(versions, number, v) {
            assert(v == 0);
        }
    }
}

proof fn lemma_offer(o: Offer)
    requires
        o.wf(),
    ensures
        offered_number(o.piece()) == o.number,
{
    reveal_strlit("cranker_");
    let whole = if o.is_named {
        "cranker_"@ + o.number
    } else {
        o.number
    };
    if o.is_named {
        assert(whole[0] == 'c');
        assert("cranker_"@[7] == '_');
        assert(whole.last() == if o.number.len() > 0 {
            o.number.last()
        } else {
            '_'
        });
    }
    law_trim(o.front, whole, o.back);
    law_removed("cranker_"@, o.number);
}

/// The pieces of the list that make the offers.
pub open spec fn pieces_of(offers: Seq<Offer>) -> Seq<Seq<char>> {
    offers.map_values(|o: Offer| o.piece())
}

proof fn lemma_first_offered(
    versions: Seq<(&'static str, &'static str)>,
    offers: Seq<Offer>,
    k: int,
    v: int,
)
    requires
        forall|j: int| 0 <= j < offers.len() ==> (#[trigger] offers[j]).wf(),
        0 <= k <= offers.len(),
        forall|j: int| 0 <= j < k ==> does_not_speak(versions, (#[trigger] offers[j]).number),
        k < offers.len() ==> speaks(versions, offers[k].number, v),
    ensures
        first_offered(versions, pieces_of(offers)) == (if k < offers.len() {
            Some(versions[v].1@)
        } else {
            None
        }),
    decreases offers.len(),
{
    if offers.len() > 0 {
        let rest = offers.drop_first();
        lemma_offer(offers[0]);
        law_version_by_number(versions, offers[0].number, v);
        assert(pieces_of(offers)[0] == offers[0].piece());
        assert(pieces_of(offers).drop_first() =~= pieces_of(rest));
        if k > 0 {
            assert(does_not_speak(versions, offers[0].number));
            assert forall|j: int| 0 <= j < rest.len() implies (#[trigger] rest[j]).wf() by {
                assert(rest[j] == offers[j + 1]);
            }
            assert forall|j: int| 0 <= j < k - 1 implies does_not_speak(
                versions,
                (#[trigger] rest[j]).number,
            ) by {
                assert(rest[j] == offers[j + 1]);
            }
            if k < offers.len() {
                assert(rest[k - 1] == offers[k]);
            }
            lemma_first_offered(versions, rest, k - 1, v);
        }
    }
}

/// The first value under a name in small letters.
pub open spec fn first_under(es: Seq<Entry>, name: Seq<char>) -> Option<Seq<char>> {
    if values_of(es, name).len() > 0 {
        value_text(values_of(es, name)[0])
    } else {
        None
    }
}

/// The version that is agreed on is that of the first sub protocol offered whose version the router
/// speaks, whatever the header of old connectors says.
pub proof fn law_first_spoken_offer_counts(
    versions: Seq<(&'static str, &'static str)>,
    es: Seq<Entry>,
    offers: Seq<Offer>,
    k: int,
    v: int,
    r: Result<&'static str, crate::exceptions::CrankerRouterException>,
)
    requires
        forall|j: int| 0 <= j < offers.len() ==> (#[trigger] offers[j]).wf(),
        first_under(es, "sec-websocket-protocol"@) == Some(text::join(pieces_of(offers), seq![','])),
        0 <= k < offers.len(),
        forall|j: int| 0 <= j < k ==> does_not_speak(versions, (#[trigger] offers[j]).number),
        speaks(versions, offers[k].number, v),
    ensures
        version_readable(versions, es),
        agreed_version(versions, es) == Some(versions[v].1@),
        negotiates(versions, es, r) <==> (r matches Ok(name) && name@ == versions[v].1@),
{
    let pieces = pieces_of(offers);
    assert forall|j: int| 0 <= j < pieces.len() implies !(#[trigger] pieces[j]).contains(',') by {
        assert(offers[j].wf());
    }
    law_joined_is_split(pieces, ',');
    lemma_first_offered(versions, offers, k, v);
    law_look_ups_find_all(es);
}

/// Only where no sub protocol that the router speaks is offered does the header of old connectors
/// count; where it gives no version either, none is agreed on.
pub proof fn law_old_header_counts_last(
    versions: Seq<(&'static str, &'static str)>,
    es: Seq<Entry>,
    offers: Seq<Offer>,
    number: Seq<char>,
    v: int,
    r: Result<&'static str, crate::exceptions::CrankerRouterException>,
)
    requires
        forall|j: int| 0 <= j < offers.len() ==> (#[trigger] offers[j]).wf(),
        offers.len() > 0 ==> first_under(es, "sec-websocket-protocol"@) == Some(
            text::join(pieces_of(offers), seq![',']),
        ),
        offers.len() == 0 ==> values_of(es, "sec-websocket-protocol"@).len() == 0,
        forall|j: int|
            0 <= j < offers.len() ==> does_not_speak(versions, (#[trigger] offers[j]).number),
        first_under(es, "crankerprotocol"@) == Some(number),
    ensures
        version_readable(versions, es),
        speaks(versions, number, v) ==> agreed_version(versions, es) == Some(versions[v].1@) && (
        negotiates(versions, es, r) <==> (r matches Ok(name) && name@ == versions[v].1@)),
        does_not_speak(versions, number) ==> agreed_version(versions, es) is None && (negotiates(
            versions,
            es,
            r,
        ) ==> (r matches Err(e) && e@.opt_err_kind == Some(
            crate::exceptions::CrexKind::CrankerProtocolVersionNotSupported_0004,
        ))),
{
    let pieces = pieces_of(offers);
    law_look_ups_find_all(es);
    law_version_by_number(versions, number, v);
    if offers.len() > 0 {
        assert forall|j: int| 0 <= j < pieces.len() implies !(#[trigger] pieces[j]).contains(
            ',',
        ) by {
            assert(offers[j].wf());
        }
        law_joined_is_split(pieces, ',');
        lemma_first_offered(versions, offers, offers.len() as int, v);
    }
}

/// A connector that gives neither header asks for no version.
pub proof fn law_no_version_asked_for(
    versions: Seq<(&'static str, &'static str)>,
    es: Seq<Entry>,
    r: Result<&'static str, crate::exceptions::CrankerRouterException>,
)
    requires
        values_of(es, "sec-websocket-protocol"@).len() == 0,
        values_of(es, "crankerprotocol"@).len() == 0,
        negotiates(versions, es, r),
    ensures
        r matches Err(e) && e@.opt_err_kind == Some(
            crate::exceptions::CrexKind::CrankerProtocolVersionNotFound_0003,
        ),
{
    law_look_ups_find_all(es);
}

/// A connector is registered if its address may register, it gives a route and a domain and a
/// version is agreed on, and it is registered with just what its headers say; otherwise it is
/// refused.
pub proof fn law_registration(
    versions: Seq<(&'static str, &'static str)>,
    method: Seq<char>,
    es: Seq<Entry>,
    connector_id: Seq<char>,
    component_name: Option<Seq<char>>,
    ip: Seq<char>,
    allowed: bool,
    out: Registration,
)
    requires
        registers(versions, method, es, connector_id, component_name, ip, allowed, out),
    ensures
        ({
            let route = first_under(es, "route"@);
            let domain = first_under(es, "domain"@);
            &&& out is Accepted <==> method != "TRACE"@ && allowed && version_readable(versions, es)
                && agreed_version(versions, es) is Some && route is Some && domain is Some
            &&& out matches Registration::Accepted(info) ==> {
                &&& agreed_version(versions, es) == Some(info.negotiated_cranker_version@)
                &&& info.connector_id@ == connector_id
                &&& route == Some(info.route@)
                &&& domain == Some(info.domain@)
                &&& component_name matches Some(name) ==> info.component_name@ == name
                &&& component_name is None && connector_id.len() >= 5 ==> info.component_name@
                    == "unknown-"@ + connector_id.take(5)
            }
            &&& method == "TRACE"@ ==> (out matches Registration::Refused(p) && p.status == 405)
            &&& method != "TRACE"@ && !allowed ==> (out matches Registration::Refused(p) && p.status
                == 403)
            &&& method != "TRACE"@ && allowed && out is Refused ==> out->Refused_0.status == 400
        }),
{
    law_look_ups_find_all(es);
    crate::registration::law_agreed_version_is_spoken(versions, es);
    if let Some(name) = agreed_version(versions, es) {
        assert forall|e: crate::exceptions::CrankerRouterException| !#[trigger] negotiates(
            versions,
            es,
            Err(e),
        ) by {}
    }
}

/// A connector is deregistered from the route that its header gives, or from the catch-all, by its
/// own identifier; without one, or from an address that may not register, it is not.
pub proof fn law_deregistration(
    es: Seq<Entry>,
    connector_id: Option<Seq<char>>,
    ip: Seq<char>,
    allowed: bool,
    out: Deregistration,
)
    requires
        deregisters(es, connector_id, ip, allowed, out),
    ensures
        out is Deregister <==> allowed && connector_id is Some,
        out matches Deregistration::Deregister { route, connector_id: id } ==> connector_id == Some(
            id@,
        ) && route@ == (match first_under(es, "route"@) {
            Some(t) => t,
            None => "*"@,
        }),
        !allowed ==> (out matches Deregistration::Refused(p) && p.status == 403),
        allowed && connector_id is None ==> out is Unsupported,
{
    law_look_ups_find_all(es);
}

/// By HTTP/1 a request has a body if its length is said to be above zero. Where no length is said,
/// it has one if it is said how it is transferred.
pub proof fn law_has_body(es: Seq<Entry>, n: i64)
    ensures
        first_under(es, "content-length"@) == Some(text::decimal_int(n as int)) ==> has_body_http_1(
            es,
        ) == (n > 0),
        values_of(es, "content-length"@).len() == 0 ==> has_body_http_1(es) == (values_of(
            es,
            "transfer-encoding"@,
        ).len() > 0),
{
    law_look_ups_find_all(es);
    law_signed_number_is_read_back(n);
}

/// [`extract_cranker_version`] agrees on the version of the first sub protocol offered whose
/// version the router speaks, whatever the header of old connectors says.
pub proof fn law_version_is_agreed_on(
    versions: &Versions,
    headers: &HeaderMap,
    offers: Seq<Offer>,
    k: int,
    v: int,
    r: Result<&'static str, CrankerRouterException>,
)
    requires
        call_ensures(extract_cranker_version, (versions, headers), r),
        forall|j: int| 0 <= j < offers.len() ==> (#[trigger] offers[j]).wf(),
        first_under(entries(*headers), "sec-websocket-protocol"@) == Some(
            text::join(pieces_of(offers), seq![',']),
        ),
        0 <= k < offers.len(),
        forall|j: int| 0 <= j < k ==> does_not_speak(versions@, (#[trigger] offers[j]).number),
        speaks(versions@, offers[k].number, v),
    ensures
        r matches Ok(name) && name@ == versions@[v].1@,
{
    law_first_spoken_offer_counts(versions@, entries(*headers), offers, k, v, r);
}

/// Where no sub protocol that the router speaks is offered, [`extract_cranker_version`] goes by the
/// header of old connectors, and fails where that gives no version either.
pub proof fn law_old_version_is_agreed_on(
    versions: &Versions,
    headers: &HeaderMap,
    number: Seq<char>,
    v: int,
    r: Result<&'static str, CrankerRouterException>,
)
    requires
        call_ensures(extract_cranker_version, (versions, headers), r),
        values_of(entries(*headers), "sec-websocket-protocol"@).len() == 0,
    ensures
        first_under(entries(*headers), "crankerprotocol"@) == Some(number) && speaks(
            versions@,
            number,
            v,
        ) ==> (r matches Ok(name) && name@ == versions@[v].1@),
        first_under(entries(*headers), "crankerprotocol"@) == Some(number) && does_not_speak(
            versions@,
            number,
        ) ==> r is Err,
        values_of(entries(*headers), "crankerprotocol"@).len() == 0 ==> r is Err,
{
    let es = entries(*headers);
    if first_under(es, "crankerprotocol"@) == Some(number) {
        law_old_header_counts_last(versions@, es, Seq::empty(), number, v, r);
    }
    if values_of(es, "crankerprotocol"@).len() == 0 {
        law_no_version_asked_for(versions@, es, r);
    }
}

/// [`reg_check`] accepts a connector whose address may register, that gives a route and a domain
/// and that a version is agreed on with, and takes its route, its domain and its names as they are.
pub proof fn law_connector_is_registered(
    versions: &Versions,
    method: &str,
    headers: &HeaderMap,
    connector_id: String,
    component_name: Option<String>,
    ip: &str,
    allowed: bool,
    r: Registration,
)
    requires
        call_ensures(
            reg_check,
            (versions, method, headers, connector_id, component_name, ip, allowed),
            r,
        ),
    ensures
        ({
            let es = entries(*headers);
            let route = first_under(es, "route"@);
            let domain = first_under(es, "domain"@);
            &&& r is Accepted <==> method@ != "TRACE"@ && allowed && version_readable(
                versions@,
                es,
            ) && agreed_version(versions@, es) is Some && route is Some && domain is Some
            &&& r matches Registration::Accepted(info) ==> {
                &&& agreed_version(versions@, es) == Some(info.negotiated_cranker_version@)
                &&& info.connector_id@ == connector_id@
                &&& route == Some(info.route@)
                &&& domain == Some(info.domain@)
                &&& component_name matches Some(name) ==> info.component_name@ == name@
            }
            &&& method@ != "TRACE"@ && !allowed ==> (r matches Registration::Refused(p) && p.status
                == 403)
        }),
{
    law_registration(
        versions@,
        method@,
        entries(*headers),
        connector_id@,
        crate::forwarded::opt_text(component_name),
        ip@,
        allowed,
        r,
    );
}

/// [`de_reg_decide`] deregisters a connector by its own identifier from the route that it gives.
pub proof fn law_connector_is_deregistered(
    headers: &HeaderMap,
    connector_id: Option<String>,
    ip: &str,
    allowed: bool,
    r: Deregistration,
)
    requires
        call_ensures(de_reg_decide, (headers, connector_id, ip, allowed), r),
    ensures
        allowed && connector_id is Some ==> (r matches Deregistration::Deregister {
            route,
            connector_id: id,
        } && id@ == connector_id->0@ && route@ == (match first_under(
            entries(*headers),
            "route"@,
        ) {
            Some(t) => t,
            None => "*"@,
        })),
        !allowed ==> (r matches Deregistration::Refused(p) && p.status == 403),
        allowed && connector_id is None ==> r is Unsupported,
{
    law_deregistration(
        entries(*headers),
        crate::forwarded::opt_text(connector_id),
        ip@,
        allowed,
        r,
    );
}

/// [`request_has_body`] goes by the length that the headers give up to HTTP/1.1, where none is
/// given by whether they say how the body is transferred, and by the end of the stream from HTTP/2
/// on.
pub proof fn law_request_has_body(
    version: HttpVersion,
    headers: &HeaderMap,
    is_end_stream: bool,
    n: i64,
    r: bool,
)
    requires
        call_ensures(request_has_body, (version, headers, is_end_stream), r),
    ensures
        version is Http2 || version is Http3 ==> r == !is_end_stream,
        !(version is Http2 || version is Http3) && first_under(entries(*headers), "content-length"@)
            == Some(text::decimal_int(n as int)) ==> r == (n > 0),
        !(version is Http2 || version is Http3) && values_of(
            entries(*headers),
            "content-length"@,
        ).len() == 0 ==> r == (values_of(entries(*headers), "transfer-encoding"@).len() > 0),
{
    law_has_body(entries(*headers), n);
}

} // verus!
