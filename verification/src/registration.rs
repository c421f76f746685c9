//! How connectors register and deregister, and what is read from a client's request before it
//! is proxied.

use crate::config::{
    find_version, CrankerRouterConfig, Versions, CRANKER_PROTOCOL_HEADER_KEY,
};
use crate::exceptions::{CrankerRouterException, CrexKind, ExceptionView};
use crate::headers::{header_get, value_shown, value_to_str, Entry};
use crate::http_utils::header_first_text;
use crate::ids::new_uuid;
use crate::ip_validator::{AllowAll, IPValidator};
use crate::net::{HttpVersion, IpAddr};
use crate::router_socket::CloseFrame;
use crate::{config, forwarded, headers, http_utils, text};
use axum::http::{HeaderMap, HeaderValue};
use vstd::prelude::*;

verus! {

/// A connector that registers.
#[derive(Clone, Debug)]
pub struct CrankerConnectorInfo {
    pub connector_id: String,
    pub route: String,
    pub component_name: String,
    pub domain: String,
    pub negotiated_cranker_version: &'static str,
}

/// The first value under a name.
pub open spec fn first_value(es: Seq<Entry>, name: Seq<char>) -> Option<Seq<u8>> {
    let values = headers::looked_up(es, name);
    if values.len() > 0 {
        Some(values[0])
    } else {
        None
    }
}

/// The sub protocols that a connector offers.
pub open spec fn sub_protocols(es: Seq<Entry>) -> Option<Seq<u8>> {
    first_value(es, "sec-websocket-protocol"@)
}

/// The version that an old connector asks for.
pub open spec fn legacy_protocol(es: Seq<Entry>) -> Option<Seq<u8>> {
    first_value(es, CRANKER_PROTOCOL_HEADER_KEY@)
}

/// The number of the version that one of the offered sub protocols stands for.
pub open spec fn offered_number(piece: Seq<char>) -> Seq<char> {
    text::removed_from(text::trim(piece), "cranker_"@, 0)
}

/// The name of the first of the offered versions that the router speaks.
pub open spec fn first_offered(
    versions: Seq<(&'static str, &'static str)>,
    pieces: Seq<Seq<char>>,
) -> Option<Seq<char>>
    decreases pieces.len(),
{
    if pieces.len() == 0 {
        None
    } else {
        match config::version_name(versions, offered_number(pieces[0])) {
            Some(name) => Some(name),
            None => first_offered(versions, pieces.drop_first()),
        }
    }
}

/// The version that the sub protocols lead to.
pub open spec fn sub_version(
    versions: Seq<(&'static str, &'static str)>,
    es: Seq<Entry>,
) -> Option<Seq<char>> {
    match sub_protocols(es) {
        Some(bytes) => first_offered(
            versions,
            text::split(headers::value_text(bytes)->0, ','),
        ),
        None => None,
    }
}

/// The version that the header of old connectors leads to.
pub open spec fn legacy_version(
    versions: Seq<(&'static str, &'static str)>,
    es: Seq<Entry>,
) -> Option<Seq<char>> {
    match legacy_protocol(es) {
        Some(bytes) => config::version_name(versions, headers::value_text(bytes)->0),
        None => None,
    }
}

/// Whether the headers about the version can be read as far as they have to be: those that are
/// looked at are visible ASCII.
pub open spec fn version_readable(
    versions: Seq<(&'static str, &'static str)>,
    es: Seq<Entry>,
) -> bool {
    &&& sub_protocols(es) matches Some(b) ==> headers::value_text(b) is Some
    &&& sub_version(versions, es) is None ==> (legacy_protocol(es) matches Some(b)
        ==> headers::value_text(b) is Some)
}

/// The version that router and connector agree on, where they do.
pub open spec fn agreed_version(
    versions: Seq<(&'static str, &'static str)>,
    es: Seq<Entry>,
) -> Option<Seq<char>> {
    if sub_version(versions, es) is Some {
        sub_version(versions, es)
    } else {
        legacy_version(versions, es)
    }
}

/// The error of a connector that asks for no version.
pub open spec fn version_not_found() -> ExceptionView {
    ExceptionView::of(
        "Version is null. Please set header Sec-WebSocket-Protocol for cranker protocol negotiation"@,
    ).with_err_kind(CrexKind::CrankerProtocolVersionNotFound_0003)
}

/// Whether `s` shows an optional header value.
pub open spec fn shows(value: Option<Seq<u8>>, s: Seq<char>) -> bool {
    match value {
        None => s == "None"@,
        Some(b) => s == "Some("@ + "Sensitive"@ + ")"@ || s == "Some("@ + headers::shown_text(b)
            + ")"@,
    }
}

/// Whether `ex` is the error of a connector that asks for versions which the router does not
/// speak. It shows both headers.
pub open spec fn is_version_not_supported(es: Seq<Entry>, ex: ExceptionView) -> bool {
    exists|sub: Seq<char>, legacy: Seq<char>|
        #![trigger shows(sub_protocols(es), sub), shows(legacy_protocol(es), legacy)]
        shows(sub_protocols(es), sub) && shows(legacy_protocol(es), legacy) && ex
            == ExceptionView::of(
            "Cranker version not supported! sub protocols = "@ + sub + ", legacy protocols = "@
                + legacy,
        ).with_err_kind(CrexKind::CrankerProtocolVersionNotSupported_0004)
}

/// What the negotiation of a version gives.
pub open spec fn negotiates(
    versions: Seq<(&'static str, &'static str)>,
    es: Seq<Entry>,
    r: Result<&'static str, CrankerRouterException>,
) -> bool {
    if sub_protocols(es) is None && legacy_protocol(es) is None {
        r matches Err(e) && e@ == version_not_found()
    } else {
        match agreed_version(versions, es) {
            Some(name) => r matches Ok(s) && s@ == name,
            None => r matches Err(e) && is_version_not_supported(es, e@),
        }
    }
}

fn show(v: Option<&HeaderValue>) -> (r: String)
    requires
        v matches Some(v) ==> headers::value_text(headers::value_bytes(*v)) is Some,
    ensures
        shows(
            match v {
                Some(v) => Some(headers::value_bytes(*v)),
                None => None,
            },
            r@,
        ),
{
    match v {
        None => "None".to_string(),
        Some(v) => {
            let mut r = text::concat("Some(", value_shown(v).as_str());
            r.push_str(")");
            r
        },
    }
}

fn find_offered(versions: &Versions, offered: &str) -> (r: Option<&'static str>)
    ensures
        match first_offered(versions@, text::split(offered@, ',')) {
            Some(name) => r matches Some(s) && s@ == name,
            None => r is None,
        },
{
    let pieces = text::split_on(offered, ',');
    let ghost all = text::split(offered@, ',');
    proof {
        reveal_strlit("cranker_");
    }
    let mut i: usize = 0;
    assert(all.skip(0) =~= all);
    assert(all.len() == pieces@.len());
    while i < pieces.len()
        invariant
            i <= pieces.len(),
            all == text::texts(pieces@),
            all == text::split(offered@, ','),
            "cranker_"@.len() > 0,
            first_offered(versions@, all) == first_offered(versions@, all.skip(i as int)),
        decreases pieces.len() - i,
    {
        let ghost rest = all.skip(i as int);
        assert(rest[0] == pieces@[i as int]@);
        let trimmed = text::trimmed(pieces[i].as_str());
        let number = text::remove_all(trimmed.as_str(), "cranker_");
        if let Some(name) = find_version(versions, number.as_str()) {
            return Some(name);
        }
        assert(rest.drop_first() =~= all.skip(i + 1));
        i = i + 1;
    }
    assert(all.skip(i as int).len() == 0);
    None
}

/// Whether [`extract_cranker_version`] can be asked.
pub fn is_version_readable(
    supported_cranker_version_set: &Versions,
    headers: &HeaderMap,
) -> (r: bool)
    ensures
        r == version_readable(supported_cranker_version_set@, headers::entries(*headers)),
{
    let mut agreed = false;
    if let Some(sp) = header_get(headers, "sec-websocket-protocol") {
        match value_to_str(sp) {
            None => {
                return false;
            },
            Some(s) => {
                agreed = find_offered(supported_cranker_version_set, s).is_some();
            },
        }
    }
    if !agreed {
        if let Some(lph) = header_get(headers, CRANKER_PROTOCOL_HEADER_KEY) {
            return value_to_str(lph).is_some();
        }
    }
    true
}

/// The version that router and connector agree on: `cranker_1.0` or `cranker_3.0`.
pub fn extract_cranker_version(
    supported_cranker_version_set: &Versions,
    headers: &HeaderMap,
) -> (r: Result<&'static str, CrankerRouterException>)
    requires
        version_readable(supported_cranker_version_set@, headers::entries(*headers)),
    ensures
        negotiates(supported_cranker_version_set@, headers::entries(*headers), r),
{
    let sub_protocols = header_get(headers, "sec-websocket-protocol");
    let legacy_protocol_header = header_get(headers, CRANKER_PROTOCOL_HEADER_KEY);
    if sub_protocols.is_none() && legacy_protocol_header.is_none() {
        return Err(
            CrankerRouterException::new(
                "Version is null. Please set header Sec-WebSocket-Protocol for cranker protocol negotiation".to_string(),
            ).with_err_kind(CrexKind::CrankerProtocolVersionNotFound_0003),
        );
    }
    if let Some(sp) = sub_protocols {
        if let Some(sp_str) = value_to_str(sp) {
            if let Some(res) = find_offered(supported_cranker_version_set, sp_str) {
                return Ok(res);
            }
        }
    }
    if let Some(lph) = legacy_protocol_header {
        if let Some(lp) = value_to_str(lph) {
            if let Some(res) = find_version(supported_cranker_version_set, lp) {
                return Ok(res);
            }
        }
    }
    let sub = show(sub_protocols);
    let legacy = show(legacy_protocol_header);
    let mut reason = text::concat(
        "Cranker version not supported! sub protocols = ",
        sub.as_str(),
    );
    reason.push_str(", legacy protocols = ");
    reason.push_str(legacy.as_str());
    let e = CrankerRouterException::new(reason).with_err_kind(
        CrexKind::CrankerProtocolVersionNotSupported_0004,
    );
    proof {
        let es = headers::entries(*headers);
        assert(shows(self::sub_protocols(es), sub@) && shows(self::legacy_protocol(es), legacy@));
        assert(is_version_not_supported(es, e@));
    }
    Err(e)
}

/// Whether the headers of a request by HTTP/1 say that it has a body.
pub open spec fn has_body_http_1(es: Seq<Entry>) -> bool {
    let length = match http_utils::first_text(es, "content-length"@) {
        Some(t) => text::signed_value(t),
        None => None,
    };
    match length {
        Some(n) => n > 0,
        None => headers::looked_up(es, "transfer-encoding"@).len() > 0,
    }
}

/// Whether the headers of a request by HTTP/1 say that it has a body: a length above zero or,
/// where no length can be read, a transfer encoding.
pub fn judge_has_body_from_header_http_1(headers: &HeaderMap) -> (r: bool)
    ensures
        r == has_body_http_1(headers::entries(*headers)),
{
    if let Some(s) = header_first_text(headers, "content-length") {
        if let Some(content_length) = text::parse_i64(s.as_str()) {
            return content_length > 0;
        }
    }
    header_get(headers, "transfer-encoding").is_some()
}

/// Whether a request has a body: by HTTP/1 its headers say so, by later versions the end of the
/// stream does.
pub fn request_has_body(
    http_version: HttpVersion,
    headers: &HeaderMap,
    is_end_stream: bool,
) -> (r: bool)
    ensures
        r == match http_version {
            HttpVersion::Http09 | HttpVersion::Http10 | HttpVersion::Http11 => has_body_http_1(
                headers::entries(*headers),
            ),
            _ => !is_end_stream,
        },
{
    match http_version {
        HttpVersion::Http09 | HttpVersion::Http10 | HttpVersion::Http11 =>
            judge_has_body_from_header_http_1(headers),
        _ => !is_end_stream,
    }
}

/// A response that the router gives by itself.
#[derive(Debug)]
pub struct PlainResponse {
    pub status: u16,
    pub body: String,
}

/// The body of the answer to a host that may not register.
pub open spec fn ip_refusal(ip: Seq<char>, route: Seq<char>, connector_id: Seq<char>) -> Seq<char> {
    "Fail to establish websocket connection to cranker connector because of not supported ip address="@
        + ip + ". Route="@ + route + ". Connector Id="@ + connector_id
}

/// The answer to a host that may not register.
pub fn failed_at_ip_validation(ip: &str, route: &str, connector_id: &str) -> (r: PlainResponse)
    ensures
        r.status == 403,
        r.body@ == ip_refusal(ip@, route@, connector_id@),
{
    let mut body = text::concat(
        "Fail to establish websocket connection to cranker connector because of not supported ip address=",
        ip,
    );
    body.push_str(". Route=");
    body.push_str(route);
    body.push_str(". Connector Id=");
    body.push_str(connector_id);
    PlainResponse { status: 403, body }
}

/// The answer about the router's health.
pub fn health_root() -> (r: PlainResponse)
    ensures
        r.status == 200,
        r.body@ == "{\"isAvailable\":true}"@,
{
    PlainResponse { status: 200, body: "{\"isAvailable\":true}".to_string() }
}

/// The text, or the catch-all.
pub open spec fn or_catch_all(s: Option<Seq<char>>) -> Seq<char> {
    match s {
        Some(s) => s,
        None => "*"@,
    }
}

fn text_or_catch_all(headers: &HeaderMap, name: &str) -> (r: String)
    ensures
        r@ == or_catch_all(http_utils::first_text(headers::entries(*headers), name@)),
{
    match header_first_text(headers, name) {
        Some(s) => s,
        None => "*".to_string(),
    }
}

/// The name of a component that gave none.
pub open spec fn unknown_component(connector_id: Seq<char>) -> Seq<char> {
    let n = if connector_id.len() < 5 {
        connector_id.len() as int
    } else {
        5
    };
    "unknown-"@ + connector_id.take(n)
}

fn unknown_component_name(connector_id: &str) -> (r: String)
    ensures
        r@ == unknown_component(connector_id@),
{
    let chars = text::chars_of(connector_id);
    let n: usize = if chars.len() < 5 {
        chars.len()
    } else {
        5
    };
    let sub_uuid = text::string_between(&chars, 0, n);
    assert(sub_uuid@ =~= connector_id@.take(n as int));
    text::concat("unknown-", sub_uuid.as_str())
}

/// The last message to a connector that was deregistered.
pub fn goodbye() -> (r: CloseFrame)
    ensures
        r@ == (1000u16, "Deregister complete"@),
{
    CloseFrame { code: 1000, reason: "Deregister complete".to_string() }
}

/// What becomes of a registration.
#[derive(Debug)]
pub enum Registration {
    /// It is refused with an answer.
    Refused(PlainResponse),
    /// It is accepted.
    Accepted(CrankerConnectorInfo),
    /// A header about the version is no text.
    Unreadable,
}

/// Whether the headers of a registration give a route and a domain, both of which are mandatory.
pub open spec fn names_route_and_domain(es: Seq<Entry>) -> bool {
    http_utils::first_text(es, "Route"@) is Some && http_utils::first_text(es, "Domain"@) is Some
}

/// Whether `out` is what becomes of a registration, where the connector has this identifier and
/// whether its address may register is known.
pub open spec fn registers(
    versions: Seq<(&'static str, &'static str)>,
    method: Seq<char>,
    es: Seq<Entry>,
    connector_id: Seq<char>,
    component_name: Option<Seq<char>>,
    ip: Seq<char>,
    allowed: bool,
    out: Registration,
) -> bool {
    if method == "TRACE"@ {
        out matches Registration::Refused(p) && p.status == 405 && p.body@ == "Method not allowed."@
    } else if !allowed {
        out matches Registration::Refused(p) && p.status == 403 && p.body@ == ip_refusal(
            ip,
            or_catch_all(http_utils::first_text(es, "Route"@)),
            connector_id,
        )
    } else if !version_readable(versions, es) {
        out is Unreadable
    } else {
        match out {
            Registration::Accepted(info) => {
                &&& negotiates(versions, es, Ok(info.negotiated_cranker_version))
                &&& info.connector_id@ == connector_id
                &&& http_utils::first_text(es, "Route"@) == Some(info.route@)
                &&& http_utils::first_text(es, "Domain"@) == Some(info.domain@)
                &&& info.component_name@ == match component_name {
                    Some(name) => name,
                    None => unknown_component(connector_id),
                }
            },
            Registration::Refused(p) => {
                &&& p.status == 400
                &&& {
                    ||| exists|e: CrankerRouterException|
                        #[trigger] negotiates(versions, es, Err(e)) && p.body@
                            == "Failed to negotiate cranker version: "@ + (
                        "Cranker router exception: "@ + e@.reason)
                    ||| {
                        &&& agreed_version(versions, es) is Some
                        &&& !names_route_and_domain(es)
                        &&& p.body@ == "Route and Domain are mandatory."@
                    }
                }
            },
            Registration::Unreadable => false,
        }
    }
}

/// Decides on a registration, where the connector's identifier and whether its address may
/// register are known.
pub fn reg_check(
    supported_cranker_protocols: &Versions,
    method: &str,
    headers: &HeaderMap,
    connector_id: String,
    component_name: Option<String>,
    ip_text: &str,
    allowed: bool,
) -> (r: Registration)
    ensures
        registers(
            supported_cranker_protocols@,
            method@,
            headers::entries(*headers),
            connector_id@,
            forwarded::opt_text(component_name),
            ip_text@,
            allowed,
            r,
        ),
{
    if text::str_eq(method, "TRACE") {
        return Registration::Refused(
            PlainResponse { status: 405, body: "Method not allowed.".to_string() },
        );
    }
    if !allowed {
        let route = text_or_catch_all(headers, "Route");
        return Registration::Refused(
            failed_at_ip_validation(ip_text, route.as_str(), connector_id.as_str()),
        );
    }
    let component_name = match component_name {
        Some(name) => name,
        None => unknown_component_name(connector_id.as_str()),
    };
    if !is_version_readable(supported_cranker_protocols, headers) {
        return Registration::Unreadable;
    }
    match extract_cranker_version(supported_cranker_protocols, headers) {
        Ok(negotiated_cranker_version) => match (
            header_first_text(headers, "Route"),
            header_first_text(headers, "Domain"),
        ) {
            (Some(route), Some(domain)) => Registration::Accepted(
                CrankerConnectorInfo {
                    connector_id,
                    route,
                    component_name,
                    domain,
                    negotiated_cranker_version,
                },
            ),
            _ => Registration::Refused(
                PlainResponse { status: 400, body: "Route and Domain are mandatory.".to_string() },
            ),
        },
        Err(err) => {
            let body = text::concat(
                "Failed to negotiate cranker version: ",
                err.to_string().as_str(),
            );
            assert(negotiates(
                supported_cranker_protocols@,
                headers::entries(*headers),
                Err(err),
            ));
            Registration::Refused(PlainResponse { status: 400, body })
        },
    }
}

/// Whether a validator may say this of a host.
pub open spec fn may_allow<V: IPValidator + ?Sized>(v: &V, ip: IpAddr, r: bool) -> bool {
    call_ensures(V::allow, (v, ip), r)
}

impl CrankerRouterConfig {
    /// Whether a host may register: what the configured validator says of it.
    pub fn allows(&self, ip: IpAddr) -> (r: bool)
        ensures
            match self.registration_ip_validator {
                Some(v) => may_allow(&*v, ip, r),
                None => r,
            },
    {
        match &self.registration_ip_validator {
            Some(v) => v.allow(ip),
            None => AllowAll::new().allow(ip),
        }
    }
}

/// The function needed to be applied before connector
/// registration.
/// Domain and route is mandatory so add a middleware to
/// check.
/// Return BAD_REQUEST if illegal
///
/// A connector that gives no identifier gets a random one.
pub fn reg_check_and_extract(
    config: &CrankerRouterConfig,
    method: &str,
    headers: &HeaderMap,
    connector_instance_id: Option<String>,
    component_name: Option<String>,
    ip: IpAddr,
    ip_text: &str,
) -> (r: Registration)
    ensures
        exists|connector_id: Seq<char>, allowed: bool|
            #[trigger] registers(
                config.settings.supported_cranker_protocols@,
                method@,
                headers::entries(*headers),
                connector_id,
                forwarded::opt_text(component_name),
                ip_text@,
                allowed,
                r,
            ) && (connector_instance_id matches Some(id) ==> connector_id == id@) && (
            connector_instance_id is None ==> connector_id.len() == 36) && (
            match config.registration_ip_validator {
                Some(v) => may_allow(&*v, ip, allowed),
                None => allowed,
            }),
{
    let connector_id = match connector_instance_id {
        Some(id) => id,
        None => new_uuid(),
    };
    let allowed = config.allows(ip);
    reg_check(
        &config.settings.supported_cranker_protocols,
        method,
        headers,
        connector_id,
        component_name,
        ip_text,
        allowed,
    )
}

/// What becomes of a deregistration.
#[derive(Debug)]
pub enum Deregistration {
    /// It is refused with an answer.
    Refused(PlainResponse),
    /// The connector gave no identifier, so that none of its sockets is deregistered.
    Unsupported,
    /// The sockets of this connector on this route are deregistered.
    Deregister { route: String, connector_id: String },
}

/// Whether `out` is what becomes of a deregistration.
pub open spec fn deregisters(
    es: Seq<Entry>,
    connector_id: Option<Seq<char>>,
    ip: Seq<char>,
    allowed: bool,
    out: Deregistration,
) -> bool {
    let r = or_catch_all(http_utils::first_text(es, "Route"@));
    if !allowed {
        out matches Deregistration::Refused(p) && p.status == 403 && p.body@ == ip_refusal(
            ip,
            r,
            match connector_id {
                Some(id) => id,
                None => "N/A"@,
            },
        )
    } else {
        match connector_id {
            None => out is Unsupported,
            Some(id) => out matches Deregistration::Deregister { route, connector_id }
                && route@ == r && connector_id@ == id,
        }
    }
}

/// Decides on a deregistration, where whether the connector's address may register is known.
pub fn de_reg_decide(
    headers: &HeaderMap,
    connector_id: Option<String>,
    ip_text: &str,
    allowed: bool,
) -> (r: Deregistration)
    ensures
        deregisters(
            headers::entries(*headers),
            forwarded::opt_text(connector_id),
            ip_text@,
            allowed,
            r,
        ),
{
    let route = text_or_catch_all(headers, "Route");
    if !allowed {
        let id = match connector_id {
            Some(id) => id,
            None => "N/A".to_string(),
        };
        return Deregistration::Refused(
            failed_at_ip_validation(ip_text, route.as_str(), id.as_str()),
        );
    }
    match connector_id {
        None => Deregistration::Unsupported,
        Some(connector_id) => Deregistration::Deregister { route, connector_id },
    }
}

/// The function needed to be called before
/// a connector is de-registering.
pub fn de_reg_check(
    config: &CrankerRouterConfig,
    headers: &HeaderMap,
    connector_id: Option<String>,
    ip: IpAddr,
    ip_text: &str,
) -> (r: Deregistration)
    ensures
        exists|allowed: bool|
            #[trigger] deregisters(
                headers::entries(*headers),
                forwarded::opt_text(connector_id),
                ip_text@,
                allowed,
                r,
            ) && (match config.registration_ip_validator {
                Some(v) => may_allow(&*v, ip, allowed),
                None => allowed,
            }),
{
    let allowed = config.allows(ip);
    de_reg_decide(headers, connector_id, ip_text, allowed)
}

/// The version that router and connector agree on is one that the router speaks.
pub proof fn law_agreed_version_is_spoken(
    versions: Seq<(&'static str, &'static str)>,
    es: Seq<Entry>,
)
    ensures
        agreed_version(versions, es) matches Some(name) ==> exists|i: int|
            0 <= i < versions.len() && (#[trigger] versions[i]).1@ == name,
{
    if let Some(bytes) = sub_protocols(es) {
        lemma_offered_is_spoken(versions, text::split(headers::value_text(bytes)->0, ','));
    }
    if let Some(bytes) = legacy_protocol(es) {
        lemma_named_is_spoken(versions, headers::value_text(bytes)->0);
    }
}

proof fn lemma_offered_is_spoken(
    versions: Seq<(&'static str, &'static str)>,
    pieces: Seq<Seq<char>>,
)
    ensures
        first_offered(versions, pieces) matches Some(name) ==> exists|i: int|
            0 <= i < versions.len() && (#[trigger] versions[i]).1@ == name,
    decreases pieces.len(),
{
    if pieces.len() > 0 {
        lemma_named_is_spoken(versions, offered_number(pieces[0]));
        lemma_offered_is_spoken(versions, pieces.drop_first());
    }
}

proof fn lemma_named_is_spoken(versions: Seq<(&'static str, &'static str)>, number: Seq<char>)
    ensures
        config::version_name(versions, number) matches Some(name) ==> exists|i: int|
            0 <= i < versions.len() && (#[trigger] versions[i]).1@ == name,
    decreases versions.len(),
{
    if versions.len() > 0 {
        let rest = versions.drop_first();
        lemma_named_is_spoken(rest, number);
        if versions[0].0@ != number {
            if let Some(name) = config::version_name(rest, number) {
                let i = choose|i: int| 0 <= i < rest.len() && (#[trigger] rest[i]).1@ == name;
                assert(versions[i + 1].1@ == name);
            }
        } else {
            assert(versions[0].1@ == config::version_name(versions, number)->0);
        }
    }
}

} // verus!
