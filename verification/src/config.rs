//! The settings of a router.

use crate::ip_validator::IPValidator;
use crate::proxy_listener::ProxyListener;
use crate::route_resolver::RouteResolver;
use crate::router_socket_filter::RouterSocketFilter;
use crate::text;
use std::sync::Arc;
use vstd::prelude::*;
use vstd::utf8::encode_utf8;

verus! {

pub const CRANKER_PROTOCOL_HEADER_KEY: &'static str = "CrankerProtocol";

pub const _VER_1_0: &'static str = "1.0";

pub const _VER_3_0: &'static str = "3.0";

pub const CRANKER_V_1_0: &'static str = "cranker_1.0";

pub const CRANKER_V_3_0: &'static str = "cranker_3.0";

pub const DEF_IDLE_READ_TIMEOUT_MS: i64 = 300_000;

pub const DEF_ROUTES_KEEP_TIME_MILLIS: i64 = 7_200_000;

pub const DEF_PING_SENT_AFTER_NO_WRITE_FOR_MS: i64 = 10_000;

pub const DEF_CONNECTOR_MAX_WAIT_TIME_MILLIS: i64 = 5_000;

/// The texts of a list.
pub open spec fn names(v: Seq<&'static str>) -> Set<Seq<char>> {
    Set::new(|n: Seq<char>| exists|i: int| 0 <= i < v.len() && (#[trigger] v[i])@ == n)
}

/// Whether a list holds a text.
pub fn contains_name(v: &Vec<&'static str>, name: &str) -> (r: bool)
    ensures
        r == names(v@).contains(name@),
{
    let mut i: usize = 0;
    while i < v.len()
        invariant
            i <= v.len(),
            forall|j: int| 0 <= j < i ==> (#[trigger] v@[j])@ != name@,
        decreases v.len() - i,
    {
        if text::str_eq(v[i], name) {
            return true;
        }
        i = i + 1;
    }
    false
}

fn without_name(v: &Vec<&'static str>, name: &str) -> (r: Vec<&'static str>)
    ensures
        names(r@) == names(v@).remove(name@),
{
    let mut r: Vec<&'static str> = Vec::new();
    let mut i: usize = 0;
    while i < v.len()
        invariant
            i <= v.len(),
            forall|k: int|
                0 <= k < r@.len() ==> (#[trigger] r@[k])@ != name@ && names(v@).contains(r@[k]@),
            forall|j: int|
                0 <= j < i && (#[trigger] v@[j])@ != name@ ==> names(r@).contains(v@[j]@),
        decreases v.len() - i,
    {
        if !text::str_eq(v[i], name) {
            let ghost before = r@;
            r.push(v[i]);
            proof {
                assert(r@[before.len() as int]@ == v@[i as int]@);
                assert forall|j: int| 0 <= j <= i && (#[trigger] v@[j])@ != name@ implies names(
                    r@,
                ).contains(v@[j]@) by {
                    if j < i {
                        let k = choose|k: int|
                            0 <= k < before.len() && (#[trigger] before[k])@ == v@[j]@;
                        assert(r@[k]@ == v@[j]@);
                    }
                }
            }
        }
        i = i + 1;
    }
    assert(names(r@) =~= names(v@).remove(name@));
    r
}

/// Headers that concern one connection only.
pub open spec fn is_hop_by_hop(name: Seq<char>) -> bool {
    ||| name == "keep-alive"@
    ||| name == "transfer-encoding"@
    ||| name == "te"@
    ||| name == "connection"@
    ||| name == "trailer"@
    ||| name == "upgrade"@
    ||| name == "proxy-authorization"@
    ||| name == "proxy-authenticate"@
}

/// Whether a header concerns one connection only.
pub fn hop_by_hop(name: &str) -> (r: bool)
    ensures
        r == is_hop_by_hop(name@),
{
    text::str_eq(name, "keep-alive") || text::str_eq(name, "transfer-encoding") || text::str_eq(
        name,
        "te",
    ) || text::str_eq(name, "connection") || text::str_eq(name, "trailer") || text::str_eq(
        name,
        "upgrade",
    ) || text::str_eq(name, "proxy-authorization") || text::str_eq(name, "proxy-authenticate")
}

/// Headers of a response that are not sent back to the client.
pub open spec fn is_not_sent_back(name: Seq<char>) -> bool {
    name == "server"@
}

/// Headers of a request that are not sent on: those of one connection, `expect`, which has been
/// answered by then, and those that the router writes itself.
pub open spec fn is_repressed(name: Seq<char>) -> bool {
    ||| is_hop_by_hop(name)
    ||| name == "expect"@
    ||| name == "forwarded"@
    ||| name == "x-forwarded-by"@
    ||| name == "x-forwarded-for"@
    ||| name == "x-forwarded-host"@
    ||| name == "x-forwarded-proto"@
    ||| name == "x-forwarded-port"@
    ||| name == "x-forwarded-server"@
    ||| name == "via"@
}

/// The headers of a request that are not sent on.
pub fn repressed_headers() -> (r: Vec<&'static str>)
    ensures
        forall|n: Seq<char>| names(r@).contains(n) <==> #[trigger] is_repressed(n),
{
    let r: Vec<&'static str> = vec![
        "keep-alive",
        "transfer-encoding",
        "te",
        "connection",
        "trailer",
        "upgrade",
        "proxy-authorization",
        "proxy-authenticate",
        "expect",
        "forwarded",
        "x-forwarded-by",
        "x-forwarded-for",
        "x-forwarded-host",
        "x-forwarded-proto",
        "x-forwarded-port",
        "x-forwarded-server",
        "via",
    ];
    proof {
        assert forall|n: Seq<char>| names(r@).contains(n) <==> #[trigger] is_repressed(n) by {
            assert(r@[0]@ == "keep-alive"@);
            assert(r@[1]@ == "transfer-encoding"@);
            assert(r@[2]@ == "te"@);
            assert(r@[3]@ == "connection"@);
            assert(r@[4]@ == "trailer"@);
            assert(r@[5]@ == "upgrade"@);
            assert(r@[6]@ == "proxy-authorization"@);
            assert(r@[7]@ == "proxy-authenticate"@);
            assert(r@[8]@ == "expect"@);
            assert(r@[9]@ == "forwarded"@);
            assert(r@[10]@ == "x-forwarded-by"@);
            assert(r@[11]@ == "x-forwarded-for"@);
            assert(r@[12]@ == "x-forwarded-host"@);
            assert(r@[13]@ == "x-forwarded-proto"@);
            assert(r@[14]@ == "x-forwarded-port"@);
            assert(r@[15]@ == "x-forwarded-server"@);
            assert(r@[16]@ == "via"@);
        }
    }
    r
}

/// The protocol versions that a router speaks: each by its number and by its name.
pub type Versions = Vec<(&'static str, &'static str)>;

/// The name of a version by its number, if the router speaks it.
pub open spec fn version_name(v: Seq<(&'static str, &'static str)>, number: Seq<char>) -> Option<
    Seq<char>,
>
    decreases v.len(),
{
    if v.len() == 0 {
        None
    } else if v[0].0@ == number {
        Some(v[0].1@)
    } else {
        version_name(v.drop_first(), number)
    }
}

/// The name of a version by its number, if the router speaks it.
pub fn find_version(v: &Versions, number: &str) -> (r: Option<&'static str>)
    ensures
        match version_name(v@, number@) {
            Some(name) => r matches Some(s) && s@ == name,
            None => r is None,
        },
{
    let mut i: usize = 0;
    assert(v@.skip(0) =~= v@);
    while i < v.len()
        invariant
            i <= v.len(),
            version_name(v@, number@) == version_name(v@.skip(i as int), number@),
        decreases v.len() - i,
    {
        let ghost rest = v@.skip(i as int);
        assert(rest[0] == v@[i as int]);
        if text::str_eq(v[i].0, number) {
            return Some(v[i].1);
        }
        assert(rest.drop_first() =~= v@.skip(i + 1));
        i = i + 1;
    }
    assert(v@.skip(i as int).len() == 0);
    None
}

/// Whether a text gives the version of this number and name, in whatever case.
pub open spec fn gives_version(ver: Seq<char>, number: Seq<char>, name: Seq<char>) -> bool {
    text::lower(ver) == text::lower(number) || text::lower(ver) == text::lower(name)
}

/// Whether a text gives a version that there is.
pub open spec fn is_version(ver: Seq<char>) -> bool {
    gives_version(ver, _VER_1_0@, CRANKER_V_1_0@) || gives_version(ver, _VER_3_0@, CRANKER_V_3_0@)
}

/// Whether some text of the list gives the version of this number and name.
pub open spec fn lists_version(
    versions: Seq<Seq<char>>,
    number: Seq<char>,
    name: Seq<char>,
) -> bool {
    exists|i: int| 0 <= i < versions.len() && gives_version(#[trigger] versions[i], number, name)
}

/// What is wrong with a list of versions: it is empty, or one of them does not exist.
pub open spec fn versions_error(versions: Seq<Seq<char>>) -> Option<Seq<char>> {
    if versions.len() == 0 {
        Some("No supported cranker version provided."@)
    } else {
        first_unknown(versions)
    }
}

pub open spec fn first_unknown(versions: Seq<Seq<char>>) -> Option<Seq<char>>
    decreases versions.len(),
{
    if versions.len() == 0 {
        None
    } else if !is_version(versions[0]) {
        Some("Not supported cranker version: "@ + versions[0])
    } else {
        first_unknown(versions.drop_first())
    }
}

fn gives(ver: &str, number: &str, name: &str) -> (r: bool)
    ensures
        r == gives_version(ver@, number@, name@),
{
    text::same_ignoring_case(ver, number) || text::same_ignoring_case(ver, name)
}

fn lists(versions: &Vec<String>, number: &str, name: &str) -> (r: bool)
    ensures
        r == lists_version(text::texts(versions@), number@, name@),
{
    let mut i: usize = 0;
    while i < versions.len()
        invariant
            i <= versions.len(),
            forall|j: int|
                0 <= j < i ==> !gives_version(
                    #[trigger] text::texts(versions@)[j],
                    number@,
                    name@,
                ),
        decreases versions.len() - i,
    {
        assert(text::texts(versions@)[i as int] == versions@[i as int]@);
        if gives(versions[i].as_str(), number, name) {
            return true;
        }
        i = i + 1;
    }
    false
}

/// Whether the versions that a router speaks are those that a list gives.
pub open spec fn are_versions(
    v: Seq<(&'static str, &'static str)>,
    listed: Seq<Seq<char>>,
) -> bool {
    &&& version_name(v, _VER_1_0@) == (if lists_version(listed, _VER_1_0@, CRANKER_V_1_0@) {
        Some(CRANKER_V_1_0@)
    } else {
        None
    })
    &&& version_name(v, _VER_3_0@) == (if lists_version(listed, _VER_3_0@, CRANKER_V_3_0@) {
        Some(CRANKER_V_3_0@)
    } else {
        None
    })
    &&& forall|n: Seq<char>|
        n != _VER_1_0@ && n != _VER_3_0@ ==> #[trigger] version_name(v, n) is None
}

/// The versions that a list of numbers or names gives, or what is wrong with the list.
pub fn check_supported_cranker_version(versions: &Vec<String>) -> (r: Result<Versions, String>)
    ensures
        match versions_error(text::texts(versions@)) {
            Some(e) => r matches Err(s) && s@ == e,
            None => r matches Ok(v) && are_versions(v@, text::texts(versions@)),
        },
{
    let ghost listed = text::texts(versions@);
    assert(listed.len() == versions@.len());
    if versions.len() == 0 {
        return Err("No supported cranker version provided.".to_string());
    }
    let mut i: usize = 0;
    assert(listed.skip(0) =~= listed);
    while i < versions.len()
        invariant
            i <= versions.len(),
            listed == text::texts(versions@),
            first_unknown(listed) == first_unknown(listed.skip(i as int)),
            listed.len() > 0,
        decreases versions.len() - i,
    {
        let ghost rest = listed.skip(i as int);
        assert(rest[0] == versions@[i as int]@);
        let v = versions[i].as_str();
        if !gives(v, _VER_1_0, CRANKER_V_1_0) && !gives(v, _VER_3_0, CRANKER_V_3_0) {
            return Err(text::concat("Not supported cranker version: ", v));
        }
        assert(rest.drop_first() =~= listed.skip(i + 1));
        i = i + 1;
    }
    assert(listed.skip(i as int).len() == 0);
    proof {
        reveal_strlit("1.0");
        reveal_strlit("3.0");
        assert(_VER_1_0@[0] == '1' && _VER_3_0@[0] == '3');
    }
    let mut res: Versions = Vec::new();
    if lists(versions, _VER_1_0, CRANKER_V_1_0) {
        res.push((_VER_1_0, CRANKER_V_1_0));
    }
    let ghost one = res@;
    if lists(versions, _VER_3_0, CRANKER_V_3_0) {
        res.push((_VER_3_0, CRANKER_V_3_0));
    }
    proof {
        reveal_with_fuel(version_name, 3);
        if res@.len() > 0 {
            assert(res@.drop_first() =~= res@.skip(1));
        }
    }
    Ok(res)
}

/// Whether `c` may stand in a via name.
pub open spec fn via_char(c: char) -> bool {
    crate::forwarded::t_char(c) || c == ',' || c == ':'
}

/// What is wrong with the characters of a via name from the `i`th on: one that may not stand
/// in it, or a hyphen that is neither the first character nor the last.
pub open spec fn via_char_error(s: Seq<char>, i: int) -> Option<Seq<char>>
    decreases s.len() - i,
{
    if i >= s.len() {
        None
    } else if !via_char(s[i]) {
        Some("not allowed character in via header: \""@ + seq![s[i]] + "\""@)
    } else if s[i] == '-' && i != 0 && i != s.len() - 1 {
        Some("hyphen should only be at the beginning or the end of the via header!"@)
    } else {
        via_char_error(s, i + 1)
    }
}

/// The first character that is not ASCII, from the `i`th on, makes an error.
pub open spec fn via_ascii_error(s: Seq<char>, i: int) -> Option<Seq<char>>
    decreases s.len() - i,
{
    if i >= s.len() {
        None
    } else if (s[i] as u32) >= 128 {
        Some("non ascii letter in via header: \""@ + seq![s[i]] + "\""@)
    } else {
        via_ascii_error(s, i + 1)
    }
}

/// What is wrong with a via name.
pub open spec fn via_name_error(s: Seq<char>) -> Option<Seq<char>> {
    if encode_utf8(s).len() > 1023 {
        Some("The via name you set is too long!"@)
    } else if via_ascii_error(s, 0) is Some {
        via_ascii_error(s, 0)
    } else {
        via_char_error(s, 0)
    }
}

fn quoted_char(front: &str, c: char) -> (r: String)
    ensures
        r@ == front@ + seq![c] + "\""@,
{
    let mut r = front.to_string();
    r.push(c);
    r.push_str("\"");
    assert(r@ =~= front@ + seq![c] + "\""@);
    r
}

/// Checks the name to add as the `Via` header.
pub fn check_via_name(via_name: &String) -> (r: Result<(), String>)
    ensures
        match via_name_error(via_name@) {
            Some(e) => r matches Err(s) && s@ == e,
            None => r is Ok,
        },
{
    if via_name.as_str().as_bytes().len() > 1023 {
        return Err("The via name you set is too long!".to_string());
    }
    let chars = text::chars_of(via_name.as_str());
    let mut i: usize = 0;
    while i < chars.len()
        invariant
            i <= chars.len(),
            chars@ == via_name@,
            encode_utf8(via_name@).len() <= 1023,
            via_ascii_error(via_name@, 0) == via_ascii_error(via_name@, i as int),
        decreases chars.len() - i,
    {
        if (chars[i] as u32) >= 128 {
            return Err(quoted_char("non ascii letter in via header: \"", chars[i]));
        }
        i = i + 1;
    }
    let mut i: usize = 0;
    while i < chars.len()
        invariant
            i <= chars.len(),
            chars@ == via_name@,
            encode_utf8(via_name@).len() <= 1023,
            via_ascii_error(via_name@, 0) is None,
            via_char_error(via_name@, 0) == via_char_error(via_name@, i as int),
        decreases chars.len() - i,
    {
        let c = chars[i];
        if !(crate::forwarded::is_t_char(c) || c == ',' || c == ':') {
            return Err(quoted_char("not allowed character in via header: \"", c));
        }
        if c == '-' && i != 0 && i != chars.len() - 1 {
            return Err(
                "hyphen should only be at the beginning or the end of the via header!".to_string(),
            );
        }
        i = i + 1;
    }
    Ok(())
}

/// The message about a setting that must not be negative.
pub open spec fn negative_error(name: Seq<char>, val: i64) -> Option<Seq<char>> {
    if val >= 0 {
        None
    } else {
        Some(name + " must be greater or equals to 0"@)
    }
}

/// The message to fail with if a setting is negative.
pub fn panic_if_less_than_zero(name: &'static str, val: i64) -> (r: Result<(), String>)
    ensures
        match negative_error(name@, val) {
            Some(e) => r matches Err(s) && s@ == e,
            None => r is Ok,
        },
{
    if val >= 0 {
        Ok(())
    } else {
        Err(text::concat(name, " must be greater or equals to 0"))
    }
}

/// The builder / config of a CrankerRouter
pub type CrankerRouterBuilder = CrankerRouterConfig;

/// The settings of a router that are plain values.
#[derive(Debug)]
pub struct RouterSettings {
    pub discard_client_forwarded_headers: bool,
    pub send_legacy_forwarded_headers: bool,
    pub via_name: String,
    pub routes_keep_time_millis: i64,
    pub connector_max_wait_time_millis: i64,
    pub ping_sent_after_no_write_for_ms: i64,
    pub idle_read_timeout_ms: i64,
    pub allow_catch_all: bool,
    pub do_not_proxy_headers: Vec<&'static str>,
    pub supported_cranker_protocols: Versions,
}

/// The config / builder of a CrankerRouter
pub struct CrankerRouterConfig {
    pub settings: RouterSettings,
    pub proxy_listeners: Vec<Arc<dyn ProxyListener>>,
    /// The filter of the sockets that match a path, or none for the one that lets all pass.
    pub router_socket_filter: Option<Arc<dyn RouterSocketFilter>>,
    /// The validator of the addresses that may register, or none for the one that allows all.
    pub registration_ip_validator: Option<Arc<dyn IPValidator>>,
    /// The resolver of a path's route, or none for the default one.
    pub route_resolver: Option<Arc<dyn RouteResolver>>,
}

impl CrankerRouterConfig {
    /// Create a builder
    pub fn new() -> (r: CrankerRouterBuilder)
        ensures
            r.proxy_listeners@.len() == 0,
            r.router_socket_filter is None,
            r.registration_ip_validator is None,
            r.route_resolver is None,
            !r.settings.discard_client_forwarded_headers,
            !r.settings.send_legacy_forwarded_headers,
            r.settings.via_name@ == "scr-axum"@,
            r.settings.routes_keep_time_millis == DEF_ROUTES_KEEP_TIME_MILLIS,
            r.settings.connector_max_wait_time_millis == DEF_CONNECTOR_MAX_WAIT_TIME_MILLIS,
            r.settings.ping_sent_after_no_write_for_ms == DEF_PING_SENT_AFTER_NO_WRITE_FOR_MS,
            r.settings.idle_read_timeout_ms == DEF_IDLE_READ_TIMEOUT_MS,
            r.settings.allow_catch_all,
            forall|n: Seq<char>|
                names(r.settings.do_not_proxy_headers@).contains(n) <==> #[trigger] is_repressed(n),
            r.settings.supported_cranker_protocols@ == seq![
                (_VER_1_0, CRANKER_V_1_0),
                (_VER_3_0, CRANKER_V_3_0),
            ],
    {
        let supported_cranker_protocols: Versions = vec![
            (_VER_1_0, CRANKER_V_1_0),
            (_VER_3_0, CRANKER_V_3_0),
        ];
        assert(supported_cranker_protocols@ =~= seq![
            (_VER_1_0, CRANKER_V_1_0),
            (_VER_3_0, CRANKER_V_3_0),
        ]);
        CrankerRouterConfig {
            settings: RouterSettings {
                discard_client_forwarded_headers: false,
                send_legacy_forwarded_headers: false,
                via_name: "scr-axum".to_string(),
                routes_keep_time_millis: DEF_ROUTES_KEEP_TIME_MILLIS,
                connector_max_wait_time_millis: DEF_CONNECTOR_MAX_WAIT_TIME_MILLIS,
                ping_sent_after_no_write_for_ms: DEF_PING_SENT_AFTER_NO_WRITE_FOR_MS,
                idle_read_timeout_ms: DEF_IDLE_READ_TIMEOUT_MS,
                allow_catch_all: true,
                do_not_proxy_headers: repressed_headers(),
                supported_cranker_protocols,
            },
            proxy_listeners: Vec::new(),
            router_socket_filter: None,
            registration_ip_validator: None,
            route_resolver: None,
        }
    }

    /// If true, then any Forwarded or X-Forwarded-* headers that are sent
    /// from the client to this reverse proxy will be dropped
    /// (defaults to false).
    pub fn with_discard_client_forwarded_headers(self, discard_client_forwarded_headers: bool) -> (r: Self)
        ensures
            r == (CrankerRouterConfig {
                settings: RouterSettings { discard_client_forwarded_headers, ..self.settings },
                ..self
            }),
    {
        let mut c = self;
        c.settings.discard_client_forwarded_headers = discard_client_forwarded_headers;
        c
    }

    /// The router always sends Forwarded headers, however by
    /// default does not send the non-standard X-Forwarded-* headers.
    ///
    /// Set this to true to enable these legacy headers for older clients
    /// that rely on them.
    pub fn with_send_legacy_forwarded_headers(self, send_legacy_forwarded_headers: bool) -> (r: Self)
        ensures
            r == (CrankerRouterConfig {
                settings: RouterSettings { send_legacy_forwarded_headers, ..self.settings },
                ..self
            }),
    {
        let mut c = self;
        c.settings.send_legacy_forwarded_headers = send_legacy_forwarded_headers;
        c
    }

    /// The name to add as the Via header, which defaults to "scr-axum".
    ///
    /// Note that limited ASCII characters can be used for via name: see [`check_via_name`].
    pub fn with_via_name(self, via_name: String) -> (r: Self)
        requires
            via_name_error(via_name@) is None,
        ensures
            r == (CrankerRouterConfig {
                settings: RouterSettings { via_name, ..self.settings },
                ..self
            }),
    {
        let mut c = self;
        c.settings.via_name = via_name;
        c
    }

    /// Sets the idle timeout of a WebSocket connection.
    ///
    /// If nothing is read from the connector for more than this many milliseconds,
    /// including `Ping` and `Pong` messages, the router socket
    /// will be terminated along with the underlying websocket.
    ///
    /// Default is 5 min.
    pub fn with_idle_read_timeout_ms(self, idle_read_timeout_ms: i64) -> (r: Self)
        requires
            idle_read_timeout_ms >= 0,
        ensures
            r == (CrankerRouterConfig {
                settings: RouterSettings { idle_read_timeout_ms, ..self.settings },
                ..self
            }),
    {
        let mut c = self;
        c.settings.idle_read_timeout_ms = idle_read_timeout_ms;
        c
    }

    /// Sets the routes keep time if no more connector registered.
    /// Within the time, client will receive 503 (no cranker available).
    /// After that, the route info will be cleaned up, and client will
    /// receive 404 if requesting against this route.
    ///
    /// The default keep time is 2 hours.
    pub fn with_routes_keep_time_millis(self, routes_keep_time_millis: i64) -> (r: Self)
        requires
            routes_keep_time_millis >= 0,
        ensures
            r == (CrankerRouterConfig {
                settings: RouterSettings { routes_keep_time_millis, ..self.settings },
                ..self
            }),
    {
        let mut c = self;
        c.settings.routes_keep_time_millis = routes_keep_time_millis;
        c
    }

    /// Sets the amount of time to wait before sending a ping message if no
    /// messages having been sent.
    pub fn with_ping_sent_after_no_write_for_ms(self, ping_sent_after_no_write_for_ms: i64) -> (r: Self)
        requires
            ping_sent_after_no_write_for_ms >= 0,
        ensures
            r == (CrankerRouterConfig {
                settings: RouterSettings { ping_sent_after_no_write_for_ms, ..self.settings },
                ..self
            }),
    {
        let mut c = self;
        c.settings.ping_sent_after_no_write_for_ms = ping_sent_after_no_write_for_ms;
        c
    }

    /// When a request is made for a route that has no connectors connected
    /// currently, the router will wait for a period to see if a connector
    /// will connect that can service the request.
    ///
    /// This setting controls how long it waits before returning a 503
    /// Service Unavailable to the client.
    pub fn with_connector_max_wait_time_millis(self, connector_max_wait_time_millis: i64) -> (r: Self)
        requires
            connector_max_wait_time_millis >= 0,
        ensures
            r == (CrankerRouterConfig {
                settings: RouterSettings { connector_max_wait_time_millis, ..self.settings },
                ..self
            }),
    {
        let mut c = self;
        c.settings.connector_max_wait_time_millis = connector_max_wait_time_millis;
        c
    }

    /// Sets if allow to register catch all / wildcard ("*") route
    /// as a fallback for all no-route-matched client requests
    pub fn should_allow_catch_all(self, allow_catch_all: bool) -> (r: Self)
        ensures
            r == (CrankerRouterConfig {
                settings: RouterSettings { allow_catch_all, ..self.settings },
                ..self
            }),
    {
        let mut c = self;
        c.settings.allow_catch_all = allow_catch_all;
        c
    }

    /// Specifies whether to send the original `Host` header to the
    /// target server.
    ///
    /// Reverse proxies are generally supposed to forward the original Host
    /// header to target servers, however there are cases (particularly where
    /// you are proxying to HTTPS servers) that the Host needs to match the
    /// Host of the SSL certificate (in which case you may see SNI-related
    /// errors).
    pub fn should_proxy_host_header(self, should_proxy_host_header: bool) -> (r: Self)
        ensures
            names(r.settings.do_not_proxy_headers@) == (if should_proxy_host_header {
                names(self.settings.do_not_proxy_headers@).remove("host"@)
            } else {
                names(self.settings.do_not_proxy_headers@).insert("host"@)
            }),
            r == (CrankerRouterConfig {
                settings: RouterSettings {
                    do_not_proxy_headers: r.settings.do_not_proxy_headers,
                    ..self.settings
                },
                ..self
            }),
    {
        let mut c = self;
        let others = without_name(&c.settings.do_not_proxy_headers, "host");
        c.settings.do_not_proxy_headers = others;
        if !should_proxy_host_header {
            let ghost before = c.settings.do_not_proxy_headers@;
            c.settings.do_not_proxy_headers.push("host");
            proof {
                let after = c.settings.do_not_proxy_headers@;
                assert forall|n: Seq<char>| #[trigger]
                    names(after).contains(n) <==> names(self.settings.do_not_proxy_headers@).insert(
                        "host"@,
                    ).contains(n) by {
                    assert(after[after.len() - 1]@ == "host"@);
                    assert(forall|i: int| 0 <= i < before.len() ==> after[i] == before[i]);
                    if names(before).contains(n) {
                        let i = choose|i: int|
                            0 <= i < before.len() && (#[trigger] before[i])@ == n;
                        assert(after[i]@ == n);
                    }
                }
                assert(names(after) =~= names(self.settings.do_not_proxy_headers@).insert("host"@));
            }
        }
        c
    }

    /// Sets the IP validator for service registration requests.
    /// Defaults to `ip_validator::AllowAll`
    pub fn with_registration_ip_validator(self, ip_validator: Arc<dyn IPValidator>) -> (r: Self)
        ensures
            r.registration_ip_validator == Some(ip_validator),
            r == (CrankerRouterConfig { registration_ip_validator: r.registration_ip_validator, ..self }),
    {
        let mut c = self;
        let given = Some(ip_validator);
        c.registration_ip_validator = given;
        c
    }

    /// Registers proxy listeners to be called before, during and after
    /// requests are processed.
    pub fn with_proxy_listeners(self, proxy_listeners: Vec<Arc<dyn ProxyListener>>) -> (r: Self)
        ensures
            r == (CrankerRouterConfig { proxy_listeners, ..self }),
    {
        let mut c = self;
        c.proxy_listeners = proxy_listeners;
        c
    }

    /// Provide a custom route resolver. If it's not specified, the
    /// default implementation in `RouteResolver::resolve` is used.
    ///
    /// `LongestFirstRouteResolver` is also provided in the library.
    pub fn with_route_resolver(self, route_resolver: Arc<dyn RouteResolver>) -> (r: Self)
        ensures
            r.route_resolver == Some(route_resolver),
            r == (CrankerRouterConfig { route_resolver: r.route_resolver, ..self }),
    {
        let mut c = self;
        let given = Some(route_resolver);
        c.route_resolver = given;
        c
    }

    /// Provide a custom RouterSocketFilter.
    ///
    /// By default, no filtering will be added that should_use()
    /// will always return true.
    pub fn with_router_socket_filter(self, router_socket_filter: Arc<dyn RouterSocketFilter>) -> (r: Self)
        ensures
            r.router_socket_filter == Some(router_socket_filter),
            r == (CrankerRouterConfig { router_socket_filter: r.router_socket_filter, ..self }),
    {
        let mut c = self;
        let given = Some(router_socket_filter);
        c.router_socket_filter = given;
        c
    }

    /// Set cranker protocols.
    ///
    /// Default supporting both ["cranker_1.0", "cranker_3.0"].
    pub fn with_supported_cranker_version(self, supported_cranker_version: Vec<String>) -> (r: Self)
        requires
            versions_error(text::texts(supported_cranker_version@)) is None,
        ensures
            are_versions(
                r.settings.supported_cranker_protocols@,
                text::texts(supported_cranker_version@),
            ),
            r == (CrankerRouterConfig {
                settings: RouterSettings {
                    supported_cranker_protocols: r.settings.supported_cranker_protocols,
                    ..self.settings
                },
                ..self
            }),
    {
        let mut c = self;
        c.settings.supported_cranker_protocols = check_supported_cranker_version(
            &supported_cranker_version,
        ).unwrap();
        c
    }
}

} // verus!
