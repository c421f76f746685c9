//! What the settings of a router say, and which are taken.

use crate::config::{
    check_supported_cranker_version, check_via_name, contains_name, find_version, gives_version,
    hop_by_hop, lists_version, names, panic_if_less_than_zero, repressed_headers, via_ascii_error,
    via_char, via_char_error, CrankerRouterConfig, Versions,
};
use crate::forwarded::t_char;
use crate::ip_validator::IPValidator;
use crate::proxy_listener::ProxyListener;
use crate::route_resolver::RouteResolver;
use crate::router_socket_filter::RouterSocketFilter;
use crate::text;
use std::sync::Arc;
use vstd::prelude::*;
use vstd::utf8::encode_utf8;

verus! {

/// The headers that concern one connection only.
pub open spec fn hop_by_hop_names() -> Seq<Seq<char>> {
    seq![
        "keep-alive"@,
        "transfer-encoding"@,
        "te"@,
        "connection"@,
        "trailer"@,
        "upgrade"@,
        "proxy-authorization"@,
        "proxy-authenticate"@,
    ]
}

/// The headers that the router answers or writes itself.
pub open spec fn own_names() -> Seq<Seq<char>> {
    seq![
        "expect"@,
        "forwarded"@,
        "x-forwarded-by"@,
        "x-forwarded-for"@,
        "x-forwarded-host"@,
        "x-forwarded-proto"@,
        "x-forwarded-port"@,
        "x-forwarded-server"@,
        "via"@,
    ]
}

/// [`hop_by_hop`] tells the headers that concern one connection only from all others, and
/// [`repressed_headers`] gives them together with those that the router answers or writes itself.
pub proof fn law_headers_that_stay(
    name: &str,
    is_hop: bool,
    stay: Vec<&'static str>,
    is_kept: bool,
)
    requires
        call_ensures(hop_by_hop, (name,), is_hop),
        call_ensures(repressed_headers, (), stay),
        call_ensures(contains_name, (&stay, name), is_kept),
    ensures
        is_hop <==> hop_by_hop_names().contains(name@),
        is_kept <==> hop_by_hop_names().contains(name@) || own_names().contains(name@),
        is_kept <==> exists|i: int| 0 <= i < stay@.len() && (#[trigger] stay@[i])@ == name@,
{
    let hops = hop_by_hop_names();
    assert(hops[0] == "keep-alive"@ && hops[1] == "transfer-encoding"@ && hops[2] == "te"@);
    assert(hops[3] == "connection"@ && hops[4] == "trailer"@ && hops[5] == "upgrade"@);
    assert(hops[6] == "proxy-authorization"@ && hops[7] == "proxy-authenticate"@);
    let own = own_names();
    assert(own[0] == "expect"@ && own[1] == "forwarded"@ && own[2] == "x-forwarded-by"@);
    assert(own[3] == "x-forwarded-for"@ && own[4] == "x-forwarded-host"@);
    assert(own[5] == "x-forwarded-proto"@ && own[6] == "x-forwarded-port"@);
    assert(own[7] == "x-forwarded-server"@ && own[8] == "via"@);
    assert(crate::config::is_repressed(name@) <==> names(stay@).contains(name@));
}

/// A new router has no listeners, filter, validator or resolver of its own, and the settings that
/// are documented: the clients' forwarding headers are kept and the older ones are not sent, routes
/// are kept for two hours, a request waits five seconds for a socket, a ping is sent after ten
/// seconds without a message, a connector may be silent for five minutes, the catch-all is allowed,
/// and both versions of the protocol are spoken.
pub proof fn law_default_settings(
    c: CrankerRouterConfig,
    number: &str,
    spoken: Option<&'static str>,
    name: &str,
    is_kept: bool,
)
    requires
        call_ensures(CrankerRouterConfig::new, (), c),
        call_ensures(find_version, (&c.settings.supported_cranker_protocols, number), spoken),
        call_ensures(contains_name, (&c.settings.do_not_proxy_headers, name), is_kept),
    ensures
        c.proxy_listeners@.len() == 0,
        c.router_socket_filter is None && c.registration_ip_validator is None
            && c.route_resolver is None,
        !c.settings.discard_client_forwarded_headers && !c.settings.send_legacy_forwarded_headers,
        c.settings.via_name@ == "scr-axum"@,
        c.settings.routes_keep_time_millis == 2 * 60 * 60 * 1000,
        c.settings.connector_max_wait_time_millis == 5 * 1000,
        c.settings.ping_sent_after_no_write_for_ms == 10 * 1000,
        c.settings.idle_read_timeout_ms == 5 * 60 * 1000,
        c.settings.allow_catch_all,
        number@ == "1.0"@ ==> (spoken matches Some(v) && v@ == "cranker_1.0"@),
        number@ == "3.0"@ ==> (spoken matches Some(v) && v@ == "cranker_3.0"@),
        number@ != "1.0"@ && number@ != "3.0"@ ==> spoken is None,
        is_kept <==> hop_by_hop_names().contains(name@) || own_names().contains(name@),
{
    reveal_strlit("1.0");
    reveal_strlit("3.0");
    assert("1.0"@[0] == '1' && "3.0"@[0] == '3');
    let v = c.settings.supported_cranker_protocols@;
    reveal_with_fuel(crate::config::version_name, 3);
    assert(v.drop_first() =~= seq![v[1]]);
    assert(v.drop_first().drop_first().len() == 0);
    let hops = hop_by_hop_names();
    assert(hops[0] == "keep-alive"@ && hops[1] == "transfer-encoding"@ && hops[2] == "te"@);
    assert(hops[3] == "connection"@ && hops[4] == "trailer"@ && hops[5] == "upgrade"@);
    assert(hops[6] == "proxy-authorization"@ && hops[7] == "proxy-authenticate"@);
    let own = own_names();
    assert(own[0] == "expect"@ && own[1] == "forwarded"@ && own[2] == "x-forwarded-by"@);
    assert(own[3] == "x-forwarded-for"@ && own[4] == "x-forwarded-host"@);
    assert(own[5] == "x-forwarded-proto"@ && own[6] == "x-forwarded-port"@);
    assert(own[7] == "x-forwarded-server"@ && own[8] == "via"@);
    assert(crate::config::is_repressed(name@) <==> names(
        c.settings.do_not_proxy_headers@,
    ).contains(name@));
}

/// Each setting is what it was set to, and the others are as they were.
pub proof fn law_settings_are_set(
    c: CrankerRouterConfig,
    b: bool,
    n: i64,
    via: String,
    discard: CrankerRouterConfig,
    legacy: CrankerRouterConfig,
    catch_all: CrankerRouterConfig,
    via_set: CrankerRouterConfig,
    idle: CrankerRouterConfig,
    keep: CrankerRouterConfig,
    ping: CrankerRouterConfig,
    wait: CrankerRouterConfig,
)
    requires
        call_ensures(CrankerRouterConfig::with_discard_client_forwarded_headers, (c, b), discard),
        call_ensures(CrankerRouterConfig::with_send_legacy_forwarded_headers, (c, b), legacy),
        call_ensures(CrankerRouterConfig::should_allow_catch_all, (c, b), catch_all),
        call_ensures(CrankerRouterConfig::with_via_name, (c, via), via_set),
        call_ensures(CrankerRouterConfig::with_idle_read_timeout_ms, (c, n), idle),
        call_ensures(CrankerRouterConfig::with_routes_keep_time_millis, (c, n), keep),
        call_ensures(CrankerRouterConfig::with_ping_sent_after_no_write_for_ms, (c, n), ping),
        call_ensures(CrankerRouterConfig::with_connector_max_wait_time_millis, (c, n), wait),
    ensures
        ({
            let s = c.settings;
            let d = discard.settings;
            &&& d.discard_client_forwarded_headers == b
            &&& d.send_legacy_forwarded_headers == s.send_legacy_forwarded_headers
            &&& d.via_name == s.via_name && d.allow_catch_all == s.allow_catch_all
            &&& d.routes_keep_time_millis == s.routes_keep_time_millis
            &&& d.connector_max_wait_time_millis == s.connector_max_wait_time_millis
            &&& d.ping_sent_after_no_write_for_ms == s.ping_sent_after_no_write_for_ms
            &&& d.idle_read_timeout_ms == s.idle_read_timeout_ms
            &&& d.do_not_proxy_headers == s.do_not_proxy_headers
            &&& d.supported_cranker_protocols == s.supported_cranker_protocols
            &&& legacy.settings.send_legacy_forwarded_headers == b
            &&& legacy.settings.discard_client_forwarded_headers
                == s.discard_client_forwarded_headers
            &&& catch_all.settings.allow_catch_all == b
            &&& catch_all.settings.discard_client_forwarded_headers
                == s.discard_client_forwarded_headers
            &&& via_set.settings.via_name == via && via_set.settings.allow_catch_all
                == s.allow_catch_all
            &&& idle.settings.idle_read_timeout_ms == n && idle.settings.routes_keep_time_millis
                == s.routes_keep_time_millis
            &&& keep.settings.routes_keep_time_millis == n && keep.settings.idle_read_timeout_ms
                == s.idle_read_timeout_ms
            &&& ping.settings.ping_sent_after_no_write_for_ms == n
                && ping.settings.idle_read_timeout_ms == s.idle_read_timeout_ms
            &&& wait.settings.connector_max_wait_time_millis == n
                && wait.settings.routes_keep_time_millis == s.routes_keep_time_millis
        }),
{
}

/// The listeners, the filter, the validator and the resolver are those that were given.
pub proof fn law_parts_are_set(
    listeners: (CrankerRouterConfig, Vec<Arc<dyn ProxyListener>>),
    filter: (CrankerRouterConfig, Arc<dyn RouterSocketFilter>),
    validator: (CrankerRouterConfig, Arc<dyn IPValidator>),
    resolver: (CrankerRouterConfig, Arc<dyn RouteResolver>),
    a: CrankerRouterConfig,
    b: CrankerRouterConfig,
    c: CrankerRouterConfig,
    d: CrankerRouterConfig,
)
    requires
        call_ensures(CrankerRouterConfig::with_proxy_listeners, listeners, a),
        call_ensures(CrankerRouterConfig::with_router_socket_filter, filter, b),
        call_ensures(CrankerRouterConfig::with_registration_ip_validator, validator, c),
        call_ensures(CrankerRouterConfig::with_route_resolver, resolver, d),
    ensures
        a.proxy_listeners == listeners.1 && a.settings == listeners.0.settings,
        b.router_socket_filter == Some(filter.1) && b.settings == filter.0.settings
            && b.proxy_listeners == filter.0.proxy_listeners,
        c.registration_ip_validator == Some(validator.1) && c.settings == validator.0.settings
            && c.proxy_listeners == validator.0.proxy_listeners,
        d.route_resolver == Some(resolver.1) && d.settings == resolver.0.settings
            && d.proxy_listeners == resolver.0.proxy_listeners,
{
}

/// Whether the `Host` header is sent on is what was set last; for all other headers it stays as it
/// was.
pub proof fn law_host_header(
    c: CrankerRouterConfig,
    should_proxy: bool,
    r: CrankerRouterConfig,
    name: &str,
    kept_before: bool,
    kept_after: bool,
)
    requires
        call_ensures(CrankerRouterConfig::should_proxy_host_header, (c, should_proxy), r),
        call_ensures(contains_name, (&c.settings.do_not_proxy_headers, name), kept_before),
        call_ensures(contains_name, (&r.settings.do_not_proxy_headers, name), kept_after),
    ensures
        name@ == "host"@ ==> kept_after == !should_proxy,
        name@ != "host"@ ==> kept_after == kept_before,
{
}

/// The versions that are spoken after a list was given are those that the list gives, by number or
/// by name and in whatever case, and no other.
pub proof fn law_versions_are_set(
    c: CrankerRouterConfig,
    listed: Vec<String>,
    r: CrankerRouterConfig,
    number: &str,
    spoken: Option<&'static str>,
)
    requires
        call_ensures(CrankerRouterConfig::with_supported_cranker_version, (c, listed), r),
        call_ensures(find_version, (&r.settings.supported_cranker_protocols, number), spoken),
    ensures
        number@ == "1.0"@ ==> (spoken is Some <==> gives(listed@, "1.0"@, "cranker_1.0"@)),
        number@ == "3.0"@ ==> (spoken is Some <==> gives(listed@, "3.0"@, "cranker_3.0"@)),
        number@ != "1.0"@ && number@ != "3.0"@ ==> spoken is None,
        number@ == "1.0"@ ==> (spoken matches Some(v) ==> v@ == "cranker_1.0"@),
        number@ == "3.0"@ ==> (spoken matches Some(v) ==> v@ == "cranker_3.0"@),
        r.settings.allow_catch_all == c.settings.allow_catch_all,
        r.proxy_listeners == c.proxy_listeners,
{
    lemma_gives(listed@, "1.0"@, "cranker_1.0"@);
    lemma_gives(listed@, "3.0"@, "cranker_3.0"@);
}

/// Whether some text of a list is a number or a name, in whatever case.
pub open spec fn gives(listed: Seq<String>, number: Seq<char>, name: Seq<char>) -> bool {
    exists|i: int|
        0 <= i < listed.len() && (text::lower(#[trigger] listed[i]@) == text::lower(number)
            || text::lower(listed[i]@) == text::lower(name))
}

proof fn lemma_gives(listed: Seq<String>, number: Seq<char>, name: Seq<char>)
    ensures
        gives(listed, number, name) == lists_version(text::texts(listed), number, name),
{
    let all = text::texts(listed);
    assert(all.len() == listed.len());
    assert(forall|i: int| 0 <= i < listed.len() ==> #[trigger] all[i] == listed[i]@);
    if gives(listed, number, name) {
        let i = choose|i: int|
            0 <= i < listed.len() && (text::lower(#[trigger] listed[i]@) == text::lower(number)
                || text::lower(listed[i]@) == text::lower(name));
        assert(gives_version(all[i], number, name));
    }
    if lists_version(all, number, name) {
        let i = choose|i: int| 0 <= i < all.len() && gives_version(#[trigger] all[i], number, name);
        assert(text::lower(listed[i]@) == text::lower(number) || text::lower(listed[i]@)
            == text::lower(name));
    }
}

/// Whether a text is a version that there is.
pub open spec fn is_known(t: Seq<char>) -> bool {
    text::lower(t) == text::lower("1.0"@) || text::lower(t) == text::lower("cranker_1.0"@)
        || text::lower(t) == text::lower("3.0"@) || text::lower(t) == text::lower(
        "cranker_3.0"@,
    )
}

/// A list of versions is taken if it is not empty and has none that does not exist; otherwise the
/// first that does not exist is named.
pub proof fn law_versions_are_checked(listed: Vec<String>, r: Result<Versions, String>, i: int)
    requires
        call_ensures(check_supported_cranker_version, (&listed,), r),
    ensures
        listed@.len() == 0 ==> (r matches Err(e) && e@
            == "No supported cranker version provided."@),
        listed@.len() > 0 && (forall|k: int|
            0 <= k < listed@.len() ==> is_known(#[trigger] listed@[k]@)) ==> r is Ok,
        0 <= i < listed@.len() && !is_known(listed@[i]@) && (forall|k: int|
            0 <= k < i ==> is_known(#[trigger] listed@[k]@)) ==> (r matches Err(e) && e@
            == "Not supported cranker version: "@ + listed@[i]@),
{
    let all = text::texts(listed@);
    assert(all.len() == listed@.len());
    assert(forall|k: int| 0 <= k < listed@.len() ==> #[trigger] all[k] == listed@[k]@);
    if listed@.len() > 0 && (forall|k: int|
        0 <= k < listed@.len() ==> is_known(#[trigger] listed@[k]@)) {
        assert forall|k: int| 0 <= k < all.len() implies crate::config::is_version(
            #[trigger] all[k],
        ) by {
            assert(is_known(listed@[k]@));
        }
        lemma_all_known(all);
    }
    if 0 <= i < listed@.len() && !is_known(listed@[i]@) && (forall|k: int|
        0 <= k < i ==> is_known(#[trigger] listed@[k]@)) {
        assert forall|k: int| 0 <= k < i implies crate::config::is_version(#[trigger] all[k]) by {
            assert(is_known(listed@[k]@));
        }
        lemma_one_unknown(all, i);
    }
}

proof fn lemma_all_known(all: Seq<Seq<char>>)
    requires
        forall|k: int| 0 <= k < all.len() ==> crate::config::is_version(#[trigger] all[k]),
    ensures
        crate::config::first_unknown(all) is None,
    decreases all.len(),
{
    if all.len() > 0 {
        let rest = all.drop_first();
        assert forall|k: int| 0 <= k < rest.len() implies crate::config::is_version(
            #[trigger] rest[k],
        ) by {
            assert(rest[k] == all[k + 1]);
        }
        lemma_all_known(rest);
    }
}

proof fn lemma_one_unknown(all: Seq<Seq<char>>, i: int)
    requires
        0 <= i < all.len(),
        !crate::config::is_version(all[i]),
        forall|k: int| 0 <= k < i ==> crate::config::is_version(#[trigger] all[k]),
    ensures
        crate::config::first_unknown(all) == Some("Not supported cranker version: "@ + all[i]),
    decreases all.len(),
{
    if i > 0 {
        let rest = all.drop_first();
        assert(crate::config::is_version(all[0]));
        assert(rest[i - 1] == all[i]);
        assert forall|k: int| 0 <= k < i - 1 implies crate::config::is_version(
            #[trigger] rest[k],
        ) by {
            assert(rest[k] == all[k + 1]);
        }
        lemma_one_unknown(rest, i - 1);
    }
}

/// A name for the `Via` header is taken if and only if it has no more than 1023 bytes, only ASCII
/// characters of a token, commas and colons, and a hyphen at most at its two ends.
pub proof fn law_via_name(name: String, r: Result<(), String>)
    requires
        call_ensures(check_via_name, (&name,), r),
    ensures
        r is Ok <==> encode_utf8(name@).len() <= 1023 && forall|i: int|
            0 <= i < name@.len() ==> {
                let c = #[trigger] name@[i];
                &&& (c as u32) < 128
                &&& t_char(c) || c == ',' || c == ':'
                &&& c == '-' ==> i == 0 || i == name@.len() - 1
            },
{
    lemma_via_ascii(name@, 0);
    lemma_via_chars(name@, 0);
}

proof fn lemma_via_ascii(s: Seq<char>, from: int)
    requires
        0 <= from <= s.len(),
    ensures
        via_ascii_error(s, from) is None <==> forall|i: int|
            from <= i < s.len() ==> (#[trigger] s[i] as u32) < 128,
    decreases s.len() - from,
{
    if from < s.len() {
        lemma_via_ascii(s, from + 1);
    }
}

proof fn lemma_via_chars(s: Seq<char>, from: int)
    requires
        0 <= from <= s.len(),
    ensures
        via_char_error(s, from) is None <==> forall|i: int|
            from <= i < s.len() ==> via_char(#[trigger] s[i]) && (s[i] == '-' ==> i == 0 || i
                == s.len() - 1),
    decreases s.len() - from,
{
    if from < s.len() {
        lemma_via_chars(s, from + 1);
    }
}

/// Only a setting that is negative is refused, by its name.
pub proof fn law_no_negative_setting(name: &'static str, val: i64, r: Result<(), String>)
    requires
        call_ensures(panic_if_less_than_zero, (name, val), r),
    ensures
        r is Ok <==> val >= 0,
        r matches Err(e) ==> e@ == name@ + " must be greater or equals to 0"@,
{
}

} // verus!
