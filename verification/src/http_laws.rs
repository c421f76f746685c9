//! What holds of the headers to the target, whatever the client sends.

use crate::config::RouterSettings;
use crate::forwarded::ForwardedView;
use crate::headers::{
    appended, has_name, inserted, looked_up, values_of, with_more_value, with_only_value, Entry,
};
use crate::http_utils::{
    custom_of, is_sent_on, new_via_value, sent_on, target_headers, with_forwarded, with_text,
};
use crate::net::HttpVersion;
use crate::{config, http_utils, text};
use vstd::prelude::*;

verus! {

/// Whether the router writes a header of this name itself.
pub open spec fn is_own_header(name: Seq<char>) -> bool {
    ||| name == "via"@
    ||| name == "forwarded"@
    ||| name == "x-forwarded-proto"@
    ||| name == "x-forwarded-host"@
    ||| name == "x-forwarded-for"@
}

/// A name that no entry has is without values.
pub proof fn lemma_absent(es: Seq<Entry>, name: Seq<char>)
    requires
        !has_name(es, name),
    ensures
        values_of(es, name).len() == 0,
    decreases es.len(),
{
    if es.len() > 0 {
        assert(es[0].0 != name);
        assert forall|i: int| 0 <= i < es.drop_first().len() implies (
        #[trigger] es.drop_first()[i]).0 != name by {
            assert(es.drop_first()[i] == es[i + 1]);
        }
        lemma_absent(es.drop_first(), name);
    }
}

/// The values under a name with one more entry at the end.
pub proof fn lemma_values_of_pushed(es: Seq<Entry>, e: Entry, name: Seq<char>)
    ensures
        values_of(es.push(e), name) == (if has_name(es, name) {
            values_of(es, name)
        } else if e.0 == name {
            e.1
        } else {
            Seq::empty()
        }),
    decreases es.len(),
{
    let all = es.push(e);
    if es.len() == 0 {
        assert(all.drop_first() =~= Seq::empty());
        assert(values_of(all.drop_first(), name) == Seq::<Seq<u8>>::empty());
    } else {
        let rest = es.drop_first();
        assert(all.drop_first() =~= rest.push(e));
        lemma_values_of_pushed(rest, e, name);
        if es[0].0 != name {
            if has_name(es, name) {
                let i = choose|i: int| 0 <= i < es.len() && (#[trigger] es[i]).0 == name;
                assert(rest[i - 1] == es[i]);
                assert(has_name(rest, name));
            }
            if has_name(rest, name) {
                let i = choose|i: int| 0 <= i < rest.len() && (#[trigger] rest[i]).0 == name;
                assert(es[i + 1] == rest[i]);
            }
        } else {
            assert(has_name(es, name));
        }
    }
}

proof fn lemma_values_of_mapped(es: Seq<Entry>, name: Seq<char>, v: Seq<u8>, other: Seq<char>)
    ensures
        other != name ==> values_of(es.map_values(with_only_value(name, v)), other) == values_of(
            es,
            other,
        ),
        other != name ==> values_of(es.map_values(with_more_value(name, v)), other) == values_of(
            es,
            other,
        ),
        has_name(es, name) ==> values_of(es.map_values(with_only_value(name, v)), name) == seq![v],
        has_name(es, name) ==> values_of(es.map_values(with_more_value(name, v)), name) == values_of(
            es,
            name,
        ).push(v),
    decreases es.len(),
{
    let a = es.map_values(with_only_value(name, v));
    let b = es.map_values(with_more_value(name, v));
    if es.len() > 0 {
        let rest = es.drop_first();
        assert(a.drop_first() =~= rest.map_values(with_only_value(name, v)));
        assert(b.drop_first() =~= rest.map_values(with_more_value(name, v)));
        assert(a[0] == with_only_value(name, v)(es[0]));
        assert(b[0] == with_more_value(name, v)(es[0]));
        lemma_values_of_mapped(rest, name, v, other);
        if has_name(es, name) && es[0].0 != name {
            let i = choose|i: int| 0 <= i < es.len() && (#[trigger] es[i]).0 == name;
            assert(rest[i - 1] == es[i]);
            assert(has_name(rest, name));
        }
    }
}

proof fn lemma_has_name_mapped(es: Seq<Entry>, name: Seq<char>, v: Seq<u8>, other: Seq<char>)
    ensures
        has_name(es.map_values(with_only_value(name, v)), other) == has_name(es, other),
        has_name(es.map_values(with_more_value(name, v)), other) == has_name(es, other),
{
    let a = es.map_values(with_only_value(name, v));
    let b = es.map_values(with_more_value(name, v));
    assert forall|i: int| 0 <= i < es.len() implies (#[trigger] a[i]).0 == es[i].0 && b[i].0
        == es[i].0 by {}
    if has_name(es, other) {
        let i = choose|i: int| 0 <= i < es.len() && (#[trigger] es[i]).0 == other;
        assert(a[i].0 == other && b[i].0 == other);
    }
    if has_name(a, other) {
        let i = choose|i: int| 0 <= i < a.len() && (#[trigger] a[i]).0 == other;
        assert(es[i].0 == other);
    }
    if has_name(b, other) {
        let i = choose|i: int| 0 <= i < b.len() && (#[trigger] b[i]).0 == other;
        assert(a[i].0 == es[i].0);
        assert(es[i].0 == other);
    }
}

/// Putting in a value concerns no other name.
pub proof fn lemma_other_name(es: Seq<Entry>, name: Seq<char>, v: Seq<u8>, other: Seq<char>)
    requires
        other != name,
    ensures
        has_name(inserted(es, name, v), other) == has_name(es, other),
        has_name(appended(es, name, v), other) == has_name(es, other),
        values_of(inserted(es, name, v), other) == values_of(es, other),
        values_of(appended(es, name, v), other) == values_of(es, other),
{
    if has_name(es, name) {
        lemma_values_of_mapped(es, name, v, other);
        lemma_has_name_mapped(es, name, v, other);
    } else {
        lemma_values_of_pushed(es, (name, seq![v]), other);
        let all = es.push((name, seq![v]));
        if has_name(es, other) {
            let i = choose|i: int| 0 <= i < es.len() && (#[trigger] es[i]).0 == other;
            assert(all[i].0 == other);
        } else {
            lemma_absent(es, other);
            assert(values_of(es, other) =~= Seq::empty());
        }
        if has_name(all, other) {
            let i = choose|i: int| 0 <= i < all.len() && (#[trigger] all[i]).0 == other;
            assert(es[i].0 == other);
        }
    }
}

/// A value that was added stands behind those that the name had.
pub proof fn lemma_appended_value(es: Seq<Entry>, name: Seq<char>, v: Seq<u8>)
    ensures
        has_name(appended(es, name, v), name),
        values_of(appended(es, name, v), name) == values_of(es, name).push(v),
{
    if has_name(es, name) {
        lemma_values_of_mapped(es, name, v, name);
        lemma_has_name_mapped(es, name, v, name);
    } else {
        lemma_values_of_pushed(es, (name, seq![v]), name);
        lemma_absent(es, name);
        assert(values_of(es, name).push(v) =~= seq![v]);
        assert(es.push((name, seq![v]))[es.len() as int].0 == name);
    }
}

/// The value that was put in is the name's only one.
proof fn lemma_inserted_value(es: Seq<Entry>, name: Seq<char>, v: Seq<u8>)
    ensures
        has_name(inserted(es, name, v), name),
        values_of(inserted(es, name, v), name) == seq![v],
{
    if has_name(es, name) {
        lemma_values_of_mapped(es, name, v, name);
        lemma_has_name_mapped(es, name, v, name);
    } else {
        lemma_values_of_pushed(es, (name, seq![v]), name);
        assert(es.push((name, seq![v]))[es.len() as int].0 == name);
    }
}

/// Adding a text concerns no other name.
pub proof fn lemma_other_text(es: Seq<Entry>, name: Seq<char>, t: Option<Seq<char>>, other: Seq<char>)
    requires
        other != name,
    ensures
        has_name(with_text(es, name, t), other) == has_name(es, other),
        values_of(with_text(es, name, t), other) == values_of(es, other),
{
    if let Some(t) = t {
        if let Some(bytes) = crate::headers::text_value(t) {
            lemma_other_name(es, name, bytes, other);
        }
    }
}

/// Adding `Forwarded` headers concerns no other name.
pub proof fn lemma_other_forwarded(es: Seq<Entry>, hs: Seq<ForwardedView>, other: Seq<char>)
    requires
        other != "forwarded"@,
    ensures
        has_name(with_forwarded(es, hs), other) == has_name(es, other),
        values_of(with_forwarded(es, hs), other) == values_of(es, other),
    decreases hs.len(),
{
    if hs.len() > 0 {
        lemma_other_forwarded(es, hs.drop_last(), other);
        lemma_other_text(
            with_forwarded(es, hs.drop_last()),
            "forwarded"@,
            Some(crate::forwarded::written(hs.last())),
            other,
        );
    }
}

/// The headers that the router adds leave the others as they are.
proof fn lemma_own_headers_only(
    cli: Seq<Entry>,
    tgt: Seq<Entry>,
    settings: RouterSettings,
    version: HttpVersion,
    new: ForwardedView,
    name: Seq<char>,
)
    requires
        !is_own_header(name),
    ensures
        ({
            let es = sent_on(
                cli,
                tgt,
                config::names(settings.do_not_proxy_headers@),
                custom_of(cli),
            );
            let all = target_headers(cli, tgt, settings, version, new);
            has_name(all, name) == has_name(es, name) && values_of(all, name) == values_of(es, name)
        }),
{
    let es = sent_on(cli, tgt, config::names(settings.do_not_proxy_headers@), custom_of(cli));
    let via = Some(http_utils::via_to_target(cli, version, settings.via_name@));
    lemma_other_text(es, "via"@, via, name);
    let es1 = with_text(es, "via"@, via);
    if let Ok(existing) = http_utils::counted_forwarded(
        cli,
        settings.discard_client_forwarded_headers,
    ) {
        let hs = http_utils::forwarded_elements(existing, new);
        lemma_other_forwarded(es1, hs, name);
        let es2 = with_forwarded(es1, hs);
        let fh = hs[0];
        lemma_other_text(es2, "x-forwarded-proto"@, fh.proto, name);
        let es3 = with_text(es2, "x-forwarded-proto"@, fh.proto);
        lemma_other_text(es3, "x-forwarded-host"@, fh.host, name);
        let es4 = with_text(es3, "x-forwarded-host"@, fh.host);
        lemma_other_text(es4, "x-forwarded-for"@, fh.for_value, name);
    }
}

/// A header that is kept back, or that there is not, is not sent on.
pub proof fn lemma_sent_on(
    cli: Seq<Entry>,
    tgt: Seq<Entry>,
    do_not_proxy: Set<Seq<char>>,
    custom: Seq<Seq<char>>,
    name: Seq<char>,
)
    requires
        !has_name(tgt, name),
    ensures
        !is_sent_on(name, do_not_proxy, custom) || !has_name(cli, name) ==> !has_name(
            sent_on(cli, tgt, do_not_proxy, custom),
            name,
        ),
    decreases cli.len(),
{
    if cli.len() > 0 {
        let front = cli.drop_last();
        if !has_name(cli, name) {
            assert forall|i: int| 0 <= i < front.len() implies (#[trigger] front[i]).0 != name by {
                assert(front[i] == cli[i]);
            }
            assert(cli[cli.len() - 1].0 != name);
        }
        lemma_sent_on(front, tgt, do_not_proxy, custom, name);
        let before = sent_on(front, tgt, do_not_proxy, custom);
        if is_sent_on(cli.last().0, do_not_proxy, custom) && cli.last().0 != name {
            lemma_other_name(before, cli.last().0, cli.last().1.last(), name);
        }
    }
}

/// A header that the settings say not to proxy, or that the client's `Connection` header lists,
/// does not reach the target, unless the router writes it itself.
pub proof fn law_not_sent_on(
    cli: Seq<Entry>,
    settings: RouterSettings,
    version: HttpVersion,
    new: ForwardedView,
    name: Seq<char>,
)
    requires
        config::names(settings.do_not_proxy_headers@).contains(name) || custom_of(cli).contains(
            name,
        ),
        !is_own_header(name),
    ensures
        !has_name(target_headers(cli, Seq::empty(), settings, version, new), name),
{
    lemma_sent_on(
        cli,
        Seq::empty(),
        config::names(settings.do_not_proxy_headers@),
        custom_of(cli),
        name,
    );
    lemma_own_headers_only(cli, Seq::empty(), settings, version, new, name);
}

proof fn lemma_hop_by_hop_is_not_own(name: Seq<char>)
    requires
        config::is_hop_by_hop(name),
    ensures
        !is_own_header(name),
{
    reveal_strlit("keep-alive");
    reveal_strlit("transfer-encoding");
    reveal_strlit("te");
    reveal_strlit("connection");
    reveal_strlit("trailer");
    reveal_strlit("upgrade");
    reveal_strlit("proxy-authorization");
    reveal_strlit("proxy-authenticate");
    reveal_strlit("via");
    reveal_strlit("forwarded");
    reveal_strlit("x-forwarded-proto");
    reveal_strlit("x-forwarded-host");
    reveal_strlit("x-forwarded-for");
    assert(name[0] != 'v' && name[0] != 'f' && name[0] != 'x');
    assert("via"@[0] == 'v' && "forwarded"@[0] == 'f' && "x-forwarded-proto"@[0] == 'x'
        && "x-forwarded-host"@[0] == 'x' && "x-forwarded-for"@[0] == 'x');
}

/// With the settings that a builder starts from, no header that concerns one connection only
/// reaches the target.
pub proof fn law_hop_by_hop_is_not_sent_on(
    cli: Seq<Entry>,
    settings: RouterSettings,
    version: HttpVersion,
    new: ForwardedView,
    name: Seq<char>,
)
    requires
        forall|n: Seq<char>|
            config::names(settings.do_not_proxy_headers@).contains(n)
                <==> #[trigger] config::is_repressed(n),
        config::is_hop_by_hop(name),
    ensures
        !has_name(target_headers(cli, Seq::empty(), settings, version, new), name),
{
    assert(config::is_repressed(name));
    lemma_hop_by_hop_is_not_own(name);
    law_not_sent_on(cli, settings, version, new, name);
}

proof fn lemma_arrives(
    cli: Seq<Entry>,
    do_not_proxy: Set<Seq<char>>,
    custom: Seq<Seq<char>>,
    i: int,
)
    requires
        0 <= i < cli.len(),
        is_sent_on(cli[i].0, do_not_proxy, custom),
        forall|j: int, k: int|
            0 <= j < k < cli.len() ==> (#[trigger] cli[j]).0 != (#[trigger] cli[k]).0,
    ensures
        values_of(sent_on(cli, Seq::empty(), do_not_proxy, custom), cli[i].0) == seq![
            cli[i].1.last(),
        ],
    decreases cli.len(),
{
    let front = cli.drop_last();
    let before = sent_on(front, Seq::empty(), do_not_proxy, custom);
    if i == cli.len() - 1 {
        lemma_inserted_value(before, cli[i].0, cli[i].1.last());
    } else {
        assert forall|j: int, k: int| 0 <= j < k < front.len() implies (#[trigger] front[j]).0 != (
        #[trigger] front[k]).0 by {
            assert(front[j] == cli[j] && front[k] == cli[k]);
        }
        assert(front[i] == cli[i]);
        lemma_arrives(front, do_not_proxy, custom, i);
        assert(cli[cli.len() - 1].0 != cli[i].0);
        if is_sent_on(cli.last().0, do_not_proxy, custom) {
            lemma_other_name(before, cli.last().0, cli.last().1.last(), cli[i].0);
        }
    }
}

/// A header that neither the settings nor the client's `Connection` header keep back, and that
/// the router does not write itself, reaches the target with the last of its values.
pub proof fn law_sent_on(
    cli: Seq<Entry>,
    settings: RouterSettings,
    version: HttpVersion,
    new: ForwardedView,
    i: int,
)
    requires
        0 <= i < cli.len(),
        is_sent_on(
            cli[i].0,
            config::names(settings.do_not_proxy_headers@),
            custom_of(cli),
        ),
        !is_own_header(cli[i].0),
        forall|j: int, k: int|
            0 <= j < k < cli.len() ==> (#[trigger] cli[j]).0 != (#[trigger] cli[k]).0,
    ensures
        values_of(target_headers(cli, Seq::empty(), settings, version, new), cli[i].0) == seq![
            cli[i].1.last(),
        ],
{
    lemma_arrives(cli, config::names(settings.do_not_proxy_headers@), custom_of(cli), i);
    lemma_own_headers_only(cli, Seq::empty(), settings, version, new, cli[i].0);
}

/// The `Via` header ends with this server.
pub proof fn law_via_ends_with_this_server(this: Seq<char>, prev: Seq<Seq<char>>)
    ensures
        this.is_suffix_of(new_via_value(this, prev)),
        prev.len() == 0 ==> new_via_value(this, prev) == this,
{
    let all = prev.push(this);
    let value = new_via_value(this, prev);
    assert(all.drop_last() =~= prev);
    assert(all.last() == this);
    if prev.len() == 0 {
        assert(value =~= this);
    } else {
        assert(value =~= text::join(prev, ", "@) + ", "@ + this);
    }
}

/// Each name that the library looks up is a header's name, so that the look-up finds whatever a map
/// holds under it.
pub proof fn law_look_ups_find_all(es: Seq<Entry>)
    ensures
        looked_up(es, "forwarded"@) == values_of(es, "forwarded"@),
        looked_up(es, "x-forwarded-host"@) == values_of(es, "x-forwarded-host"@),
        looked_up(es, "x-forwarded-port"@) == values_of(es, "x-forwarded-port"@),
        looked_up(es, "x-forwarded-proto"@) == values_of(es, "x-forwarded-proto"@),
        looked_up(es, "x-forwarded-for"@) == values_of(es, "x-forwarded-for"@),
        looked_up(es, "host"@) == values_of(es, "host"@),
        looked_up(es, "connection"@) == values_of(es, "connection"@),
        looked_up(es, "via"@) == values_of(es, "via"@),
        looked_up(es, "content-length"@) == values_of(es, "content-length"@),
        looked_up(es, "transfer-encoding"@) == values_of(es, "transfer-encoding"@),
        looked_up(es, "sec-websocket-protocol"@) == values_of(es, "sec-websocket-protocol"@),
        looked_up(es, config::CRANKER_PROTOCOL_HEADER_KEY@) == values_of(es, "crankerprotocol"@),
        looked_up(es, "Route"@) == values_of(es, "route"@),
        looked_up(es, "Domain"@) == values_of(es, "domain"@),
{
    reveal_strlit("forwarded");
    reveal_strlit("x-forwarded-host");
    reveal_strlit("x-forwarded-port");
    reveal_strlit("x-forwarded-proto");
    reveal_strlit("x-forwarded-for");
    reveal_strlit("host");
    reveal_strlit("connection");
    reveal_strlit("via");
    reveal_strlit("content-length");
    reveal_strlit("transfer-encoding");
    reveal_strlit("sec-websocket-protocol");
    reveal_strlit("CrankerProtocol");
    reveal_strlit("crankerprotocol");
    reveal_strlit("Route");
    reveal_strlit("route");
    reveal_strlit("Domain");
    reveal_strlit("domain");
    assert(text::lower("forwarded"@) =~= "forwarded"@);
    assert(text::lower("x-forwarded-host"@) =~= "x-forwarded-host"@);
    assert(text::lower("x-forwarded-port"@) =~= "x-forwarded-port"@);
    assert(text::lower("x-forwarded-proto"@) =~= "x-forwarded-proto"@);
    assert(text::lower("x-forwarded-for"@) =~= "x-forwarded-for"@);
    assert(text::lower("host"@) =~= "host"@);
    assert(text::lower("connection"@) =~= "connection"@);
    assert(text::lower("via"@) =~= "via"@);
    assert(text::lower("content-length"@) =~= "content-length"@);
    assert(text::lower("transfer-encoding"@) =~= "transfer-encoding"@);
    assert(text::lower("sec-websocket-protocol"@) =~= "sec-websocket-protocol"@);
    assert(text::lower(config::CRANKER_PROTOCOL_HEADER_KEY@) =~= "crankerprotocol"@);
    assert(text::lower("Route"@) =~= "route"@);
    assert(text::lower("Domain"@) =~= "domain"@);
}

} // verus!
