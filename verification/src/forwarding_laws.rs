//! What holds of the headers that name the proxies which a request came through, whatever the
//! client's headers hold.

use crate::config::{CrankerRouterConfig, RouterSettings};
use crate::exceptions::{CrankerRouterException, ExceptionView};
use crate::forwarded::{
    escaped, quoted_if_needed, t_char, with_extensions, with_written, written, ForwardedHeader,
    ForwardedView,
};
use crate::forwarded_laws::{
    law_written_list_is_read_back, lemma_written_params, params, writable, written_list,
};
use crate::headers::{entries, text_value, value_text, values_of, Entry};
use crate::http_laws::{
    is_own_header, law_look_ups_find_all, law_not_sent_on, law_sent_on, lemma_absent,
    lemma_appended_value, lemma_other_forwarded, lemma_other_text, lemma_sent_on,
};
use crate::http_utils::{
    all_listed, all_parsed, counted_forwarded, custom_of, existing_forwarded, forwarded_elements,
    forwarded_to_target, get_custom_hop_by_hop_headers, get_existing_forwarded_headers,
    last_non_digit, listed, ok_texts, sent_on, set_target_request_headers, target_headers,
    via_to_target, with_forwarded, with_text, without_port, x_forwarded_value,
    XForwarded, XLists,
};
use crate::net::{HttpVersion, RequestUri};
use crate::registration_laws::first_under;
use crate::text_laws::{is_blank, is_tight, law_joined_is_split, law_trim};
use crate::{config, text};
use axum::http::{HeaderMap, HeaderValue};
use vstd::prelude::*;
use vstd::utf8::encode_utf8;

verus! {

/// A parameter as it is written: its name, an equals sign and its value.
pub open spec fn param_text(p: (Seq<char>, Seq<char>)) -> Seq<char> {
    p.0 + seq!['='] + quoted_if_needed(p.1)
}

/// The parameters as they are written.
pub open spec fn param_texts(ps: Seq<(Seq<char>, Seq<char>)>) -> Seq<Seq<char>> {
    ps.map_values(|p: (Seq<char>, Seq<char>)| param_text(p))
}

proof fn lemma_params_joined(ps: Seq<(Seq<char>, Seq<char>)>)
    ensures
        with_extensions(Seq::empty(), ps) == text::join(param_texts(ps), seq![';']),
        ps.len() > 0 ==> with_extensions(Seq::empty(), ps).len() > 0,
    decreases ps.len(),
{
    if ps.len() > 0 {
        let front = ps.drop_last();
        lemma_params_joined(front);
        let all = param_texts(ps);
        assert(all.drop_last() =~= param_texts(front));
        assert(all.last() == param_text(ps.last()));
        let sb = with_extensions(Seq::empty(), front);
        let one = with_written(sb, ps.last().0, Some(ps.last().1));
        if front.len() == 0 {
            assert(sb =~= Seq::empty());
            assert(all[0] == param_text(ps.last()));
            assert(one =~= param_text(ps.last()));
        } else {
            assert(one =~= sb + seq![';'] + param_text(ps.last()));
        }
    }
}

/// An element is written as its parameters with semicolons between them: this proxy, where the
/// request came from, its host and its protocol, each if it is known, then the extensions.
pub proof fn law_element_is_written(h: ForwardedView)
    ensures
        written(h) == text::join(param_texts(params(h)), seq![';']),
{
    lemma_written_params(h);
    lemma_params_joined(params(h));
}

/// A token is written as it is; another value is written in quotes, and if it holds no quote, as it
/// is between them.
pub proof fn law_value_is_written(s: Seq<char>, i: int)
    ensures
        (forall|j: int| 0 <= j < s.len() ==> t_char(#[trigger] s[j])) ==> quoted_if_needed(s) == s,
        0 <= i < s.len() && !t_char(s[i]) && !s.contains('"') ==> quoted_if_needed(s) == seq!['"']
            + s + seq!['"'],
{
    reveal_strlit("\"");
    if 0 <= i < s.len() && !t_char(s[i]) && !s.contains('"') {
        lemma_nothing_escaped(s);
        assert(quoted_if_needed(s) =~= seq!['"'] + s + seq!['"']);
    }
}

proof fn lemma_nothing_escaped(s: Seq<char>)
    requires
        !s.contains('"'),
    ensures
        escaped(s) == s,
    decreases s.len(),
{
    if s.len() > 0 {
        let front = s.drop_last();
        assert(!front.contains('"')) by {
            if front.contains('"') {
                let i = choose|i: int| 0 <= i < front.len() && front[i] == '"';
                assert(s[i] == '"');
            }
        }
        lemma_nothing_escaped(front);
        assert(s[s.len() - 1] != '"');
        assert(front.push(s.last()) =~= s);
    } else {
        assert(s =~= Seq::empty());
    }
}

/// An item of a list, with the white space around it.
pub struct Listed {
    pub front: Seq<char>,
    pub item: Seq<char>,
    pub back: Seq<char>,
}

impl Listed {
    /// The piece of the list that holds the item.
    pub open spec fn piece(self) -> Seq<char> {
        self.front + self.item + self.back
    }

    /// Whether the parts are what they are called.
    pub open spec fn wf(self) -> bool {
        is_blank(self.front) && is_tight(self.item) && is_blank(self.back) && !self.piece().contains(
            ',',
        )
    }
}

/// The list, with commas between its pieces.
pub open spec fn list_text(all: Seq<Listed>) -> Seq<char> {
    text::join(all.map_values(|l: Listed| l.piece()), seq![','])
}

/// The items of a list.
pub open spec fn items(all: Seq<Listed>) -> Seq<Seq<char>> {
    all.map_values(|l: Listed| l.item)
}

/// A list is read as its items, without the white space around them, in their order.
pub proof fn law_list_is_read(all: Seq<Listed>)
    requires
        all.len() > 0,
        forall|i: int| 0 <= i < all.len() ==> (#[trigger] all[i]).wf(),
    ensures
        listed(list_text(all)) == items(all),
{
    let pieces = all.map_values(|l: Listed| l.piece());
    assert forall|i: int| 0 <= i < pieces.len() implies !(#[trigger] pieces[i]).contains(',') by {
        assert(all[i].wf());
    }
    law_joined_is_split(pieces, ',');
    assert forall|i: int| 0 <= i < all.len() implies text::trim(#[trigger] pieces[i])
        == all[i].item by {
        assert(all[i].wf());
        law_trim(all[i].front, all[i].item, all[i].back);
    }
    assert(listed(list_text(all)) =~= items(all));
}

/// Of several lists the items of the last come behind those of the others, and of no list there are
/// none.
pub proof fn law_lists_are_joined(lists: Seq<Seq<char>>, last: Seq<char>)
    ensures
        all_listed(Seq::<Seq<char>>::empty()) == Seq::<Seq<char>>::empty(),
        all_listed(lists.push(last)) == all_listed(lists) + listed(last),
{
    assert(lists.push(last).drop_last() =~= lists);
}

/// The values that are text, each as it is, in their order.
pub proof fn law_texts_of_values(values: Seq<Seq<u8>>, last: Seq<u8>)
    ensures
        ok_texts(Seq::<Seq<u8>>::empty()) == Seq::<Seq<char>>::empty(),
        ok_texts(values.push(last)) == (match value_text(last) {
            Some(t) => ok_texts(values).push(t),
            None => ok_texts(values),
        }),
{
    assert(values.push(last).drop_last() =~= values);
}

/// What one `X-Forwarded-*` header lists.
pub proof fn law_one_list(es: Seq<Entry>, name: Seq<char>, value: Seq<u8>, all: Seq<Listed>)
    requires
        crate::headers::looked_up(es, name) == seq![value],
        value_text(value) == Some(list_text(all)),
        all.len() > 0,
        forall|i: int| 0 <= i < all.len() ==> (#[trigger] all[i]).wf(),
    ensures
        x_forwarded_value(es, name) == items(all),
{
    law_texts_of_values(Seq::empty(), value);
    assert(Seq::<Seq<u8>>::empty().push(value) =~= seq![value]);
    let lists = ok_texts(seq![value]);
    assert(lists =~= Seq::<Seq<char>>::empty().push(list_text(all)));
    law_lists_are_joined(Seq::empty(), list_text(all));
    law_list_is_read(all);
    assert(x_forwarded_value(es, name) =~= items(all));
}

/// Whether a text holds nothing but digits.
pub open spec fn all_digits(s: Seq<char>) -> bool {
    forall|i: int| 0 <= i < s.len() ==> '0' <= #[trigger] s[i] <= '9'
}

proof fn lemma_last_non_digit(front: Seq<char>, c: char, digits: Seq<char>)
    requires
        all_digits(digits),
        !('0' <= c <= '9'),
    ensures
        last_non_digit(front + seq![c] + digits) == front.len(),
    decreases digits.len(),
{
    let s = front + seq![c] + digits;
    if digits.len() == 0 {
        assert(s.last() == c);
    } else {
        assert('0' <= digits[digits.len() - 1] <= '9');
        assert(s.last() == digits.last());
        assert(s.drop_last() =~= front + seq![c] + digits.drop_last());
        lemma_last_non_digit(front, c, digits.drop_last());
    }
}

/// Taking the port off a host leaves what stands in front of the last colon, if digits alone stand
/// behind it; where something else stands in front of the digits the host is refused.
pub proof fn law_port_is_taken_off(front: Seq<char>, c: char, digits: Seq<char>)
    requires
        all_digits(digits),
        !('0' <= c <= '9'),
    ensures
        c == ':' ==> without_port(front + seq![c] + digits) == XForwarded::Read(front),
        c != ':' ==> without_port(front + seq![c] + digits) is Refused,
{
    lemma_last_non_digit(front, c, digits);
    let s = front + seq![c] + digits;
    assert(s.take(front.len() as int) =~= front);
}

/// Whether no list is longer than `n`, and one is as long.
pub open spec fn is_longest(x: XLists, n: int) -> bool {
    &&& x.hosts.len() <= n
    &&& x.ports.len() <= n
    &&& x.protos.len() <= n
    &&& x.fors.len() <= n
    &&& x.hosts.len() == n || x.ports.len() == n || x.protos.len() == n || x.fors.len() == n
}

/// What the `i`th item of a list is, if the list is as long as the longest.
pub open spec fn full(list: Seq<Seq<char>>, n: int, i: int) -> Option<Seq<char>> {
    if list.len() == n {
        Some(list[i])
    } else {
        None
    }
}

/// What is read of the `i`th proxy: of each list that is as long as the longest its `i`th item.
/// Without a list of ports the host is as listed. With one, a host that is not listed is the
/// request's own; and it is as it is where the port is the one that goes with the protocol, and
/// otherwise its port is taken off.
pub proof fn law_proxy_is_read(x: XLists, n: int, i: int, name: Seq<char>, digits: Seq<char>)
    requires
        is_longest(x, n),
        0 <= i < n,
        all_digits(digits),
    ensures
        x.max() == n,
        x.ports.len() < n ==> x.element(i) == XForwarded::Read(
            ForwardedView {
                by: None,
                for_value: full(x.fors, n, i),
                host: full(x.hosts, n, i),
                proto: full(x.protos, n, i),
                extensions: Seq::empty(),
            },
        ),
        ({
            let given = if x.hosts.len() == n {
                Some(x.hosts[i])
            } else {
                x.cur_host
            };
            let usual = x.protos.len() == n && ((text::lower(x.protos[i]) == "http"@ && x.ports[i]
                == "80"@) || (text::lower(x.protos[i]) == "https"@ && x.ports[i] == "443"@));
            x.ports.len() == n && (given is None || usual || given == Some(
                name + seq![':'] + digits,
            )) ==> x.element(i) == XForwarded::Read(
                ForwardedView {
                    by: None,
                    for_value: full(x.fors, n, i),
                    host: if given is None || usual {
                        given
                    } else {
                        Some(name)
                    },
                    proto: full(x.protos, n, i),
                    extensions: Seq::empty(),
                },
            )
        }),
{
    law_port_is_taken_off(name, ':', digits);
}

/// If every proxy can be read, the proxies are read in their order; one that cannot keeps all from
/// being read.
pub proof fn law_proxies_are_read(x: XLists, n: int)
    requires
        n >= 0,
    ensures
        (forall|i: int| 0 <= i < n ==> (#[trigger] x.element(i)) is Read) <==> x.elements(
            n,
        ) is Read,
        x.elements(n) matches XForwarded::Read(hs) ==> hs.len() == n && forall|i: int|
            0 <= i < n ==> #[trigger] x.element(i) == XForwarded::Read(hs[i]),
    decreases n,
{
    if n > 0 {
        law_proxies_are_read(x, n - 1);
        if x.elements(n - 1) is Read {
            let hs = x.elements(n - 1)->Read_0;
            if x.element(n - 1) is Read {
                let all = hs.push(x.element(n - 1)->Read_0);
                assert forall|i: int| 0 <= i < n implies #[trigger] x.element(i)
                    == XForwarded::Read(all[i]) by {
                    if i < n - 1 {
                        assert(x.element(i) == XForwarded::Read(hs[i]));
                    }
                }
            }
        }
    }
}

/// Where the client names the proxies in `X-Forwarded-*` headers without ports, the proxies are as
/// many as the longest list has items, and each has the host, the client and the protocol that the
/// lists as long as that give, unchanged.
pub proof fn law_x_forwarded_is_kept(es: Seq<Entry>, n: int, i: int)
    requires
        values_of(es, "forwarded"@).len() == 0,
        x_forwarded_value(es, "x-forwarded-port"@).len() < n,
        is_longest(XLists::of(es), n),
        0 <= i < n,
    ensures
        existing_forwarded(es) matches Ok(hs) && hs.len() == n && hs[i] == (ForwardedView {
            by: None,
            for_value: full(x_forwarded_value(es, "x-forwarded-for"@), n, i),
            host: full(x_forwarded_value(es, "x-forwarded-host"@), n, i),
            proto: full(x_forwarded_value(es, "x-forwarded-proto"@), n, i),
            extensions: Seq::empty(),
        }),
{
    let x = XLists::of(es);
    law_look_ups_find_all(es);
    assert(values_of(es, "forwarded"@) =~= Seq::empty());
    law_texts_of_values(Seq::empty(), Seq::empty());
    assert forall|j: int| 0 <= j < n implies (#[trigger] x.element(j)) is Read by {
        law_proxy_is_read(x, n, j, Seq::empty(), Seq::empty());
    }
    law_proxies_are_read(x, n);
    law_proxy_is_read(x, n, i, Seq::empty(), Seq::empty());
}

/// Where the client names the proxies in a `Forwarded` header, they are those, whatever its
/// `X-Forwarded-*` headers say.
pub proof fn law_forwarded_is_kept(es: Seq<Entry>, value: Seq<u8>, hs: Seq<ForwardedView>)
    requires
        values_of(es, "forwarded"@) == seq![value],
        value_text(value) == Some(written_list(hs)),
        hs.len() > 0,
        forall|i: int| 0 <= i < hs.len() ==> writable(#[trigger] hs[i]),
    ensures
        existing_forwarded(es) == Ok::<_, ExceptionView>(hs),
{
    law_look_ups_find_all(es);
    law_texts_of_values(Seq::empty(), value);
    assert(Seq::<Seq<u8>>::empty().push(value) =~= seq![value]);
    law_written_list_is_read_back(hs);
    let texts = ok_texts(seq![value]);
    assert(texts =~= seq![written_list(hs)]);
    assert(texts.drop_last() =~= Seq::empty());
    assert(all_parsed(texts.drop_last()) == Ok::<_, ExceptionView>(Seq::<ForwardedView>::empty()));
    assert(Seq::<ForwardedView>::empty() + hs =~= hs);
}

/// The proxies of several `Forwarded` headers come one behind the other.
pub proof fn law_forwarded_headers_are_joined(values: Seq<Seq<char>>, last: Seq<char>)
    ensures
        ({
            let all = all_parsed(values.push(last));
            match (all_parsed(values), crate::forwarded::parsed(last)) {
                (Ok(before), Ok(more)) => all == Ok::<_, ExceptionView>(before + more),
                (Err(e), _) => all == Err::<Seq<ForwardedView>, ExceptionView>(e),
                (_, Err(e)) => all == Err::<Seq<ForwardedView>, ExceptionView>(e),
            }
        }),
{
    assert(values.push(last).drop_last() =~= values);
}

/// What this router says of itself: its own address, the client's, the host that the client asked
/// for, and the scheme.
pub proof fn law_own_element(
    es: Seq<Entry>,
    server_ip: Seq<char>,
    remote_ip: Seq<char>,
    scheme: Option<Seq<char>>,
)
    ensures
        ({
            let h = forwarded_to_target(es, server_ip, remote_ip, scheme);
            &&& h.by == Some(server_ip)
            &&& h.for_value == Some(remote_ip)
            &&& h.proto == scheme
            &&& h.host == (if values_of(es, "host"@).len() > 0 {
                value_text(values_of(es, "host"@)[0])
            } else {
                None
            })
            &&& h.extensions.len() == 0
        }),
{
    law_look_ups_find_all(es);
}

proof fn lemma_names_differ()
    ensures
        "forwarded"@ != "via"@,
        "forwarded"@ != "x-forwarded-proto"@,
        "forwarded"@ != "x-forwarded-host"@,
        "forwarded"@ != "x-forwarded-for"@,
        "via"@ != "x-forwarded-proto"@,
        "via"@ != "x-forwarded-host"@,
        "via"@ != "x-forwarded-for"@,
        "x-forwarded-proto"@ != "x-forwarded-host"@,
        "x-forwarded-proto"@ != "x-forwarded-for"@,
        "x-forwarded-host"@ != "x-forwarded-for"@,
{
    reveal_strlit("via");
    reveal_strlit("forwarded");
    reveal_strlit("x-forwarded-proto");
    reveal_strlit("x-forwarded-host");
    reveal_strlit("x-forwarded-for");
    assert("via"@.len() == 3 && "forwarded"@.len() == 9 && "x-forwarded-proto"@.len() == 17
        && "x-forwarded-host"@.len() == 16 && "x-forwarded-for"@.len() == 15);
}

/// The elements as values of headers.
pub open spec fn element_values(hs: Seq<ForwardedView>) -> Seq<Seq<u8>> {
    hs.map_values(|h: ForwardedView| encode_utf8(written(h)))
}

proof fn lemma_with_forwarded(es: Seq<Entry>, hs: Seq<ForwardedView>)
    requires
        forall|i: int| 0 <= i < hs.len() ==> text_value(written(#[trigger] hs[i])) is Some,
    ensures
        values_of(with_forwarded(es, hs), "forwarded"@) == values_of(es, "forwarded"@)
            + element_values(hs),
    decreases hs.len(),
{
    if hs.len() == 0 {
        assert(values_of(es, "forwarded"@) + element_values(hs) =~= values_of(es, "forwarded"@));
    } else {
        let front = hs.drop_last();
        assert forall|i: int| 0 <= i < front.len() implies text_value(
            written(#[trigger] front[i]),
        ) is Some by {
            assert(front[i] == hs[i]);
        }
        lemma_with_forwarded(es, front);
        let h = hs[hs.len() - 1];
        assert(text_value(written(h)) is Some);
        lemma_appended_value(with_forwarded(es, front), "forwarded"@, encode_utf8(written(h)));
        assert(element_values(hs) =~= element_values(front).push(encode_utf8(written(h))));
        assert(values_of(with_forwarded(es, hs), "forwarded"@) =~= values_of(es, "forwarded"@)
            + element_values(hs));
    }
}

/// The target gets a `Forwarded` header for each of the proxies that count, in their order and as
/// they were named, and one for this router behind them. Those that the client names count unless
/// they are to be dropped.
pub proof fn law_proxies_reach_the_target(
    cli: Seq<Entry>,
    settings: RouterSettings,
    version: HttpVersion,
    existing: Seq<ForwardedView>,
    new: ForwardedView,
)
    requires
        config::names(settings.do_not_proxy_headers@).contains("forwarded"@),
        settings.discard_client_forwarded_headers ==> existing.len() == 0,
        !settings.discard_client_forwarded_headers ==> existing_forwarded(cli) == Ok::<
            _,
            ExceptionView,
        >(existing),
        forall|i: int|
            0 <= i < existing.len() ==> text_value(written(#[trigger] existing[i])) is Some,
        text_value(written(new)) is Some,
    ensures
        values_of(target_headers(cli, Seq::empty(), settings, version, new), "forwarded"@)
            == element_values(existing).push(encode_utf8(written(new))),
{
    lemma_names_differ();
    let names = config::names(settings.do_not_proxy_headers@);
    lemma_sent_on(cli, Seq::empty(), names, custom_of(cli), "forwarded"@);
    let es = sent_on(cli, Seq::empty(), names, custom_of(cli));
    lemma_absent(es, "forwarded"@);
    let via = Some(via_to_target(cli, version, settings.via_name@));
    lemma_other_text(es, "via"@, via, "forwarded"@);
    let es1 = with_text(es, "via"@, via);
    assert(existing =~= counted_forwarded(
        cli,
        settings.discard_client_forwarded_headers,
    )->Ok_0);
    let all = forwarded_elements(existing, new);
    assert forall|i: int| 0 <= i < all.len() implies text_value(written(#[trigger] all[i])) is Some by {
        if i < existing.len() {
            assert(all[i] == existing[i]);
        }
    }
    lemma_with_forwarded(es1, all);
    let es2 = with_forwarded(es1, all);
    let es3 = with_text(es2, "x-forwarded-proto"@, all[0].proto);
    let es4 = with_text(es3, "x-forwarded-host"@, all[0].host);
    lemma_other_text(es2, "x-forwarded-proto"@, all[0].proto, "forwarded"@);
    lemma_other_text(es3, "x-forwarded-host"@, all[0].host, "forwarded"@);
    lemma_other_text(es4, "x-forwarded-for"@, all[0].for_value, "forwarded"@);
    assert(element_values(all) =~= element_values(existing).push(encode_utf8(written(new))));
    assert(values_of(es1, "forwarded"@) + element_values(all) =~= element_values(all));
}

/// The value of a header that is added for a text, if there is a text that can be one.
pub open spec fn one_value(t: Option<Seq<char>>) -> Seq<Seq<u8>> {
    match t {
        Some(t) => match text_value(t) {
            Some(_) => seq![encode_utf8(t)],
            None => Seq::empty(),
        },
        None => Seq::empty(),
    }
}

proof fn lemma_text_added(es: Seq<Entry>, name: Seq<char>, t: Option<Seq<char>>)
    requires
        values_of(es, name).len() == 0,
    ensures
        values_of(with_text(es, name, t), name) == one_value(t),
{
    assert(values_of(es, name) =~= Seq::empty());
    if let Some(t) = t {
        if let Some(bytes) = text_value(t) {
            lemma_appended_value(es, name, bytes);
            assert(Seq::<Seq<u8>>::empty().push(bytes) =~= seq![bytes]);
        }
    }
}

/// The target gets the non-standard headers only if they are to be sent, and then they say what the
/// first of the proxies that count is said to be.
pub proof fn law_legacy_headers(
    cli: Seq<Entry>,
    settings: RouterSettings,
    version: HttpVersion,
    existing: Seq<ForwardedView>,
    new: ForwardedView,
)
    requires
        config::names(settings.do_not_proxy_headers@).contains("x-forwarded-proto"@),
        config::names(settings.do_not_proxy_headers@).contains("x-forwarded-host"@),
        config::names(settings.do_not_proxy_headers@).contains("x-forwarded-for"@),
        settings.discard_client_forwarded_headers ==> existing.len() == 0,
        !settings.discard_client_forwarded_headers ==> existing_forwarded(cli) == Ok::<
            _,
            ExceptionView,
        >(existing),
    ensures
        ({
            let es = target_headers(cli, Seq::empty(), settings, version, new);
            let first = if existing.len() > 0 {
                existing[0]
            } else {
                new
            };
            if settings.send_legacy_forwarded_headers {
                &&& values_of(es, "x-forwarded-proto"@) == one_value(first.proto)
                &&& values_of(es, "x-forwarded-host"@) == one_value(first.host)
                &&& values_of(es, "x-forwarded-for"@) == one_value(first.for_value)
            } else {
                &&& values_of(es, "x-forwarded-proto"@).len() == 0
                &&& values_of(es, "x-forwarded-host"@).len() == 0
                &&& values_of(es, "x-forwarded-for"@).len() == 0
            }
        }),
{
    lemma_names_differ();
    let names = config::names(settings.do_not_proxy_headers@);
    let es = sent_on(cli, Seq::empty(), names, custom_of(cli));
    let via = Some(via_to_target(cli, version, settings.via_name@));
    let es1 = with_text(es, "via"@, via);
    assert(existing =~= counted_forwarded(
        cli,
        settings.discard_client_forwarded_headers,
    )->Ok_0);
    let all = forwarded_elements(existing, new);
    let es2 = with_forwarded(es1, all);
    let es3 = with_text(es2, "x-forwarded-proto"@, all[0].proto);
    let es4 = with_text(es3, "x-forwarded-host"@, all[0].host);
    let p = "x-forwarded-proto"@;
    let h = "x-forwarded-host"@;
    let f = "x-forwarded-for"@;
    lemma_not_there(cli, names, via, all, p);
    lemma_not_there(cli, names, via, all, h);
    lemma_not_there(cli, names, via, all, f);
    lemma_text_added(es2, p, all[0].proto);
    lemma_other_text(es2, p, all[0].proto, h);
    lemma_other_text(es2, p, all[0].proto, f);
    lemma_text_added(es3, h, all[0].host);
    lemma_other_text(es3, h, all[0].host, p);
    lemma_other_text(es3, h, all[0].host, f);
    lemma_text_added(es4, f, all[0].for_value);
    lemma_other_text(es4, f, all[0].for_value, p);
    lemma_other_text(es4, f, all[0].for_value, h);
}

proof fn lemma_not_there(
    cli: Seq<Entry>,
    names: Set<Seq<char>>,
    via: Option<Seq<char>>,
    all: Seq<ForwardedView>,
    name: Seq<char>,
)
    requires
        names.contains(name),
        name != "via"@,
        name != "forwarded"@,
    ensures
        ({
            let es = sent_on(cli, Seq::empty(), names, custom_of(cli));
            values_of(with_forwarded(with_text(es, "via"@, via), all), name).len() == 0
        }),
{
    lemma_sent_on(cli, Seq::empty(), names, custom_of(cli), name);
    let es = sent_on(cli, Seq::empty(), names, custom_of(cli));
    lemma_absent(es, name);
    lemma_other_text(es, "via"@, via, name);
    lemma_other_forwarded(with_text(es, "via"@, via), all, name);
}

/// The target gets one `Via` header: what the client's say, in their order, and behind it, with a
/// comma and a blank in between, the version of HTTP and the name of this router.
pub proof fn law_via_reaches_the_target(
    cli: Seq<Entry>,
    settings: RouterSettings,
    version: HttpVersion,
    new: ForwardedView,
)
    requires
        config::names(settings.do_not_proxy_headers@).contains("via"@),
    ensures
        ({
            let own = version.name() + " "@ + settings.via_name@;
            let all = ok_texts(values_of(cli, "via"@)).push(own);
            values_of(target_headers(cli, Seq::empty(), settings, version, new), "via"@)
                == one_value(Some(text::join(all, ", "@)))
        }),
{
    lemma_names_differ();
    law_look_ups_find_all(cli);
    let names = config::names(settings.do_not_proxy_headers@);
    lemma_sent_on(cli, Seq::empty(), names, custom_of(cli), "via"@);
    let es = sent_on(cli, Seq::empty(), names, custom_of(cli));
    lemma_absent(es, "via"@);
    let via = Some(via_to_target(cli, version, settings.via_name@));
    lemma_text_added(es, "via"@, via);
    let es1 = with_text(es, "via"@, via);
    if let Ok(existing) = counted_forwarded(cli, settings.discard_client_forwarded_headers) {
        let all = forwarded_elements(existing, new);
        lemma_other_forwarded(es1, all, "via"@);
        let es2 = with_forwarded(es1, all);
        let es3 = with_text(es2, "x-forwarded-proto"@, all[0].proto);
        let es4 = with_text(es3, "x-forwarded-host"@, all[0].host);
        lemma_other_text(es2, "x-forwarded-proto"@, all[0].proto, "via"@);
        lemma_other_text(es3, "x-forwarded-host"@, all[0].host, "via"@);
        lemma_other_text(es4, "x-forwarded-for"@, all[0].for_value, "via"@);
    }
}

/// What the client's `Connection` header lists is kept back: the items of the list are the names.
pub proof fn law_connection_list(cli: Seq<Entry>, all: Seq<Listed>)
    requires
        values_of(cli, "connection"@).len() > 0,
        value_text(values_of(cli, "connection"@)[0]) == Some(list_text(all)),
        list_text(all).len() > 0,
        all.len() > 0,
        forall|i: int| 0 <= i < all.len() ==> (#[trigger] all[i]).wf(),
    ensures
        custom_of(cli) == items(all),
{
    law_look_ups_find_all(cli);
    law_list_is_read(all);
}

/// [`get_existing_forwarded_headers`] reads the proxies from `X-Forwarded-*` headers without ports:
/// as many as the longest list has items, each with the host, the client and the protocol that the
/// lists as long as that give, unchanged.
pub proof fn law_proxies_are_found(
    headers: &HeaderMap,
    n: int,
    i: int,
    r: Result<Vec<ForwardedHeader>, CrankerRouterException>,
)
    requires
        call_ensures(get_existing_forwarded_headers, (headers,), r),
        values_of(entries(*headers), "forwarded"@).len() == 0,
        x_forwarded_value(entries(*headers), "x-forwarded-port"@).len() < n,
        is_longest(XLists::of(entries(*headers)), n),
        0 <= i < n,
    ensures
        ({
            let es = entries(*headers);
            &&& r matches Ok(v) && v@.len() == n && v@[i]@.for_value == full(
                x_forwarded_value(es, "x-forwarded-for"@),
                n,
                i,
            ) && v@[i]@.host == full(x_forwarded_value(es, "x-forwarded-host"@), n, i)
                && v@[i]@.proto == full(x_forwarded_value(es, "x-forwarded-proto"@), n, i)
                && v@[i]@.by is None
        }),
{
    law_x_forwarded_is_kept(entries(*headers), n, i);
    if let Ok(v) = r {
        assert(crate::forwarded::forwarded_views(v@)[i] == v@[i]@);
    }
}

/// What a single host, client and protocol in `X-Forwarded-*` headers say is what the one proxy
/// that [`get_existing_forwarded_headers`] finds says.
pub proof fn law_one_proxy_is_found(
    headers: &HeaderMap,
    host: Listed,
    client: Listed,
    proto: Listed,
    host_value: Seq<u8>,
    client_value: Seq<u8>,
    proto_value: Seq<u8>,
    r: Result<Vec<ForwardedHeader>, CrankerRouterException>,
)
    requires
        call_ensures(get_existing_forwarded_headers, (headers,), r),
        values_of(entries(*headers), "forwarded"@).len() == 0,
        values_of(entries(*headers), "x-forwarded-port"@).len() == 0,
        values_of(entries(*headers), "x-forwarded-host"@) == seq![host_value],
        values_of(entries(*headers), "x-forwarded-for"@) == seq![client_value],
        values_of(entries(*headers), "x-forwarded-proto"@) == seq![proto_value],
        host.wf(),
        client.wf(),
        proto.wf(),
        value_text(host_value) == Some(host.piece()),
        value_text(client_value) == Some(client.piece()),
        value_text(proto_value) == Some(proto.piece()),
    ensures
        r matches Ok(v) && v@.len() == 1 && v@[0]@.host == Some(host.item) && v@[0]@.for_value
            == Some(client.item) && v@[0]@.proto == Some(proto.item),
{
    let es = entries(*headers);
    law_look_ups_find_all(es);
    lemma_single(host);
    lemma_single(client);
    lemma_single(proto);
    law_one_list(es, "x-forwarded-host"@, host_value, seq![host]);
    law_one_list(es, "x-forwarded-for"@, client_value, seq![client]);
    law_one_list(es, "x-forwarded-proto"@, proto_value, seq![proto]);
    assert(values_of(es, "x-forwarded-port"@) =~= Seq::empty());
    law_texts_of_values(Seq::empty(), Seq::empty());
    law_lists_are_joined(Seq::empty(), Seq::empty());
    assert(items(seq![host])[0] == host.item);
    assert(items(seq![client])[0] == client.item);
    assert(items(seq![proto])[0] == proto.item);
    law_proxies_are_found(headers, 1, 0, r);
}

proof fn lemma_single(l: Listed)
    ensures
        list_text(seq![l]) == l.piece(),
{
    let pieces = seq![l].map_values(|l: Listed| l.piece());
    assert(pieces.len() == 1 && pieces[0] == l.piece());
}

/// [`set_target_request_headers`] writes, into an empty map, a `Forwarded` header for each of the
/// proxies that count and one for this router behind them, one `Via` header that ends with this
/// router, and the headers of the client's that are not kept back, each with its last value.
pub proof fn law_headers_are_written(
    cli: &HeaderMap,
    before: HeaderMap,
    after: HeaderMap,
    settings: &RouterSettings,
    version: HttpVersion,
    server_ip: &str,
    remote_ip: &str,
    uri: &RequestUri,
    existing: Seq<ForwardedView>,
    i: int,
    r: bool,
)
    requires
        exists|m: &mut HeaderMap|
            *m == before && *final(m) == after && #[trigger] call_ensures(
                set_target_request_headers,
                (cli, m, settings, version, server_ip, remote_ip, uri),
                r,
            ),
        entries(before) == Seq::<Entry>::empty(),
        config::names(settings.do_not_proxy_headers@).contains("forwarded"@),
        config::names(settings.do_not_proxy_headers@).contains("via"@),
        settings.discard_client_forwarded_headers ==> existing.len() == 0,
        !settings.discard_client_forwarded_headers ==> existing_forwarded(entries(*cli)) == Ok::<
            _,
            ExceptionView,
        >(existing),
        forall|j: int|
            0 <= j < existing.len() ==> text_value(written(#[trigger] existing[j])) is Some,
    ensures
        ({
            let es = entries(*cli);
            let host = if values_of(es, "host"@).len() > 0 {
                value_text(values_of(es, "host"@)[0])
            } else {
                None
            };
            let own = ForwardedView {
                by: Some(server_ip@),
                for_value: Some(remote_ip@),
                host,
                proto: crate::forwarded::opt_text(uri.scheme),
                extensions: Seq::empty(),
            };
            let via = ok_texts(values_of(es, "via"@)).push(
                version.name() + " "@ + settings.via_name@,
            );
            let kept_back = |name: Seq<char>|
                config::names(settings.do_not_proxy_headers@).contains(name) || custom_of(
                    es,
                ).contains(name);
            &&& text_value(written(own)) is Some ==> values_of(entries(after), "forwarded"@)
                == element_values(existing).push(encode_utf8(written(own)))
            &&& values_of(entries(after), "via"@) == one_value(Some(text::join(via, ", "@)))
            &&& 0 <= i < es.len() && !is_own_header(es[i].0) && kept_back(es[i].0)
                ==> !crate::headers::has_name(entries(after), es[i].0)
            &&& 0 <= i < es.len() && !is_own_header(es[i].0) && !kept_back(es[i].0) && (forall|
                j: int,
                k: int,
            |
                0 <= j < k < es.len() ==> (#[trigger] es[j]).0 != (#[trigger] es[k]).0)
                ==> values_of(entries(after), es[i].0) == seq![es[i].1.last()]
        }),
{
    let es = entries(*cli);
    let own = forwarded_to_target(
        es,
        server_ip@,
        remote_ip@,
        crate::forwarded::opt_text(uri.scheme),
    );
    law_own_element(es, server_ip@, remote_ip@, crate::forwarded::opt_text(uri.scheme));
    assert(own.extensions =~= Seq::empty());
    if text_value(written(own)) is Some {
        law_proxies_reach_the_target(es, *settings, version, existing, own);
    }
    law_via_reaches_the_target(es, *settings, version, own);
    if 0 <= i < es.len() && !is_own_header(es[i].0) {
        let name = es[i].0;
        let kept_back = config::names(settings.do_not_proxy_headers@).contains(name) || custom_of(
            es,
        ).contains(name);
        if kept_back {
            law_not_sent_on(es, *settings, version, own, name);
        } else if forall|j: int, k: int|
            0 <= j < k < es.len() ==> (#[trigger] es[j]).0 != (#[trigger] es[k]).0 {
            law_sent_on(es, *settings, version, own, i);
        }
    }
}

/// With the settings that a builder starts from, no header of one connection, and none of those
/// that name proxies, is sent on as the client gave it.
pub proof fn law_default_settings_keep_back(config: CrankerRouterConfig, name: Seq<char>)
    requires
        call_ensures(CrankerRouterConfig::new, (), config),
    ensures
        config::names(config.settings.do_not_proxy_headers@).contains(name) <==> seq![
            "keep-alive"@,
            "transfer-encoding"@,
            "te"@,
            "connection"@,
            "trailer"@,
            "upgrade"@,
            "proxy-authorization"@,
            "proxy-authenticate"@,
            "expect"@,
            "forwarded"@,
            "x-forwarded-by"@,
            "x-forwarded-for"@,
            "x-forwarded-host"@,
            "x-forwarded-proto"@,
            "x-forwarded-port"@,
            "x-forwarded-server"@,
            "via"@,
        ].contains(name),
{
    let all = seq![
        "keep-alive"@,
        "transfer-encoding"@,
        "te"@,
        "connection"@,
        "trailer"@,
        "upgrade"@,
        "proxy-authorization"@,
        "proxy-authenticate"@,
        "expect"@,
        "forwarded"@,
        "x-forwarded-by"@,
        "x-forwarded-for"@,
        "x-forwarded-host"@,
        "x-forwarded-proto"@,
        "x-forwarded-port"@,
        "x-forwarded-server"@,
        "via"@,
    ];
    assert(all[0] == "keep-alive"@ && all[1] == "transfer-encoding"@ && all[2] == "te"@ && all[3]
        == "connection"@ && all[4] == "trailer"@ && all[5] == "upgrade"@ && all[6]
        == "proxy-authorization"@ && all[7] == "proxy-authenticate"@ && all[8] == "expect"@
        && all[9] == "forwarded"@ && all[10] == "x-forwarded-by"@ && all[11] == "x-forwarded-for"@
        && all[12] == "x-forwarded-host"@ && all[13] == "x-forwarded-proto"@ && all[14]
        == "x-forwarded-port"@ && all[15] == "x-forwarded-server"@ && all[16] == "via"@);
    assert(config::is_repressed(name) <==> all.contains(name));
}

/// What [`ForwardedHeader::to_string`] writes of headers [`ForwardedHeader::from_string`] reads as
/// those headers.
pub proof fn law_forwarded_text_is_read_back(
    h: &ForwardedHeader,
    shown: String,
    s: &str,
    r: Result<Vec<ForwardedHeader>, CrankerRouterException>,
)
    requires
        call_ensures(ForwardedHeader::to_string, (h,), shown),
        writable(h@),
        s@ == shown@,
        call_ensures(ForwardedHeader::from_string, (s,), r),
    ensures
        r matches Ok(v) && v@.len() == 1 && v@[0]@ == h@,
        shown@ == text::join(param_texts(params(h@)), seq![';']),
{
    crate::forwarded_laws::law_written_is_read_back(h@);
    law_element_is_written(h@);
    if let Ok(v) = r {
        assert(crate::forwarded::forwarded_views(v@).len() == 1);
        assert(crate::forwarded::forwarded_views(v@)[0] == v@[0]@);
    }
}

/// [`get_custom_hop_by_hop_headers`] gives the items that the `Connection` header lists.
pub proof fn law_listed_headers(
    value: &HeaderValue,
    all: Seq<Listed>,
    r: Vec<String>,
)
    requires
        call_ensures(get_custom_hop_by_hop_headers, (Some(value),), r),
        value_text(crate::headers::value_bytes(*value)) == Some(list_text(all)),
        list_text(all).len() > 0,
        all.len() > 0,
        forall|i: int| 0 <= i < all.len() ==> (#[trigger] all[i]).wf(),
    ensures
        text::texts(r@) == items(all),
{
    law_list_is_read(all);
}


/// Where the client lists ports but no hosts, each proxy has the host that the request asks for: as
/// it is where the port is the one that goes with the protocol, and without its port otherwise.
pub proof fn law_request_host_is_used(
    es: Seq<Entry>,
    n: int,
    i: int,
    name: Seq<char>,
    digits: Seq<char>,
)
    requires
        is_longest(XLists::of(es), n),
        x_forwarded_value(es, "x-forwarded-port"@).len() == n,
        x_forwarded_value(es, "x-forwarded-host"@).len() < n,
        0 <= i < n,
        all_digits(digits),
        first_under(es, "host"@) == Some(name + seq![':'] + digits),
    ensures
        ({
            let protos = x_forwarded_value(es, "x-forwarded-proto"@);
            let port = x_forwarded_value(es, "x-forwarded-port"@)[i];
            let usual = protos.len() == n && ((text::lower(protos[i]) == "http"@ && port == "80"@)
                || (text::lower(protos[i]) == "https"@ && port == "443"@));
            XLists::of(es).element(i) matches XForwarded::Read(h) && h.host == (if usual {
                first_under(es, "host"@)
            } else {
                Some(name)
            }) && h.for_value == full(x_forwarded_value(es, "x-forwarded-for"@), n, i) && h.proto
                == full(protos, n, i)
        }),
{
    law_look_ups_find_all(es);
    law_proxy_is_read(XLists::of(es), n, i, name, digits);
}

/// [`set_target_request_headers`] says that there is a body if and only if a header that is sent on
/// gives its length or says how it is transferred.
pub proof fn law_body_is_announced(
    cli: &HeaderMap,
    before: HeaderMap,
    after: HeaderMap,
    settings: &RouterSettings,
    version: HttpVersion,
    server_ip: &str,
    remote_ip: &str,
    uri: &RequestUri,
    r: bool,
)
    requires
        exists|m: &mut HeaderMap|
            *m == before && *final(m) == after && #[trigger] call_ensures(
                set_target_request_headers,
                (cli, m, settings, version, server_ip, remote_ip, uri),
                r,
            ),
    ensures
        r <==> exists|i: int|
            0 <= i < entries(*cli).len() && ((#[trigger] entries(*cli)[i]).0 == "content-length"@
                || entries(*cli)[i].0 == "transfer-encoding"@) && !config::names(
                settings.do_not_proxy_headers@,
            ).contains(entries(*cli)[i].0) && !custom_of(entries(*cli)).contains(
                entries(*cli)[i].0,
            ),
{
}

} // verus!
