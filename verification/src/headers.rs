//! The header map of `axum::http`, which the requests and responses carry their headers in.

use crate::text;
use axum::http::{HeaderMap, HeaderName, HeaderValue};
use vstd::prelude::*;
use vstd::utf8::encode_utf8;

verus! {

#[verifier::external_type_specification]
#[verifier::external_body]
#[verifier::reject_recursive_types(T)]
pub struct ExHeaderMap<T>(HeaderMap<T>);

#[verifier::external_type_specification]
#[verifier::external_body]
pub struct ExHeaderName(HeaderName);

#[verifier::external_type_specification]
#[verifier::external_body]
pub struct ExHeaderValue(HeaderValue);

/// One name of a header map, with its values in order.
pub type Entry = (Seq<char>, Seq<Seq<u8>>);

/// The names that a header map holds, each with its values, in the order of its iteration.
pub uninterp spec fn entries(m: HeaderMap<HeaderValue>) -> Seq<(Seq<char>, Seq<Seq<u8>>)>;

/// The text of a header name.
pub uninterp spec fn name_text(n: HeaderName) -> Seq<char>;

/// The bytes of a header value.
pub uninterp spec fn value_bytes(v: HeaderValue) -> Seq<u8>;

/// Whether some entry has this name.
pub open spec fn has_name(es: Seq<Entry>, name: Seq<char>) -> bool {
    exists|i: int| 0 <= i < es.len() && (#[trigger] es[i]).0 == name
}

/// The values under a name.
pub open spec fn values_of(es: Seq<Entry>, name: Seq<char>) -> Seq<Seq<u8>>
    decreases es.len(),
{
    if es.len() == 0 {
        Seq::empty()
    } else if es[0].0 == name {
        es[0].1
    } else {
        values_of(es.drop_first(), name)
    }
}

/// An entry of `name` with `v` as its only value; another entry as it is.
pub open spec fn with_only_value(name: Seq<char>, v: Seq<u8>) -> spec_fn(Entry) -> Entry {
    |e: Entry|
        if e.0 == name {
            (name, seq![v])
        } else {
            e
        }
}

/// An entry of `name` with `v` behind its values; another entry as it is.
pub open spec fn with_more_value(name: Seq<char>, v: Seq<u8>) -> spec_fn(Entry) -> Entry {
    |e: Entry|
        if e.0 == name {
            (name, e.1.push(v))
        } else {
            e
        }
}

/// The entries after `v` has become the only value of `name`. A new name goes to the end.
pub open spec fn inserted(es: Seq<Entry>, name: Seq<char>, v: Seq<u8>) -> Seq<Entry> {
    if has_name(es, name) {
        es.map_values(with_only_value(name, v))
    } else {
        es.push((name, seq![v]))
    }
}

/// The entries after `v` has become the last value of `name`. A new name goes to the end.
pub open spec fn appended(es: Seq<Entry>, name: Seq<char>, v: Seq<u8>) -> Seq<Entry> {
    if has_name(es, name) {
        es.map_values(with_more_value(name, v))
    } else {
        es.push((name, seq![v]))
    }
}

/// Whether `c` may stand in a header's name in small letters.
pub open spec fn name_char(c: char) -> bool {
    crate::forwarded::t_char(c) && !('A' <= c <= 'Z')
}

/// Whether `s` is the name of a header in small letters.
pub open spec fn is_name(s: Seq<char>) -> bool {
    &&& 1 <= s.len() <= 65535
    &&& forall|i: int| 0 <= i < s.len() ==> name_char(#[trigger] s[i])
}

/// The values that a look-up by a text finds, where the text's case does not matter. A map may
/// hold names that no look-up by a text finds: one that came by HTTP/2 may hold a double quote.
pub open spec fn looked_up(es: Seq<Entry>, name: Seq<char>) -> Seq<Seq<u8>> {
    if is_name(text::lower(name)) {
        values_of(es, text::lower(name))
    } else {
        Seq::empty()
    }
}

/// Whether a byte is a visible ASCII character, a space or a tab.
pub open spec fn visible_byte(b: u8) -> bool {
    (b >= 32 && b < 127) || b == 9
}

/// Whether a byte may stand in a header's value.
pub open spec fn value_byte(b: u8) -> bool {
    (b >= 32 && b != 127) || b == 9
}

/// The text of a header's value, if it is visible ASCII.
pub open spec fn value_text(bytes: Seq<u8>) -> Option<Seq<char>> {
    if forall|i: int| 0 <= i < bytes.len() ==> visible_byte(#[trigger] bytes[i]) {
        Some(bytes.map_values(|b: u8| b as char))
    } else {
        None
    }
}

/// The bytes of a header's value that holds this text, if it can be one.
pub open spec fn text_value(s: Seq<char>) -> Option<Seq<u8>> {
    let bytes = encode_utf8(s);
    if forall|i: int| 0 <= i < bytes.len() ==> value_byte(#[trigger] bytes[i]) {
        Some(bytes)
    } else {
        None
    }
}

/// The number of names that a map may hold before one more is put in: with fewer, the map's
/// table never has to outgrow its greatest size.
pub const NAME_LIMIT: usize = 6554;

/// Whether `n` more names can be put into a map.
pub open spec fn has_room(es: Seq<Entry>, n: nat) -> bool {
    es.len() + n <= NAME_LIMIT
}

/// A name that occurs once has the values of its entry.
pub proof fn lemma_values_of_entry(es: Seq<Entry>, i: int)
    requires
        0 <= i < es.len(),
        forall|j: int, k: int|
            0 <= j < k < es.len() ==> (#[trigger] es[j]).0 != (#[trigger] es[k]).0,
    ensures
        values_of(es, es[i].0) == es[i].1,
    decreases es.len(),
{
    if i > 0 {
        let rest = es.drop_first();
        assert forall|j: int, k: int| 0 <= j < k < rest.len() implies (#[trigger] rest[j]).0 != (
        #[trigger] rest[k]).0 by {
            assert(rest[j] == es[j + 1] && rest[k] == es[k + 1]);
        }
        lemma_values_of_entry(rest, i - 1);
        assert(rest[i - 1] == es[i]);
        assert(es[0].0 != es[i].0);
    }
}

/// Putting a value in adds at most one name, and the name is there afterwards.
pub proof fn lemma_appended_len(es: Seq<Entry>, name: Seq<char>, v: Seq<u8>)
    ensures
        has_name(appended(es, name, v), name),
        appended(es, name, v).len() == es.len() + (if has_name(es, name) {
            0int
        } else {
            1
        }),
{
    let a = appended(es, name, v);
    if has_name(es, name) {
        let i = choose|i: int| 0 <= i < es.len() && (#[trigger] es[i]).0 == name;
        assert(a[i].0 == name);
    } else {
        assert(a[es.len() as int].0 == name);
    }
}

/// `HeaderMap::new`: a map without headers.
#[verifier::external_body]
pub(crate) fn headers_new() -> (r: HeaderMap)
    ensures
        entries(r) == Seq::<Entry>::empty(),
{
    HeaderMap::new()
}

/// `HeaderMap::get` by a text: the first value under a name, whose case does not matter. A text
/// that is no header's name finds nothing.
#[verifier::external_body]
pub(crate) fn header_get<'a>(m: &'a HeaderMap, name: &str) -> (r: Option<&'a HeaderValue>)
    ensures
        r is Some <==> looked_up(entries(*m), name@).len() > 0,
        r matches Some(v) ==> value_bytes(*v) == looked_up(entries(*m), name@)[0],
{
    m.get(name)
}

/// `HeaderMap::get_all` by a text, then the iteration of what it gives: the values under a name,
/// whose case does not matter, in order. A text that is no header's name finds nothing.
#[verifier::external_body]
pub(crate) fn header_get_all<'a>(m: &'a HeaderMap, name: &str) -> (r: Vec<&'a HeaderValue>)
    ensures
        r@.map_values(|v: &HeaderValue| value_bytes(*v)) == looked_up(entries(*m), name@),
{
    m.get_all(name).iter().collect()
}

/// `HeaderMap::get_all` by a name, then the iteration of what it gives: the values under the
/// name, in order.
#[verifier::external_body]
pub(crate) fn header_values<'a>(m: &'a HeaderMap, name: &HeaderName) -> (r: Vec<&'a HeaderValue>)
    ensures
        r@.map_values(|v: &HeaderValue| value_bytes(*v)) == values_of(
            entries(*m),
            name_text(*name),
        ),
{
    m.get_all(name).iter().collect()
}

/// `HeaderMap::keys`: the names in the order of the map. Each occurs once and has a value.
#[verifier::external_body]
pub(crate) fn header_keys(m: &HeaderMap) -> (r: Vec<&HeaderName>)
    ensures
        r@.len() == entries(*m).len(),
        forall|i: int| 0 <= i < r@.len() ==> name_text(*(#[trigger] r@[i])) == entries(*m)[i].0,
        forall|i: int, j: int|
            0 <= i < j < r@.len() ==> name_text(*(#[trigger] r@[i])) != name_text(
                *(#[trigger] r@[j]),
            ),
        forall|i: int|
            0 <= i < r@.len() ==> values_of(entries(*m), name_text(*(#[trigger] r@[i]))).len() > 0,
{
    m.keys().collect()
}

/// `HeaderName::as_str`: the text of a name.
#[verifier::external_body]
pub(crate) fn name_str(n: &HeaderName) -> (r: &str)
    ensures
        r@ == name_text(*n),
{
    n.as_str()
}

/// `HeaderMap::keys_len`: how many names a map holds.
#[verifier::external_body]
pub(crate) fn header_name_count(m: &HeaderMap) -> (r: usize)
    ensures
        r == entries(*m).len(),
{
    m.keys_len()
}

/// `HeaderMap::insert` under a copy of the name: the value replaces those that the name had.
#[verifier::external_body]
pub(crate) fn header_insert(m: &mut HeaderMap, name: &HeaderName, v: HeaderValue)
    requires
        has_room(entries(*old(m)), 1),
    ensures
        entries(*final(m)) == inserted(entries(*old(m)), name_text(*name), value_bytes(v)),
{
    m.insert(name.clone(), v);
}

/// `HeaderMap::append`: the value is added behind those that the name had.
#[verifier::external_body]
pub(crate) fn header_append(m: &mut HeaderMap, name: &str, v: HeaderValue)
    requires
        is_name(name@),
        has_room(entries(*old(m)), 1),
    ensures
        entries(*final(m)) == appended(entries(*old(m)), name@, value_bytes(v)),
{
    m.append(HeaderName::from_bytes(name.as_bytes()).unwrap(), v);
}

/// `HeaderValue::to_str`: the text of a value that is visible ASCII.
#[verifier::external_body]
pub(crate) fn value_to_str(v: &HeaderValue) -> (r: Option<&str>)
    ensures
        match value_text(value_bytes(*v)) {
            Some(t) => r matches Some(s) && s@ == t,
            None => r is None,
        },
{
    v.to_str().ok()
}

/// `HeaderValue::from_str`: the value that holds a text, unless a byte of the text may not
/// stand in one.
#[verifier::external_body]
pub(crate) fn value_from_str(s: &str) -> (r: Option<HeaderValue>)
    ensures
        match text_value(s@) {
            Some(bytes) => r matches Some(v) && value_bytes(v) == bytes,
            None => r is None,
        },
{
    HeaderValue::from_str(s).ok()
}

/// A value of visible ASCII as it is shown: in quotes, with a backslash in front of a quote.
pub open spec fn shown_text(bytes: Seq<u8>) -> Seq<char> {
    "\""@ + crate::forwarded::escaped(bytes.map_values(|b: u8| b as char)) + "\""@
}

/// `Debug` of `HeaderValue`: a value that was marked as sensitive is not shown; one of visible
/// ASCII is shown in quotes, with a backslash in front of a quote in it. Of other values nothing
/// is said.
#[verifier::external_body]
pub(crate) fn value_shown(v: &HeaderValue) -> (r: String)
    ensures
        value_text(value_bytes(*v)) is Some ==> r@ == "Sensitive"@ || r@ == shown_text(
            value_bytes(*v),
        ),
{
    format!("{:?}", v)
}

/// `HeaderValue`'s `Clone`: a value with the same bytes.
#[verifier::external_body]
pub(crate) fn value_clone(v: &HeaderValue) -> (r: HeaderValue)
    ensures
        value_bytes(r) == value_bytes(*v),
{
    v.clone()
}

} // verus!
