//! `dashmap`'s concurrent maps of the sockets by route, and of times by route.
//!
//! Such a map can be changed through a shared reference. Here it is changed through an exclusive
//! one only, by the farm that owns it.

use crate::router_socket::RouterSocketInfo;
use dashmap::DashMap;
use vstd::prelude::*;

verus! {

/// The sockets of one route, by their identifiers.
pub uninterp spec fn sockets(m: DashMap<String, RouterSocketInfo>) -> Map<
    Seq<char>,
    RouterSocketInfo,
>;

/// The sockets of all routes.
pub uninterp spec fn route_sockets(m: DashMap<String, DashMap<String, RouterSocketInfo>>) -> Map<
    Seq<char>,
    Map<Seq<char>, RouterSocketInfo>,
>;

/// The times of all routes.
pub uninterp spec fn times(m: DashMap<String, i64>) -> Map<Seq<char>, i64>;

/// `DashMap::new`: a map that holds nothing.
#[verifier::external_body]
pub(crate) fn sockets_new() -> (r: DashMap<String, RouterSocketInfo>)
    ensures
        sockets(r).dom() == Set::<Seq<char>>::empty(),
{
    DashMap::new()
}

/// `DashMap::insert`: the socket is held under its identifier, in place of what was.
#[verifier::external_body]
pub(crate) fn sockets_insert(
    m: &mut DashMap<String, RouterSocketInfo>,
    k: String,
    v: RouterSocketInfo,
)
    ensures
        sockets(*final(m)) == sockets(*old(m)).insert(k@, v),
{
    m.insert(k, v);
}

/// `DashMap::remove`: nothing is held under the identifier any more.
#[verifier::external_body]
pub(crate) fn sockets_remove(m: &mut DashMap<String, RouterSocketInfo>, k: &str)
    ensures
        sockets(*final(m)) == sockets(*old(m)).remove(k@),
{
    m.remove(k);
}

/// `DashMap::is_empty`: whether nothing is held.
#[verifier::external_body]
pub(crate) fn sockets_is_empty(m: &DashMap<String, RouterSocketInfo>) -> (r: bool)
    ensures
        r == (sockets(*m).dom() == Set::<Seq<char>>::empty()),
{
    m.is_empty()
}

/// `DashMap::iter`, then `Clone` of what it gives: all that is held, with its identifiers, each
/// once, in an order that is not said.
#[verifier::external_body]
pub(crate) fn sockets_list(m: &DashMap<String, RouterSocketInfo>) -> (r: Vec<
    (String, RouterSocketInfo),
>)
    ensures
        lists_sockets(r@, sockets(*m)),
{
    m.iter().map(|e| (e.key().clone(), e.value().clone())).collect()
}

/// `DashMap::new`: a map that holds nothing.
#[verifier::external_body]
pub(crate) fn routes_new() -> (r: DashMap<String, DashMap<String, RouterSocketInfo>>)
    ensures
        route_sockets(r).dom() == Set::<Seq<char>>::empty(),
{
    DashMap::new()
}

/// `DashMap::insert`: the sockets are held under the route, in place of what was.
#[verifier::external_body]
pub(crate) fn routes_insert(
    m: &mut DashMap<String, DashMap<String, RouterSocketInfo>>,
    k: String,
    v: DashMap<String, RouterSocketInfo>,
)
    ensures
        route_sockets(*final(m)) == route_sockets(*old(m)).insert(k@, sockets(v)),
{
    m.insert(k, v);
}

/// `DashMap::remove`: takes out what is held under a route.
#[verifier::external_body]
pub(crate) fn routes_remove(
    m: &mut DashMap<String, DashMap<String, RouterSocketInfo>>,
    k: &str,
) -> (r: Option<DashMap<String, RouterSocketInfo>>)
    ensures
        route_sockets(*final(m)) == route_sockets(*old(m)).remove(k@),
        match r {
            Some(s) => route_sockets(*old(m)).dom().contains(k@) && sockets(s) == route_sockets(
                *old(m),
            )[k@],
            None => !route_sockets(*old(m)).dom().contains(k@),
        },
{
    m.remove(k).map(|kv| kv.1)
}

/// `DashMap::iter`: the routes under which something is held, each once, in an order that is not
/// said.
#[verifier::external_body]
pub(crate) fn routes_keys(m: &DashMap<String, DashMap<String, RouterSocketInfo>>) -> (r: Vec<
    String,
>)
    ensures
        forall|i: int, j: int|
            0 <= i < j < r@.len() ==> (#[trigger] r@[i])@ != (#[trigger] r@[j])@,
        forall|i: int|
            0 <= i < r@.len() ==> route_sockets(*m).dom().contains((#[trigger] r@[i])@),
        forall|k: Seq<char>|
            route_sockets(*m).dom().contains(k) ==> exists|i: int|
                0 <= i < r@.len() && (#[trigger] r@[i])@ == k,
{
    m.iter().map(|e| e.key().clone()).collect()
}

/// Whether a list gives the sockets of a route, each once.
pub open spec fn lists_sockets(
    v: Seq<(String, RouterSocketInfo)>,
    m: Map<Seq<char>, RouterSocketInfo>,
) -> bool {
    &&& forall|i: int, j: int|
        0 <= i < j < v.len() ==> (#[trigger] v[i]).0@ != (#[trigger] v[j]).0@
    &&& forall|i: int|
        0 <= i < v.len() ==> m.dom().contains((#[trigger] v[i]).0@) && m[v[i].0@] == v[i].1
    &&& forall|k: Seq<char>|
        m.dom().contains(k) ==> exists|i: int| 0 <= i < v.len() && (#[trigger] v[i]).0@ == k
}

/// `DashMap::get`, then `DashMap::iter` of what it finds and `Clone` of what that gives: the
/// sockets of a route, each once, in an order that is not said.
#[verifier::external_body]
pub(crate) fn routes_list(
    m: &DashMap<String, DashMap<String, RouterSocketInfo>>,
    k: &str,
) -> (r: Option<Vec<(String, RouterSocketInfo)>>)
    ensures
        match r {
            Some(v) => route_sockets(*m).dom().contains(k@) && lists_sockets(
                v@,
                route_sockets(*m)[k@],
            ),
            None => !route_sockets(*m).dom().contains(k@),
        },
{
    m.get(k).map(|s| s.iter().map(|e| (e.key().clone(), e.value().clone())).collect())
}

/// `DashMap::new`: a map that holds nothing.
#[verifier::external_body]
pub(crate) fn times_new() -> (r: DashMap<String, i64>)
    ensures
        times(r).dom() == Set::<Seq<char>>::empty(),
{
    DashMap::new()
}

/// `DashMap::insert`: the time is held under the route, in place of what was.
#[verifier::external_body]
pub(crate) fn times_insert(m: &mut DashMap<String, i64>, k: String, v: i64)
    ensures
        times(*final(m)) == times(*old(m)).insert(k@, v),
{
    m.insert(k, v);
}

/// `DashMap::get`: the time that is held under a route.
#[verifier::external_body]
pub(crate) fn times_get(m: &DashMap<String, i64>, k: &str) -> (r: Option<i64>)
    ensures
        r == (if times(*m).dom().contains(k@) {
            Some(times(*m)[k@])
        } else {
            None
        }),
{
    m.get(k).map(|e| *e.value())
}

} // verus!
