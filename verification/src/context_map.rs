//! `dashmap`'s concurrent map of the requests that share a connection.
//!
//! A map can be changed through a shared reference. Here it is changed through an exclusive one
//! only, by the socket that owns it.

use crate::request_context::RequestContext;
use dashmap::DashMap;
use vstd::prelude::*;

verus! {

#[verifier::external_type_specification]
#[verifier::external_body]
#[verifier::reject_recursive_types(K)]
#[verifier::reject_recursive_types(V)]
#[verifier::reject_recursive_types(S)]
pub struct ExDashMap<K, V, S>(DashMap<K, V, S>);

/// The requests that a map holds, by their numbers.
pub uninterp spec fn held(m: DashMap<i32, RequestContext>) -> Map<i32, RequestContext>;

/// `DashMap::new`: a map that holds nothing.
#[verifier::external_body]
pub(crate) fn map_new() -> (r: DashMap<i32, RequestContext>)
    ensures
        held(r).dom() == Set::<i32>::empty(),
{
    DashMap::new()
}

/// `DashMap::insert`: the request is held under its number, in place of what was.
#[verifier::external_body]
pub(crate) fn map_insert(m: &mut DashMap<i32, RequestContext>, k: i32, v: RequestContext)
    ensures
        held(*final(m)) == held(*old(m)).insert(k, v),
{
    m.insert(k, v);
}

/// `DashMap::remove`: takes out what is held under a number.
#[verifier::external_body]
pub(crate) fn map_remove(m: &mut DashMap<i32, RequestContext>, k: i32) -> (r: Option<
    RequestContext,
>)
    ensures
        held(*final(m)) == held(*old(m)).remove(k),
        r == (if held(*old(m)).dom().contains(k) {
            Some(held(*old(m))[k])
        } else {
            None
        }),
{
    m.remove(&k).map(|kv| kv.1)
}

/// `DashMap::len`: how many requests are held.
#[verifier::external_body]
pub(crate) fn map_len(m: &DashMap<i32, RequestContext>) -> (r: usize)
    ensures
        r == held(*m).dom().len(),
{
    m.len()
}

/// `DashMap::iter`: the numbers under which something is held, each once, in an order that is
/// not said.
#[verifier::external_body]
pub(crate) fn map_keys(m: &DashMap<i32, RequestContext>) -> (r: Vec<i32>)
    ensures
        r@.no_duplicates(),
        r@.to_set() == held(*m).dom(),
{
    m.iter().map(|e| *e.key()).collect()
}

} // verus!
