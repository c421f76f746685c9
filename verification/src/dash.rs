//! `dashmap`'s concurrent set of texts.
//!
//! A set can be changed through a shared reference. What is said of one here holds as long as
//! it is changed by its owner alone, so the library keeps its sets to itself and hands out
//! copies.

use dashmap::DashSet;
use vstd::prelude::*;

verus! {

#[verifier::external_type_specification]
#[verifier::external_body]
#[verifier::reject_recursive_types(K)]
#[verifier::reject_recursive_types(S)]
pub struct ExDashSet<K, S>(DashSet<K, S>);

/// The texts that a set holds.
pub uninterp spec fn members(s: DashSet<String>) -> Set<Seq<char>>;

/// `DashSet::new`: a set without members.
#[verifier::external_body]
pub(crate) fn set_new() -> (r: DashSet<String>)
    ensures
        members(r) == Set::<Seq<char>>::empty(),
{
    DashSet::new()
}

/// `DashSet::insert`: the text becomes a member; whether it was none is returned.
#[verifier::external_body]
pub(crate) fn set_insert(s: &mut DashSet<String>, v: String) -> (r: bool)
    ensures
        members(*final(s)) == members(*old(s)).insert(v@),
        r == !members(*old(s)).contains(v@),
{
    s.insert(v)
}

/// `DashSet::remove`: the text is no member any more.
#[verifier::external_body]
pub(crate) fn set_remove(s: &mut DashSet<String>, v: &str)
    ensures
        members(*final(s)) == members(*old(s)).remove(v@),
{
    s.remove(v);
}

/// `DashSet::clone`: a set of its own with the same members.
#[verifier::external_body]
pub(crate) fn set_clone(s: &DashSet<String>) -> (r: DashSet<String>)
    ensures
        members(r) == members(*s),
{
    s.clone()
}

/// `DashSet::contains`: whether the text is a member.
#[verifier::external_body]
pub(crate) fn set_contains(s: &DashSet<String>, v: &str) -> (r: bool)
    ensures
        r == members(*s).contains(v@),
{
    s.contains(v)
}

} // verus!
