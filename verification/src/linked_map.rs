//! `hashlink`'s insertion-ordered map, as the router uses it: from text to text.

use hashlink::LinkedHashMap;
use vstd::prelude::*;

verus! {

#[verifier::external_type_specification]
#[verifier::external_body]
#[verifier::reject_recursive_types(K)]
#[verifier::reject_recursive_types(V)]
#[verifier::reject_recursive_types(S)]
pub struct ExLinkedHashMap<K, V, S>(LinkedHashMap<K, V, S>);

#[verifier::external_type_specification]
#[verifier::external_body]
pub struct ExDefaultHashBuilder(hashlink::DefaultHashBuilder);

/// The pairs that the map holds, in the order of its list.
pub uninterp spec fn linked_pairs(m: LinkedHashMap<String, String>) -> Seq<(Seq<char>, Seq<char>)>;

/// Whether a pair has another key than `k`.
pub open spec fn has_other_key(k: Seq<char>) -> spec_fn((Seq<char>, Seq<char>)) -> bool {
    |p: (Seq<char>, Seq<char>)| p.0 != k
}

/// The pairs with the value of `k` set to `v`: the pair of `k` stands at the back, whether or
/// not there was one before.
pub open spec fn set_at_back(
    pairs: Seq<(Seq<char>, Seq<char>)>,
    k: Seq<char>,
    v: Seq<char>,
) -> Seq<(Seq<char>, Seq<char>)> {
    pairs.filter(has_other_key(k)).push((k, v))
}

/// `LinkedHashMap::new`: a map without pairs.
#[verifier::external_body]
pub(crate) fn linked_new() -> (r: LinkedHashMap<String, String>)
    ensures
        linked_pairs(r) == Seq::<(Seq<char>, Seq<char>)>::empty(),
{
    LinkedHashMap::new()
}

/// `LinkedHashMap::insert`: the pair goes to the back of the list; a pair that had the same
/// key is gone.
#[verifier::external_body]
pub(crate) fn linked_insert(m: &mut LinkedHashMap<String, String>, k: String, v: String)
    ensures
        linked_pairs(*final(m)) == set_at_back(linked_pairs(*old(m)), k@, v@),
{
    m.insert(k, v);
}

/// `LinkedHashMap::iter`: the pairs from the front of the list to its back.
#[verifier::external_body]
pub(crate) fn linked_list(m: &LinkedHashMap<String, String>) -> (r: Vec<(&String, &String)>)
    ensures
        r@.len() == linked_pairs(*m).len(),
        forall|i: int|
            0 <= i < r@.len() ==> (#[trigger] r@[i]).0@ == linked_pairs(*m)[i].0 && r@[i].1@
                == linked_pairs(*m)[i].1,
{
    m.iter().collect()
}

/// `LinkedHashMap::is_empty`: whether there is no pair.
#[verifier::external_body]
pub(crate) fn linked_is_empty(m: &LinkedHashMap<String, String>) -> (r: bool)
    ensures
        r == (linked_pairs(*m).len() == 0),
{
    m.is_empty()
}

} // verus!
