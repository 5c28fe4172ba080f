//! The insertion-ordered map that holds the pending invocations.
//!
//! The map is `indexmap::IndexMap`. Verus does not look inside it: what it
//! holds is named by [`pending_entries`], and each method the bridge calls has
//! a small function here that states what the method does to those entries.

use crate::invoke::{PendingInvoke, PendingInvokeView};
use indexmap::IndexMap;
use vstd::prelude::*;

verus! {

/// `indexmap::IndexMap`, with the parameters of the struct itself.
#[verifier::external_type_specification]
#[verifier::external_body]
#[verifier::reject_recursive_types(K)]
#[verifier::reject_recursive_types(V)]
#[verifier::reject_recursive_types(S)]
pub struct ExIndexMap<K, V, S>(IndexMap<K, V, S>);

/// The key-value pairs of a map in its order, keys and values by their views.
pub uninterp spec fn pending_entries(m: IndexMap<String, PendingInvoke>) -> Seq<
    (Seq<char>, PendingInvokeView),
>;

/// Whether some pair of `entries` has the key `key`.
pub open spec fn has_key(entries: Seq<(Seq<char>, PendingInvokeView)>, key: Seq<char>) -> bool {
    exists|i: int| 0 <= i < entries.len() && (#[trigger] entries[i]).0 == key
}

/// `IndexMap::new`: a map without pairs.
#[verifier::external_body]
pub(crate) fn map_new() -> (m: IndexMap<String, PendingInvoke>)
    ensures
        pending_entries(m) == Seq::<(Seq<char>, PendingInvokeView)>::empty(),
{
    IndexMap::new()
}

/// `IndexMap::len`: the number of pairs.
#[verifier::external_body]
pub(crate) fn map_len(m: &IndexMap<String, PendingInvoke>) -> (n: usize)
    ensures
        n == pending_entries(*m).len(),
{
    m.len()
}

/// `IndexMap::contains_key`: whether a pair with an equal key is in the map.
#[verifier::external_body]
pub(crate) fn map_contains_key(m: &IndexMap<String, PendingInvoke>, key: &str) -> (b: bool)
    ensures
        b == has_key(pending_entries(*m), key@),
{
    m.contains_key(key)
}

/// `IndexMap::insert`: where no pair has the key, the new pair goes last and
/// `None` comes back; where one has it, that pair keeps its place, takes the
/// new value, and the value it held comes back.
#[verifier::external_body]
pub(crate) fn map_insert(
    m: &mut IndexMap<String, PendingInvoke>,
    key: String,
    value: PendingInvoke,
) -> (r: Option<PendingInvoke>)
    ensures
        match r {
            None => !has_key(pending_entries(*old(m)), key@) && pending_entries(*final(m))
                == pending_entries(*old(m)).push((key@, value@)),
            Some(prev) => exists|i: int|
                0 <= i < pending_entries(*old(m)).len() && (#[trigger] pending_entries(
                    *old(m),
                )[i]) == (key@, prev@) && pending_entries(*final(m)) == pending_entries(
                    *old(m),
                ).update(i, (key@, value@)),
        },
{
    m.insert(key, value)
}

/// `IndexMap::shift_remove`: the pair with the key leaves, those behind it
/// move up in order, and its value comes back; `None`, and no change, where
/// no pair has the key.
#[verifier::external_body]
pub(crate) fn map_shift_remove(m: &mut IndexMap<String, PendingInvoke>, key: &str) -> (r: Option<
    PendingInvoke,
>)
    ensures
        match r {
            None => !has_key(pending_entries(*old(m)), key@) && pending_entries(*final(m))
                == pending_entries(*old(m)),
            Some(value) => exists|i: int|
                0 <= i < pending_entries(*old(m)).len() && (#[trigger] pending_entries(
                    *old(m),
                )[i]) == (key@, value@) && pending_entries(*final(m)) == pending_entries(
                    *old(m),
                ).remove(i),
        },
{
    m.shift_remove(key)
}

/// `IndexMap::shift_remove_index`: the pair at `index` leaves, those behind it
/// move up in order, and it comes back; `None`, and no change, where the map
/// has no such index.
#[verifier::external_body]
pub(crate) fn map_shift_remove_index(m: &mut IndexMap<String, PendingInvoke>, index: usize) -> (r:
    Option<(String, PendingInvoke)>)
    ensures
        match r {
            None => index >= pending_entries(*old(m)).len() && pending_entries(*final(m))
                == pending_entries(*old(m)),
            Some(pair) => index < pending_entries(*old(m)).len() && pending_entries(
                *old(m),
            )[index as int] == (pair.0@, pair.1@) && pending_entries(*final(m))
                == pending_entries(*old(m)).remove(index as int),
        },
{
    m.shift_remove_index(index)
}

/// `IndexMap::drain` over the full range, collected: every pair comes out, in
/// order, and the map is left without pairs.
#[verifier::external_body]
pub(crate) fn map_drain(m: &mut IndexMap<String, PendingInvoke>) -> (r: Vec<
    (String, PendingInvoke),
>)
    ensures
        pending_entries(*final(m)) == Seq::<(Seq<char>, PendingInvokeView)>::empty(),
        r@.len() == pending_entries(*old(m)).len(),
        forall|i: int|
            0 <= i < r@.len() ==> pending_entries(*old(m))[i] == ((#[trigger] r@[i]).0@, r@[i].1@),
{
    m.drain(..).collect()
}

/// `IndexMap::clear`: the map is left without pairs.
#[verifier::external_body]
pub(crate) fn map_clear(m: &mut IndexMap<String, PendingInvoke>)
    ensures
        pending_entries(*final(m)) == Seq::<(Seq<char>, PendingInvokeView)>::empty(),
{
    m.clear()
}

} // verus!
