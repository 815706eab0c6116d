//! The key index of a registry: an insertion-ordered set of unique keys
//! kept in an `indexmap::IndexSet`, reached only through the functions of
//! this module. Their contracts are taken on trust from the `indexmap`
//! sources; everything built on them is proved.

use indexmap::IndexSet;
use vstd::prelude::*;

verus! {

#[verifier::external_type_specification]
#[verifier::external_body]
#[verifier::reject_recursive_types(T)]
#[verifier::reject_recursive_types(S)]
pub struct ExIndexSet<T, S>(IndexSet<T, S>);

/// The keys that an index holds, in their order.
pub uninterp spec fn index_keys(index: IndexSet<String>) -> Seq<Seq<char>>;

/// `IndexSet::new`: a fresh index holds no key.
#[verifier::external_body]
pub(crate) fn index_new() -> (index: IndexSet<String>)
    ensures
        index_keys(index) == Seq::<Seq<char>>::empty(),
{
    IndexSet::new()
}

/// `IndexSet::get_index_of`: a position at which `key` stands, or `None`
/// when the index does not hold it.
#[verifier::external_body]
pub(crate) fn index_position(index: &IndexSet<String>, key: &str) -> (found: Option<usize>)
    ensures
        match found {
            Some(i) => i < index_keys(*index).len() && index_keys(*index)[i as int] == key@,
            None => !index_keys(*index).contains(key@),
        },
{
    index.get_index_of(key)
}

/// `IndexSet::insert`: a key not yet held is appended after the others and
/// `true` is returned; a key already held leaves the index as it was and
/// `false` is returned.
#[verifier::external_body]
pub(crate) fn index_insert(index: &mut IndexSet<String>, key: String) -> (added: bool)
    ensures
        added == !index_keys(*old(index)).contains(key@),
        added ==> index_keys(*final(index)) == index_keys(*old(index)).push(key@),
        !added ==> index_keys(*final(index)) == index_keys(*old(index)),
{
    index.insert(key)
}

/// `IndexSet::shift_remove_full`: removes `key` and closes the gap, so the
/// keys behind it move one position down; returns the position it had, or
/// `None`, with the index unchanged, when the key is not held.
#[verifier::external_body]
pub(crate) fn index_shift_remove(index: &mut IndexSet<String>, key: &str) -> (removed: Option<usize>)
    ensures
        match removed {
            Some(i) => {
                &&& i < index_keys(*old(index)).len()
                &&& index_keys(*old(index))[i as int] == key@
                &&& index_keys(*final(index)) == index_keys(*old(index)).remove(i as int)
            },
            None => {
                &&& !index_keys(*old(index)).contains(key@)
                &&& index_keys(*final(index)) == index_keys(*old(index))
            },
        },
{
    index.shift_remove_full(key).map(|(position, _)| position)
}

/// `IndexSet::swap_remove_full`: removes `key` by moving the last key into
/// its place and dropping the last position; returns the position it had,
/// or `None`, with the index unchanged, when the key is not held.
#[verifier::external_body]
pub(crate) fn index_swap_remove(index: &mut IndexSet<String>, key: &str) -> (removed: Option<usize>)
    ensures
        match removed {
            Some(i) => {
                &&& i < index_keys(*old(index)).len()
                &&& index_keys(*old(index))[i as int] == key@
                &&& index_keys(*final(index)) == index_keys(*old(index)).update(
                    i as int,
                    index_keys(*old(index)).last(),
                ).drop_last()
            },
            None => {
                &&& !index_keys(*old(index)).contains(key@)
                &&& index_keys(*final(index)) == index_keys(*old(index))
            },
        },
{
    index.swap_remove_full(key).map(|(position, _)| position)
}

} // verus!
