//! The windows that hold messages nobody has looked at yet, in the order
//! in which they came to wait.

use crate::text::{texts, without};
use linked_hash_set::LinkedHashSet;
use vstd::prelude::*;

verus! {

#[verifier::external_type_specification]
#[verifier::external_body]
#[verifier::reject_recursive_types(T)]
#[verifier::reject_recursive_types(S)]
pub struct ExLinkedHashSet<T, S>(LinkedHashSet<T, S>);

/// The names that a set of window names holds, in the order in which it
/// hands them out.
pub uninterp spec fn held(set: LinkedHashSet<String>) -> Seq<Seq<char>>;

/// `LinkedHashSet::new`: the set starts out empty.
#[verifier::external_body]
pub(crate) fn set_new() -> (set: LinkedHashSet<String>)
    ensures
        held(set) == Seq::<Seq<char>>::empty(),
{
    LinkedHashSet::new()
}

/// `LinkedHashSet::insert_if_absent`: a value that the set does not hold
/// goes to the end of the order; a value that it holds stays where it is.
/// The result tells whether the value was new.
#[verifier::external_body]
pub(crate) fn set_insert_if_absent(set: &mut LinkedHashSet<String>, name: String) -> (fresh: bool)
    ensures
        fresh == !held(*old(set)).contains(name@),
        held(*final(set)) == if held(*old(set)).contains(name@) {
            held(*old(set))
        } else {
            held(*old(set)).push(name@)
        },
{
    set.insert_if_absent(name)
}

/// `LinkedHashSet::remove`: the value leaves, the others keep their order,
/// and the result tells whether it was there.
#[verifier::external_body]
pub(crate) fn set_remove(set: &mut LinkedHashSet<String>, name: &str) -> (was: bool)
    ensures
        was == held(*old(set)).contains(name@),
        held(*final(set)) == without(held(*old(set)), name@),
{
    set.remove(name)
}

/// `LinkedHashSet::pop_front`: the first entry leaves and is returned;
/// an empty set stays empty and gives `None`.
#[verifier::external_body]
pub(crate) fn set_pop_front(set: &mut LinkedHashSet<String>) -> (first: Option<String>)
    ensures
        match first {
            Some(name) => held(*old(set)).len() > 0 && name@ == held(*old(set))[0] && held(
                *final(set),
            ) == held(*old(set)).drop_first(),
            None => held(*old(set)).len() == 0 && held(*final(set)) == held(*old(set)),
        },
{
    set.pop_front()
}

/// `LinkedHashSet::iter`: the entries in their order, each copied.
#[verifier::external_body]
pub(crate) fn set_names(set: &LinkedHashSet<String>) -> (names: Vec<String>)
    ensures
        texts(names@) == held(*set),
{
    set.iter().cloned().collect()
}

} // verus!
