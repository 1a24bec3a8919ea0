use vstd::prelude::*;
use indexmap::IndexSet;
use std::hash::BuildHasherDefault;
use ahash::AHasher;

verus! {

#[verifier::external_type_specification]
#[verifier::external_body]
#[verifier::reject_recursive_types(T)]
#[verifier::reject_recursive_types(S)]
pub struct ExIndexSet<T, S>(IndexSet<T, S>);

#[verifier::external_type_specification]
#[verifier::external_body]
#[verifier::reject_recursive_types(H)]
pub struct ExBuildHasherDefault<H>(BuildHasherDefault<H>);

#[verifier::external_type_specification]
#[verifier::external_body]
pub struct ExAHasher(AHasher);

/// Hasher of the editor's hashed collections.
pub type AHashBuildHasher = BuildHasherDefault<AHasher>;

/// Maps with unsaved changes, each written as `(x, y, group)`, kept in insertion order.
pub type UnsavedMaps = IndexSet<(i32, i32, i32), BuildHasherDefault<AHasher>>;

/// The entries of an unsaved-map set, in the set's order.
pub uninterp spec fn unsaved_entries(s: IndexSet<(i32, i32, i32), BuildHasherDefault<AHasher>>) -> Seq<(i32, i32, i32)>;

/// `IndexSet::default`: an empty set.
#[verifier::external_body]
pub(crate) fn unsaved_new() -> (s: UnsavedMaps)
    ensures
        unsaved_entries(s) == Seq::<(i32, i32, i32)>::empty(),
{
    IndexSet::default()
}

/// `IndexSet::insert`: appends the value when it is absent and returns `true`;
/// leaves the set as it was and returns `false` when an equal value is present.
/// The entries of an `IndexSet` never hold the same value twice.
#[verifier::external_body]
pub(crate) fn unsaved_insert(s: &mut UnsavedMaps, v: (i32, i32, i32)) -> (r: bool)
    ensures
        r == !unsaved_entries(*old(s)).contains(v),
        r ==> unsaved_entries(*final(s)) == unsaved_entries(*old(s)).push(v),
        !r ==> unsaved_entries(*final(s)) == unsaved_entries(*old(s)),
        unsaved_entries(*final(s)).no_duplicates(),
{
    s.insert(v)
}

/// `IndexSet::swap_remove`: when the value is present, the last entry takes its place and the
/// set shrinks by one, and the call returns `true`; otherwise nothing changes and it returns `false`.
/// The entries of an `IndexSet` never hold the same value twice.
#[verifier::external_body]
pub(crate) fn unsaved_swap_remove(s: &mut UnsavedMaps, v: &(i32, i32, i32)) -> (r: bool)
    ensures
        r == unsaved_entries(*old(s)).contains(*v),
        r ==> unsaved_entries(*final(s)) == unsaved_entries(*old(s)).update(
            unsaved_entries(*old(s)).index_of(*v),
            unsaved_entries(*old(s)).last(),
        ).drop_last(),
        !r ==> unsaved_entries(*final(s)) == unsaved_entries(*old(s)),
        unsaved_entries(*final(s)).no_duplicates(),
{
    s.swap_remove(v)
}

/// `IndexSet::pop`: removes and returns the last entry, or returns `None` on an empty set.
#[verifier::external_body]
pub(crate) fn unsaved_pop(s: &mut UnsavedMaps) -> (r: Option<(i32, i32, i32)>)
    ensures
        unsaved_entries(*old(s)).len() == 0 ==> r is None && unsaved_entries(*final(s))
            == unsaved_entries(*old(s)),
        unsaved_entries(*old(s)).len() > 0 ==> r == Some(unsaved_entries(*old(s)).last())
            && unsaved_entries(*final(s)) == unsaved_entries(*old(s)).drop_last(),
        unsaved_entries(*final(s)).no_duplicates(),
{
    s.pop()
}

/// `IndexSet::is_empty`.
#[verifier::external_body]
pub(crate) fn unsaved_is_empty(s: &UnsavedMaps) -> (r: bool)
    ensures
        r == (unsaved_entries(*s).len() == 0),
{
    s.is_empty()
}

/// `IndexSet::iter`, copied into a vector in the set's order.
#[verifier::external_body]
pub(crate) fn unsaved_to_vec(s: &UnsavedMaps) -> (r: Vec<(i32, i32, i32)>)
    ensures
        r@ == unsaved_entries(*s),
{
    s.iter().copied().collect()
}

} // verus!
