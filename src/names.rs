//! Sets of label names, held in a persistent hash set.
use vstd::prelude::*;

verus! {

#[verifier::external_type_specification]
#[verifier::external_body]
#[verifier::reject_recursive_types(A)]
#[verifier::reject_recursive_types(S)]
pub struct ExPersistentHashSet<A, S>(im::HashSet<A, S>);

/// The names that a persistent set of strings holds.
pub uninterp spec fn names_in(s: im::HashSet<String>) -> Set<Seq<char>>;

/// Relies on im::HashSet::new: the new set is empty.
#[verifier::external_body]
pub(crate) fn empty_names() -> (r: im::HashSet<String>)
    ensures
        names_in(r) == Set::<Seq<char>>::empty(),
{
    im::HashSet::new()
}

/// Relies on im::HashSet::update: a copy of the set with `name` added, the
/// original left as it was.
#[verifier::external_body]
pub(crate) fn with_name(s: &im::HashSet<String>, name: String) -> (r: im::HashSet<String>)
    ensures
        names_in(r) == names_in(*s).insert(name@),
{
    s.update(name)
}

/// Relies on im::HashSet::contains, looking a `str` up among `String`s, whose
/// hashes and equality agree.
#[verifier::external_body]
pub(crate) fn has_name(s: &im::HashSet<String>, name: &str) -> (r: bool)
    ensures
        r == names_in(*s).contains(name@),
{
    s.contains(name)
}

} // verus!
