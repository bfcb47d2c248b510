//! Finding an entry by its name in an ordered list.

use vstd::prelude::*;

verus! {

/// `i` is the first position of `names` that holds `name`.
pub open spec fn is_first_at(names: Seq<Seq<char>>, name: Seq<char>, i: int) -> bool {
    &&& 0 <= i < names.len()
    &&& names[i] == name
    &&& forall|j: int| 0 <= j < i ==> names[j] != name
}

/// The first position of `names` that holds `name`, if any does.
pub open spec fn position(names: Seq<Seq<char>>, name: Seq<char>) -> Option<int> {
    if exists|i: int| is_first_at(names, name, i) {
        Some(choose|i: int| is_first_at(names, name, i))
    } else {
        None
    }
}

/// A name that occurs at `i` and nowhere before is found at `i`.
pub proof fn lemma_position_found(names: Seq<Seq<char>>, name: Seq<char>, i: int)
    requires
        is_first_at(names, name, i),
    ensures
        position(names, name) == Some(i),
{
    let k = choose|k: int| is_first_at(names, name, k);
    assert(is_first_at(names, name, k));
    if k < i {
        assert(names[k] != name);
    }
    if i < k {
        assert(names[i] != name);
    }
}

/// A name that occurs nowhere is not found.
pub proof fn lemma_position_missing(names: Seq<Seq<char>>, name: Seq<char>)
    requires
        forall|j: int| 0 <= j < names.len() ==> names[j] != name,
    ensures
        position(names, name) is None,
{
}

/// What `position` finds is the first occurrence; where it finds nothing, there is none.
pub proof fn lemma_position(names: Seq<Seq<char>>, name: Seq<char>)
    ensures
        match position(names, name) {
            Some(i) => is_first_at(names, name, i),
            None => forall|j: int| 0 <= j < names.len() ==> names[j] != name,
        },
{
    if position(names, name) is None {
        assert forall|j: int| 0 <= j < names.len() implies names[j] != name by {
            if names[j] == name {
                lemma_first_exists(names, name, j);
            }
        }
    }
}

/// A name that occurs at `j` has a first occurrence.
proof fn lemma_first_exists(names: Seq<Seq<char>>, name: Seq<char>, j: int)
    requires
        0 <= j < names.len(),
        names[j] == name,
    ensures
        exists|i: int| is_first_at(names, name, i),
    decreases j,
{
    if exists|k: int| 0 <= k < j && names[k] == name {
        let k = choose|k: int| 0 <= k < j && names[k] == name;
        lemma_first_exists(names, name, k);
    } else {
        assert(is_first_at(names, name, j));
    }
}

} // verus!
