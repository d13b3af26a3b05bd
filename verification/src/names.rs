//! Names that must not be given twice.
use vstd::prelude::*;

use crate::text::text_view;

verus! {

/// The views of several optional names.
pub open spec fn name_views(names: Seq<Option<String>>) -> Seq<Option<Seq<char>>> {
    names.map_values(|name: Option<String>| text_view(name))
}

/// A name occurs before position `i`.
pub open spec fn occurs_before(names: Seq<Option<Seq<char>>>, name: Seq<char>, i: int) -> bool {
    exists|j: int| 0 <= j < i && #[trigger] names[j] == Some(name)
}

/// The first name at or after position `i` that was given before, if there is one.
pub open spec fn first_repeated(names: Seq<Option<Seq<char>>>, i: int) -> Option<Seq<char>>
    decreases names.len() - i,
{
    if i < 0 || i >= names.len() {
        None
    } else {
        match names[i] {
            Some(name) if occurs_before(names, name, i) => Some(name),
            _ => first_repeated(names, i + 1),
        }
    }
}

/// No name is given twice.
pub open spec fn names_unique(names: Seq<Option<Seq<char>>>) -> bool {
    forall|i: int, j: int|
        0 <= i < j < names.len() && (#[trigger] names[i]) is Some ==> names[i]
            != #[trigger] names[j]
}

/// There is no repeated name exactly if no name is given twice.
pub proof fn law_no_repeated_name(names: Seq<Option<Seq<char>>>)
    ensures
        first_repeated(names, 0) is None <==> names_unique(names),
{
    lemma_first_repeated(names, 0);
}

proof fn lemma_first_repeated(names: Seq<Option<Seq<char>>>, from: int)
    requires
        0 <= from <= names.len(),
    ensures
        first_repeated(names, from) is None <==> forall|i: int, j: int|
            0 <= i < j < names.len() && from <= j && (#[trigger] names[i]) is Some ==> names[i]
                != #[trigger] names[j],
    decreases names.len() - from,
{
    if from < names.len() {
        lemma_first_repeated(names, from + 1);
        if let Some(name) = names[from] {
            if occurs_before(names, name, from) {
                let i = choose|i: int| 0 <= i < from && #[trigger] names[i] == Some(name);
                assert(names[i] == names[from]);
            }
        }
    }
}

/// A name is given at two positions, and no other before the second one is.
pub open spec fn is_first_repeated_at(
    names: Seq<Option<Seq<char>>>,
    name: Seq<char>,
    i: int,
    j: int,
) -> bool {
    &&& 0 <= i < j < names.len()
    &&& names[i] == Some(name)
    &&& names[j] == Some(name)
    &&& forall|a: int, b: int|
        0 <= a < b < j && (#[trigger] names[a]) is Some ==> names[a] != #[trigger] names[b]
}

/// The first name that was given before stands at two positions.
pub proof fn lemma_repeated(names: Seq<Option<Seq<char>>>, from: int)
    requires
        0 <= from <= names.len(),
        forall|a: int, b: int|
            0 <= a < b < from && (#[trigger] names[a]) is Some ==> names[a] != #[trigger] names[b],
    ensures
        first_repeated(names, from) matches Some(name) ==> exists|i: int, j: int|
            is_first_repeated_at(names, name, i, j),
    decreases names.len() - from,
{
    if from < names.len() {
        match names[from] {
            Some(name) if occurs_before(names, name, from) => {
                let i = choose|i: int| 0 <= i < from && #[trigger] names[i] == Some(name);
                assert(is_first_repeated_at(names, name, i, from));
            },
            _ => {
                assert forall|a: int, b: int|
                    0 <= a < b < from + 1 && (#[trigger] names[a]) is Some implies names[a]
                    != #[trigger] names[b] by {
                    if b == from && names[a] == names[b] {
                        assert(occurs_before(names, names[b]->0, from));
                    }
                }
                lemma_repeated(names, from + 1);
            },
        }
    }
}

/// What is found is the first name that is given to two; nothing is found exactly where no name is
/// given to two.
pub proof fn law_repeated_name_is_found(names: &Vec<Option<String>>, r: Option<String>)
    requires
        call_ensures(find_repeated, (names,), r),
    ensures
        r is None <==> forall|i: int, j: int|
            0 <= i < j < names@.len() && text_view(#[trigger] names@[i]) is Some ==> text_view(
                names@[i],
            ) != text_view(#[trigger] names@[j]),
        r matches Some(name) ==> exists|i: int, j: int|
            is_first_repeated_at(name_views(names@), name@, i, j),
        forall|i: int|
            0 <= i < names@.len() ==> #[trigger] name_views(names@)[i] == text_view(names@[i]),
{
    let views = name_views(names@);
    assert forall|i: int| 0 <= i < names@.len() implies #[trigger] views[i] == text_view(
        names@[i],
    ) by {
    }
    law_no_repeated_name(views);
    lemma_repeated(views, 0);
    if r is None {
        assert forall|i: int, j: int|
            0 <= i < j < names@.len() && text_view(#[trigger] names@[i]) is Some implies text_view(
            names@[i],
        ) != text_view(#[trigger] names@[j]) by {
            assert(views[i] is Some && views[i] != views[j]);
        }
    } else {
        let name = r->0@;
        let (i, j) = choose|i: int, j: int| is_first_repeated_at(views, name, i, j);
        assert(text_view(names@[i]) == Some(name) && text_view(names@[j]) == Some(name));
    }
}

/// Finds the first name that was given before.
pub fn find_repeated(names: &Vec<Option<String>>) -> (r: Option<String>)
    ensures
        text_view(r) == first_repeated(name_views(names@), 0),
{
    let ghost views = name_views(names@);
    let mut i: usize = 0;
    while i < names.len()
        invariant
            i <= names@.len(),
            views == name_views(names@),
            first_repeated(views, 0) == first_repeated(views, i as int),
        decreases names@.len() - i,
    {
        assert(views[i as int] == text_view(names@[i as int]));
        if let Some(name) = &names[i] {
            if given_before(names, name, i) {
                return Some(name.clone());
            }
        }
        i = i + 1;
    }
    None
}

fn given_before(names: &Vec<Option<String>>, name: &String, n: usize) -> (r: bool)
    requires
        n <= names@.len(),
    ensures
        r == occurs_before(name_views(names@), name@, n as int),
{
    let ghost views = name_views(names@);
    let mut j: usize = 0;
    while j < n
        invariant
            j <= n <= names@.len(),
            views == name_views(names@),
            forall|k: int| 0 <= k < j ==> #[trigger] views[k] != Some(name@),
        decreases n - j,
    {
        assert(views[j as int] == text_view(names@[j as int]));
        if let Some(other) = &names[j] {
            if *other == *name {
                assert(views[j as int] == Some(name@));
                return true;
            }
        }
        j = j + 1;
    }
    false
}

} // verus!
