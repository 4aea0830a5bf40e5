//! Lists of column names: lookup by name and the test for repeated names.

use vstd::prelude::*;

verus! {

/// The names of a list as character sequences.
pub open spec fn names_view(names: Seq<String>) -> Seq<Seq<char>> {
    Seq::new(names.len(), |i: int| names[i]@)
}

/// Position of the first occurrence of `name` in `names`, if there is one.
pub open spec fn index_of(names: Seq<Seq<char>>, name: Seq<char>) -> Option<int>
    decreases names.len(),
{
    if names.len() == 0 {
        None
    } else {
        match index_of(names.drop_last(), name) {
            Some(i) => Some(i),
            None => if names.last() == name {
                Some(names.len() - 1)
            } else {
                None
            },
        }
    }
}

/// No name occurs twice.
pub open spec fn distinct(names: Seq<Seq<char>>) -> bool {
    forall|i: int, j: int| 0 <= i < j < names.len() ==> names[i] != names[j]
}

/// `index_of` answers with the first position that holds the name, and with
/// nothing exactly when no position holds it.
pub proof fn lemma_index_of(names: Seq<Seq<char>>, name: Seq<char>)
    ensures
        index_of(names, name) matches Some(i) ==> 0 <= i < names.len() && names[i] == name,
        index_of(names, name) matches Some(i) ==> forall|j: int|
            0 <= j < i ==> #[trigger] names[j] != name,
        index_of(names, name) is None ==> forall|j: int|
            0 <= j < names.len() ==> #[trigger] names[j] != name,
    decreases names.len(),
{
    if names.len() > 0 {
        let front = names.drop_last();
        lemma_index_of(front, name);
        assert forall|j: int| 0 <= j < front.len() implies front[j] == names[j] by {}
        match index_of(front, name) {
            Some(i) => {
                assert(names[i] == front[i]);
                assert forall|j: int| 0 <= j < i implies #[trigger] names[j] != name by {
                    assert(front[j] != name);
                }
            },
            None => {
                assert forall|j: int| 0 <= j < names.len() - 1 implies #[trigger] names[j]
                    != name by {
                    assert(front[j] != name);
                }
            },
        }
    }
}

/// A name that stands in a list is found in it.
pub proof fn lemma_index_of_some(names: Seq<Seq<char>>, name: Seq<char>, i: int)
    requires
        0 <= i < names.len(),
        names[i] == name,
    ensures
        index_of(names, name) is Some,
{
    lemma_index_of(names, name);
}

/// In a list without repeated names every name is found where it stands.
pub proof fn lemma_index_of_distinct(names: Seq<Seq<char>>, i: int)
    requires
        distinct(names),
        0 <= i < names.len(),
    ensures
        index_of(names, names[i]) == Some(i),
{
    lemma_index_of(names, names[i]);
}

/// A name that is found in a list keeps its position when the list grows at
/// the end.
pub proof fn lemma_index_of_prefix(names: Seq<Seq<char>>, n: int, name: Seq<char>)
    requires
        0 <= n <= names.len(),
        index_of(names.take(n), name) is Some,
    ensures
        index_of(names, name) == index_of(names.take(n), name),
    decreases names.len() - n,
{
    if n < names.len() {
        assert(names.take(n + 1).drop_last() =~= names.take(n));
        lemma_index_of_prefix(names, n + 1, name);
    } else {
        assert(names.take(n) =~= names);
    }
}

/// Finds the first position of `name` in `names`.
pub fn position(names: &Vec<String>, name: &String) -> (r: Option<usize>)
    ensures
        r.is_some() == index_of(names_view(names@), name@).is_some(),
        r.is_some() ==> r.unwrap() as int == index_of(names_view(names@), name@).unwrap(),
        r.is_some() ==> r.unwrap() < names.len(),
{
    let ghost all = names_view(names@);
    let mut i: usize = 0;
    while i < names.len()
        invariant
            0 <= i <= names.len(),
            all == names_view(names@),
            index_of(all.take(i as int), name@) is None,
        decreases names.len() - i,
    {
        proof {
            assert(all.take(i + 1).drop_last() =~= all.take(i as int));
        }
        if names[i] == *name {
            proof {
                lemma_index_of_prefix(all, i + 1, name@);
            }
            return Some(i);
        }
        i = i + 1;
    }
    proof {
        assert(all.take(i as int) =~= all);
    }
    None
}

/// Whether no name of the list occurs twice.
pub fn all_distinct(names: &Vec<String>) -> (r: bool)
    ensures
        r == distinct(names_view(names@)),
{
    let ghost all = names_view(names@);
    let mut j: usize = 0;
    while j < names.len()
        invariant
            0 <= j <= names.len(),
            all == names_view(names@),
            forall|a: int, b: int| 0 <= a < b < j ==> all[a] != all[b],
        decreases names.len() - j,
    {
        let mut i: usize = 0;
        while i < j
            invariant
                0 <= i <= j < names.len(),
                all == names_view(names@),
                forall|a: int| 0 <= a < i ==> all[a] != all[j as int],
            decreases j - i,
        {
            if names[i] == names[j] {
                assert(all[i as int] == all[j as int]);
                return false;
            }
            i = i + 1;
        }
        j = j + 1;
    }
    true
}

} // verus!
