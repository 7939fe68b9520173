//! Lists of names (capabilities, operating systems, makes): membership,
//! copies, selection and order.

use vstd::prelude::*;

verus! {

/// `a` comes no later than `b` in the order of strings: code point by code
/// point, a proper prefix first.
pub open spec fn text_le(a: Seq<char>, b: Seq<char>) -> bool
    decreases a.len(),
{
    if a.len() == 0 {
        true
    } else if b.len() == 0 {
        false
    } else if a[0] != b[0] {
        (a[0] as u32) < (b[0] as u32)
    } else {
        text_le(a.skip(1), b.skip(1))
    }
}

/// The names stand in ascending order.
pub open spec fn ascending(names: Seq<Seq<char>>) -> bool {
    forall|i: int, j: int| 0 <= i <= j < names.len() ==> text_le(names[i], names[j])
}

/// The names of `names` that `known` lists, in the order of `names`.
pub open spec fn known_names(names: Seq<Seq<char>>, known: Seq<Seq<char>>) -> Seq<Seq<char>>
    decreases names.len(),
{
    if names.len() == 0 {
        Seq::empty()
    } else {
        let rest = known_names(names.drop_last(), known);
        if known.contains(names.last()) {
            rest.push(names.last())
        } else {
            rest
        }
    }
}

/// The names of `names` that `known` does not list but `also` does, in the
/// order of `names`.
pub open spec fn other_names(
    names: Seq<Seq<char>>,
    known: Seq<Seq<char>>,
    also: Seq<Seq<char>>,
) -> Seq<Seq<char>>
    decreases names.len(),
{
    if names.len() == 0 {
        Seq::empty()
    } else {
        let rest = other_names(names.drop_last(), known, also);
        if !known.contains(names.last()) && also.contains(names.last()) {
            rest.push(names.last())
        } else {
            rest
        }
    }
}

/// The names without the empty ones, in the same order.
pub open spec fn non_empty_names(names: Seq<Seq<char>>) -> Seq<Seq<char>>
    decreases names.len(),
{
    if names.len() == 0 {
        Seq::empty()
    } else {
        let rest = non_empty_names(names.drop_last());
        if names.last().len() > 0 {
            rest.push(names.last())
        } else {
            rest
        }
    }
}

/// `<[String]>::sort`: puts the names in ascending order of strings, which
/// compares them byte by byte and so code point by code point; the names
/// themselves stay the same, each as often as before.
#[verifier::external_body]
pub(crate) fn sort_names(names: &mut Vec<String>)
    ensures
        ascending(final(names).deep_view()),
        final(names).deep_view().to_multiset() == old(names).deep_view().to_multiset(),
{
    names.sort()
}

/// Whether `list` holds `name`.
pub fn contains_name(list: &Vec<String>, name: &str) -> (found: bool)
    ensures
        found == list.deep_view().contains(name@),
{
    let wanted = name.to_owned();
    let ghost all = list.deep_view();
    let mut i: usize = 0;
    while i < list.len()
        invariant
            0 <= i <= list.len(),
            all == list.deep_view(),
            wanted@ == name@,
            forall|j: int| 0 <= j < i ==> all[j] != name@,
        decreases list.len() - i,
    {
        if list[i] == wanted {
            assert(all[i as int] == name@);
            return true;
        }
        i = i + 1;
    }
    false
}

/// An independent copy of `list`.
pub fn clone_names(list: &Vec<String>) -> (copy: Vec<String>)
    ensures
        copy.deep_view() == list.deep_view(),
{
    let mut copy: Vec<String> = Vec::new();
    let mut i: usize = 0;
    while i < list.len()
        invariant
            0 <= i <= list.len(),
            copy.len() == i,
            forall|j: int| 0 <= j < i ==> (#[trigger] copy[j])@ == list[j]@,
        decreases list.len() - i,
    {
        copy.push(list[i].clone());
        i = i + 1;
    }
    assert(copy.deep_view() =~= list.deep_view());
    copy
}

/// An independent copy of an optional list.
pub fn clone_optional_names(list: &Option<Vec<String>>) -> (copy: Option<Vec<String>>)
    ensures
        copy.deep_view() == list.deep_view(),
{
    match list {
        Some(names) => Some(clone_names(names)),
        None => None,
    }
}

/// The names of `names` that `known` lists, in the order of `names`.
pub fn keep_known(names: &Vec<&str>, known: &Vec<String>) -> (kept: Vec<String>)
    ensures
        kept.deep_view() == known_names(names.deep_view(), known.deep_view()),
{
    let ghost all = names.deep_view();
    let mut kept: Vec<String> = Vec::new();
    let mut i: usize = 0;
    while i < names.len()
        invariant
            0 <= i <= names.len(),
            all == names.deep_view(),
            kept.deep_view() == known_names(all.take(i as int), known.deep_view()),
        decreases names.len() - i,
    {
        let ghost before = kept.deep_view();
        proof {
            let upto = all.take(i as int + 1);
            assert(upto.last() == names[i as int]@);
            assert(upto.drop_last() =~= all.take(i as int));
        }
        if contains_name(known, names[i]) {
            kept.push(names[i].to_owned());
            assert(kept.deep_view() =~= before.push(names[i as int]@));
        }
        i = i + 1;
    }
    proof {
        assert(all.take(names.len() as int) =~= all);
    }
    kept
}

/// The names of `names` that `known` does not list but `also` does, in the
/// order of `names`.
pub fn keep_other(names: &Vec<&str>, known: &Vec<String>, also: &Vec<String>) -> (kept: Vec<String>)
    ensures
        kept.deep_view() == other_names(names.deep_view(), known.deep_view(), also.deep_view()),
{
    let ghost all = names.deep_view();
    let mut kept: Vec<String> = Vec::new();
    let mut i: usize = 0;
    while i < names.len()
        invariant
            0 <= i <= names.len(),
            all == names.deep_view(),
            kept.deep_view() == other_names(
                all.take(i as int),
                known.deep_view(),
                also.deep_view(),
            ),
        decreases names.len() - i,
    {
        let ghost before = kept.deep_view();
        proof {
            let upto = all.take(i as int + 1);
            assert(upto.last() == names[i as int]@);
            assert(upto.drop_last() =~= all.take(i as int));
        }
        if !contains_name(known, names[i]) && contains_name(also, names[i]) {
            kept.push(names[i].to_owned());
            assert(kept.deep_view() =~= before.push(names[i as int]@));
        }
        i = i + 1;
    }
    proof {
        assert(all.take(names.len() as int) =~= all);
    }
    kept
}

/// The names of `list` that are not empty, in the same order.
pub fn keep_non_empty(list: &Vec<String>) -> (kept: Vec<String>)
    ensures
        kept.deep_view() == non_empty_names(list.deep_view()),
{
    let ghost all = list.deep_view();
    let mut kept: Vec<String> = Vec::new();
    let mut i: usize = 0;
    while i < list.len()
        invariant
            0 <= i <= list.len(),
            all == list.deep_view(),
            kept.deep_view() == non_empty_names(all.take(i as int)),
        decreases list.len() - i,
    {
        let ghost before = kept.deep_view();
        proof {
            let upto = all.take(i as int + 1);
            assert(upto.last() == list[i as int]@);
            assert(upto.drop_last() =~= all.take(i as int));
        }
        if !list[i].as_str().is_empty() {
            kept.push(list[i].clone());
            assert(kept.deep_view() =~= before.push(list[i as int]@));
        }
        i = i + 1;
    }
    proof {
        assert(all.take(list.len() as int) =~= all);
    }
    kept
}

} // verus!
