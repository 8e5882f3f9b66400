//! Sets of group names kept as lists without duplicates.
use vstd::prelude::*;
use crate::text::strings_view;

verus! {

/// `names` without any occurrence of `n`, order kept.
pub open spec fn remove_name(names: Seq<Seq<char>>, n: Seq<char>) -> Seq<Seq<char>>
    decreases names.len(),
{
    if names.len() == 0 {
        seq![]
    } else {
        let rest = remove_name(names.drop_last(), n);
        if names.last() == n {
            rest
        } else {
            rest.push(names.last())
        }
    }
}

/// `names` with `n` added at the end unless already present.
pub open spec fn insert_name(names: Seq<Seq<char>>, n: Seq<char>) -> Seq<Seq<char>> {
    if names.contains(n) {
        names
    } else {
        names.push(n)
    }
}

/// No name occurs twice.
pub open spec fn distinct_names(names: Seq<Seq<char>>) -> bool {
    forall|i: int, j: int| 0 <= i < j < names.len() ==> names[i] != names[j]
}

pub proof fn lemma_remove_name(names: Seq<Seq<char>>, n: Seq<char>)
    ensures
        !remove_name(names, n).contains(n),
        forall|m: Seq<char>| m != n ==> (remove_name(names, n).contains(m) <==> names.contains(m)),
        distinct_names(names) ==> distinct_names(remove_name(names, n)),
    decreases names.len(),
{
    if names.len() > 0 {
        let rest = names.drop_last();
        lemma_remove_name(rest, n);
        let r = remove_name(rest, n);
        assert forall|m: Seq<char>| m != n implies (remove_name(names, n).contains(m)
            <==> names.contains(m)) by {
            if names.contains(m) {
                let k = choose|k: int| 0 <= k < names.len() && names[k] == m;
                if k < names.len() - 1 {
                    assert(rest[k] == m);
                    assert(rest.contains(m));
                    assert(r.contains(m));
                    if names.last() != n {
                        let j = choose|j: int| 0 <= j < r.len() && r[j] == m;
                        assert(r.push(names.last())[j] == m);
                    }
                } else {
                    assert(names.last() == m);
                    assert(r.push(names.last())[r.len() as int] == m);
                }
            }
            if remove_name(names, n).contains(m) {
                if names.last() == n {
                    assert(r.contains(m));
                } else {
                    let j = choose|j: int|
                        0 <= j < r.push(names.last()).len() && r.push(names.last())[j] == m;
                    if j < r.len() {
                        assert(r[j] == m);
                        assert(r.contains(m));
                    } else {
                        assert(names[names.len() - 1] == m);
                    }
                }
                if r.contains(m) {
                    assert(rest.contains(m));
                    let k = choose|k: int| 0 <= k < rest.len() && rest[k] == m;
                    assert(names[k] == m);
                }
            }
        }
        if distinct_names(names) {
            assert(distinct_names(rest));
            if names.last() != n {
                assert(!rest.contains(names.last()));
            }
        }
    }
}

pub proof fn lemma_insert_name(names: Seq<Seq<char>>, n: Seq<char>)
    ensures
        insert_name(names, n).contains(n),
        forall|m: Seq<char>| m != n ==> (insert_name(names, n).contains(m) <==> names.contains(m)),
        distinct_names(names) ==> distinct_names(insert_name(names, n)),
{
    if !names.contains(n) {
        assert(names.push(n)[names.len() as int] == n);
        assert forall|m: Seq<char>| m != n implies (names.push(n).contains(m) <==> names.contains(
            m,
        )) by {
            if names.push(n).contains(m) {
                let k = choose|k: int| 0 <= k < names.push(n).len() && names.push(n)[k] == m;
                assert(names[k] == m);
            }
            if names.contains(m) {
                let k = choose|k: int| 0 <= k < names.len() && names[k] == m;
                assert(names.push(n)[k] == m);
            }
        }
    }
}

/// Whether the list holds `n`.
pub fn contains_name(names: &Vec<String>, n: &String) -> (r: bool)
    ensures
        r == strings_view(names@).contains(n@),
{
    let ghost view = strings_view(names@);
    let mut i: usize = 0;
    while i < names.len()
        invariant
            view == strings_view(names@),
            i <= names@.len(),
            forall|k: int| 0 <= k < i ==> view[k] != n@,
        decreases names@.len() - i,
    {
        if names[i] == *n {
            assert(view[i as int] == n@);
            return true;
        }
        i = i + 1;
    }
    false
}

/// Removes every occurrence of `n`.
pub fn remove_names(names: &mut Vec<String>, n: &String)
    ensures
        strings_view(final(names)@) == remove_name(strings_view(old(names)@), n@),
{
    let ghost view = strings_view(names@);
    let mut out: Vec<String> = Vec::new();
    let mut i: usize = 0;
    while i < names.len()
        invariant
            view == strings_view(names@),
            *names == *old(names),
            i <= names@.len(),
            strings_view(out@) == remove_name(view.take(i as int), n@),
        decreases names@.len() - i,
    {
        let ghost before = out@;
        assert(view.take(i + 1).drop_last() =~= view.take(i as int));
        if names[i] != *n {
            out.push(names[i].clone());
            assert(strings_view(out@) =~= strings_view(before).push(view[i as int]));
        }
        i = i + 1;
    }
    assert(view.take(view.len() as int) =~= view);
    *names = out;
}

/// Adds `n` at the end unless it is already present.
pub fn insert_names(names: &mut Vec<String>, n: &String)
    ensures
        strings_view(final(names)@) == insert_name(strings_view(old(names)@), n@),
{
    if !contains_name(names, n) {
        let ghost before = names@;
        names.push(n.clone());
        assert(strings_view(names@) =~= strings_view(before).push(n@));
    }
}

} // verus!
