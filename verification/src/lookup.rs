//! Finding the first element of a sequence that carries a given name.
use vstd::prelude::*;

verus! {

/// The index of the first name in `names` equal to `name`, if any.
pub open spec fn first_index_of(names: Seq<Seq<char>>, name: Seq<char>) -> Option<int>
    decreases names.len(),
{
    if names.len() == 0 {
        None
    } else if names[0] == name {
        Some(0)
    } else {
        match first_index_of(names.drop_first(), name) {
            Some(i) => Some(i + 1),
            None => None,
        }
    }
}

/// The first match is found where it stands.
pub proof fn lemma_first_index_found(names: Seq<Seq<char>>, name: Seq<char>, i: int)
    requires
        0 <= i < names.len(),
        names[i] == name,
        forall|j: int| 0 <= j < i ==> names[j] != name,
    ensures
        first_index_of(names, name) == Some(i),
    decreases names.len(),
{
    if i > 0 {
        lemma_first_index_found(names.drop_first(), name, i - 1);
    }
}

/// Without a match there is no first match.
pub proof fn lemma_first_index_absent(names: Seq<Seq<char>>, name: Seq<char>)
    requires
        forall|j: int| 0 <= j < names.len() ==> names[j] != name,
    ensures
        first_index_of(names, name) is None,
    decreases names.len(),
{
    if names.len() > 0 {
        lemma_first_index_absent(names.drop_first(), name);
    }
}

/// A first match is a match, and nothing before it matches.
pub proof fn lemma_first_index_properties(names: Seq<Seq<char>>, name: Seq<char>)
    ensures
        match first_index_of(names, name) {
            Some(i) => 0 <= i < names.len() && names[i] == name && forall|j: int|
                0 <= j < i ==> names[j] != name,
            None => forall|j: int| 0 <= j < names.len() ==> names[j] != name,
        },
    decreases names.len(),
{
    if names.len() > 0 {
        lemma_first_index_properties(names.drop_first(), name);
        assert forall|j: int| 1 <= j < names.len() implies names[j] == names.drop_first()[j - 1] by {}
    }
}

/// The index of the first element of `s` that satisfies `p`, if any.
pub open spec fn first_match<T>(s: Seq<T>, p: spec_fn(T) -> bool) -> Option<int> {
    if exists|i: int| 0 <= i < s.len() && p(s[i]) {
        Some(
            choose|i: int|
                0 <= i < s.len() && p(s[i]) && forall|j: int| 0 <= j < i ==> !p(#[trigger] s[j]),
        )
    } else {
        None
    }
}

/// The first element that satisfies `p` is the one found.
pub proof fn lemma_first_match_found<T>(s: Seq<T>, p: spec_fn(T) -> bool, i: int)
    requires
        0 <= i < s.len(),
        p(s[i]),
        forall|j: int| 0 <= j < i ==> !p(#[trigger] s[j]),
    ensures
        first_match(s, p) == Some(i),
{
    let k = choose|k: int|
        0 <= k < s.len() && p(s[k]) && forall|j: int| 0 <= j < k ==> !p(#[trigger] s[j]);
    assert(0 <= k < s.len() && p(s[k]) && forall|j: int| 0 <= j < k ==> !p(#[trigger] s[j]));
    if k < i {
        assert(!p(s[k]));
    }
    if k > i {
        assert(!p(s[i]));
    }
}

/// Where nothing satisfies `p`, nothing is found.
pub proof fn lemma_first_match_absent<T>(s: Seq<T>, p: spec_fn(T) -> bool)
    requires
        forall|j: int| 0 <= j < s.len() ==> !p(#[trigger] s[j]),
    ensures
        first_match(s, p) is None,
{
}

/// A first match satisfies `p`, and nothing before it does; without one, nothing does.
pub proof fn lemma_first_match_properties<T>(s: Seq<T>, p: spec_fn(T) -> bool)
    ensures
        match first_match(s, p) {
            Some(i) => 0 <= i < s.len() && p(s[i]) && forall|j: int| 0 <= j < i ==> !p(#[trigger] s[j]),
            None => forall|j: int| 0 <= j < s.len() ==> !p(#[trigger] s[j]),
        },
{
    if exists|i: int| 0 <= i < s.len() && p(s[i]) {
        let w = choose|i: int| 0 <= i < s.len() && p(s[i]);
        lemma_least_witness(s, p, w);
    }
}

proof fn lemma_least_witness<T>(s: Seq<T>, p: spec_fn(T) -> bool, w: int)
    requires
        0 <= w < s.len(),
        p(s[w]),
    ensures
        exists|i: int|
            0 <= i < s.len() && p(s[i]) && forall|j: int| 0 <= j < i ==> !p(#[trigger] s[j]),
    decreases w,
{
    if exists|j: int| 0 <= j < w && p(s[j]) {
        let j = choose|j: int| 0 <= j < w && p(s[j]);
        lemma_least_witness(s, p, j);
    } else {
        assert(forall|j: int| 0 <= j < w ==> !p(#[trigger] s[j]));
    }
}

} // verus!
