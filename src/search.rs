use vstd::prelude::*;

verus! {

/// `i` is the first index at or after `from` whose element satisfies `p`.
pub open spec fn is_first_from<A>(s: Seq<A>, from: int, p: spec_fn(A) -> bool, i: int) -> bool {
    &&& from <= i < s.len()
    &&& p(s[i])
    &&& forall|j: int| from <= j < i ==> !p(#[trigger] s[j])
}

/// The first index at or after `from` whose element satisfies `p`, or the
/// length of `s` where there is none.
pub open spec fn first_from<A>(s: Seq<A>, from: int, p: spec_fn(A) -> bool) -> int {
    if exists|i: int| is_first_from(s, from, p, i) {
        choose|i: int| is_first_from(s, from, p, i)
    } else {
        s.len() as int
    }
}

pub proof fn lemma_first_from_is<A>(s: Seq<A>, from: int, p: spec_fn(A) -> bool, i: int)
    requires
        is_first_from(s, from, p, i),
    ensures
        first_from(s, from, p) == i,
{
    let k = first_from(s, from, p);
    assert(is_first_from(s, from, p, k));
    if k < i {
        assert(!p(s[k]));
    } else if k > i {
        assert(!p(s[i]));
    }
}

pub proof fn lemma_first_from_none<A>(s: Seq<A>, from: int, p: spec_fn(A) -> bool)
    requires
        forall|j: int| from <= j < s.len() ==> !p(#[trigger] s[j]),
    ensures
        first_from(s, from, p) == s.len(),
{
    if exists|i: int| is_first_from(s, from, p, i) {
        let k = choose|i: int| is_first_from(s, from, p, i);
        assert(p(s[k]));
    }
}

/// What `first_from` returns: either a first match, or the length when
/// nothing from `from` on matches.
pub proof fn lemma_first_from_cases<A>(s: Seq<A>, from: int, p: spec_fn(A) -> bool)
    requires
        0 <= from <= s.len(),
    ensures
        first_from(s, from, p) == s.len() ==> forall|j: int|
            from <= j < s.len() ==> !p(#[trigger] s[j]),
        first_from(s, from, p) < s.len() ==> is_first_from(s, from, p, first_from(s, from, p)),
        from <= first_from(s, from, p) <= s.len(),
{
    if exists|i: int| is_first_from(s, from, p, i) {
    } else {
        assert forall|j: int| from <= j < s.len() implies !p(#[trigger] s[j]) by {
            if p(s[j]) {
                lemma_first_exists(s, from, p, j);
            }
        }
    }
}

proof fn lemma_first_exists<A>(s: Seq<A>, from: int, p: spec_fn(A) -> bool, j: int)
    requires
        from <= j < s.len(),
        p(s[j]),
    ensures
        exists|i: int| is_first_from(s, from, p, i),
    decreases j - from,
{
    if forall|m: int| from <= m < j ==> !p(#[trigger] s[m]) {
        assert(is_first_from(s, from, p, j));
    } else {
        let m = choose|m: int| from <= m < j && p(#[trigger] s[m]);
        lemma_first_exists(s, from, p, m);
    }
}

} // verus!
