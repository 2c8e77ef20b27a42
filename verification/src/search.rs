//! Searching and filtering sequences.

use vstd::prelude::*;

verus! {

/// The first index from `k` on whose element satisfies `p`.
pub open spec fn first_from<T>(s: Seq<T>, p: spec_fn(T) -> bool, k: int) -> Option<int>
    decreases s.len() - k,
{
    if k < 0 || k >= s.len() {
        None
    } else if p(s[k]) {
        Some(k)
    } else {
        first_from(s, p, k + 1)
    }
}

/// The first index whose element satisfies `p`.
pub open spec fn first<T>(s: Seq<T>, p: spec_fn(T) -> bool) -> Option<int> {
    first_from(s, p, 0)
}

/// What [`first_from`] finds satisfies `p`, and nothing between `k` and it does. It finds nothing
/// only where there is nothing.
pub proof fn lemma_first_from<T>(s: Seq<T>, p: spec_fn(T) -> bool, k: int)
    requires
        0 <= k,
    ensures
        first_from(s, p, k) matches Some(i) ==> k <= i < s.len() && p(s[i]) && forall|j: int|
            k <= j < i ==> !p(#[trigger] s[j]),
        first_from(s, p, k) is None ==> forall|j: int| k <= j < s.len() ==> !p(#[trigger] s[j]),
    decreases s.len() - k,
{
    if k < s.len() && !p(s[k]) {
        lemma_first_from(s, p, k + 1);
    }
}

/// What [`first`] finds satisfies `p`, and nothing before it does. It finds nothing only where
/// there is nothing.
pub proof fn lemma_first<T>(s: Seq<T>, p: spec_fn(T) -> bool)
    ensures
        first(s, p) matches Some(i) ==> 0 <= i < s.len() && p(s[i]) && forall|j: int|
            0 <= j < i ==> !p(#[trigger] s[j]),
        first(s, p) is None ==> forall|j: int| 0 <= j < s.len() ==> !p(#[trigger] s[j]),
{
    lemma_first_from(s, p, 0);
}

/// An index that satisfies `p`, with none before it that does, is the one that [`first`] finds.
pub proof fn lemma_first_is<T>(s: Seq<T>, p: spec_fn(T) -> bool, i: int)
    requires
        0 <= i < s.len(),
        p(s[i]),
        forall|j: int| 0 <= j < i ==> !p(#[trigger] s[j]),
    ensures
        first(s, p) == Some(i),
{
    lemma_first(s, p);
}

/// What is found in a sequence is found at the same place where one more element comes behind it.
pub proof fn lemma_first_of_more<T>(s: Seq<T>, p: spec_fn(T) -> bool)
    requires
        s.len() > 0,
    ensures
        first(s, p) == match first(s.drop_last(), p) {
            Some(i) => Some(i),
            None => if p(s.last()) {
                Some(s.len() - 1)
            } else {
                None
            },
        },
{
    let front = s.drop_last();
    lemma_first(front, p);
    lemma_first(s, p);
    assert forall|j: int| 0 <= j < front.len() implies #[trigger] s[j] == front[j] by {}
    if let Some(i) = first(front, p) {
        lemma_first_is(s, p, i);
    } else if p(s.last()) {
        lemma_first_is(s, p, s.len() - 1);
    }
}

/// Filtering a second time changes nothing.
pub proof fn lemma_filter_again<T>(s: Seq<T>, p: spec_fn(T) -> bool)
    ensures
        s.filter(p).filter(p) == s.filter(p),
    decreases s.len(),
{
    reveal(Seq::filter);
    if s.len() > 0 {
        lemma_filter_again(s.drop_last(), p);
        let rest = s.drop_last().filter(p);
        if p(s.last()) {
            assert(rest.push(s.last()).drop_last() =~= rest);
        }
    }
}

/// Filtering keeps exactly what satisfies the predicate.
pub proof fn lemma_filter_contains<T>(s: Seq<T>, p: spec_fn(T) -> bool, x: T)
    ensures
        s.filter(p).contains(x) <==> s.contains(x) && p(x),
    decreases s.len(),
{
    reveal(Seq::filter);
    if s.len() > 0 {
        let front = s.drop_last();
        let rest = front.filter(p);
        lemma_filter_contains(front, p, x);
        if s.contains(x) {
            let i = choose|i: int| 0 <= i < s.len() && s[i] == x;
            if i < front.len() {
                assert(front[i] == x);
            }
        }
        if front.contains(x) {
            let i = choose|i: int| 0 <= i < front.len() && front[i] == x;
            assert(s[i] == x);
        }
        if p(s.last()) {
            assert(s[s.len() - 1] == s.last());
            let all = rest.push(s.last());
            assert(all[rest.len() as int] == s.last());
            if rest.contains(x) {
                let i = choose|i: int| 0 <= i < rest.len() && rest[i] == x;
                assert(all[i] == x);
            }
            if all.contains(x) {
                let i = choose|i: int| 0 <= i < all.len() && all[i] == x;
                if i < rest.len() {
                    assert(rest[i] == x);
                }
            }
        }
    }
}

} // verus!
