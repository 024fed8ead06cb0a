//! First-match search over a sequence, described by a spec-level predicate.
//!
//! The stores resolve every key by a linear scan; these definitions give each
//! scan a deterministic mathematical meaning (the least index whose element
//! satisfies the predicate) that the store contracts are stated over.

use vstd::prelude::*;

verus! {

/// The least index of `s` whose element satisfies `p`, if any.
pub open spec fn first_match<T>(s: Seq<T>, p: spec_fn(T) -> bool) -> Option<int>
    decreases s.len(),
{
    if s.len() == 0 {
        None
    } else if p(s[0]) {
        Some(0int)
    } else {
        match first_match(s.drop_first(), p) {
            Some(j) => Some(j + 1),
            None => None,
        }
    }
}

/// `first_match` returns the least matching index, and `None` exactly when
/// nothing matches.
pub proof fn lemma_first_match<T>(s: Seq<T>, p: spec_fn(T) -> bool)
    ensures
        match first_match(s, p) {
            Some(i) => 0 <= i < s.len() && p(s[i]) && (forall|j: int|
                0 <= j < i ==> !p(#[trigger] s[j])),
            None => forall|j: int| 0 <= j < s.len() ==> !p(#[trigger] s[j]),
        },
    decreases s.len(),
{
    if s.len() > 0 && !p(s[0]) {
        let rest = s.drop_first();
        lemma_first_match(rest, p);
        assert(forall|j: int| 0 <= j < rest.len() ==> #[trigger] rest[j] == s[j + 1]);
        match first_match(rest, p) {
            Some(i) => {
                assert(p(rest[i]));
                assert(rest[i] == s[i + 1]);
                assert forall|j: int| 0 <= j < i + 1 implies !p(#[trigger] s[j]) by {
                    if j > 0 {
                        assert(rest[j - 1] == s[j]);
                        assert(!p(rest[j - 1]));
                    }
                }
            },
            None => {
                assert forall|j: int| 0 <= j < s.len() implies !p(#[trigger] s[j]) by {
                    if j > 0 {
                        assert(rest[j - 1] == s[j]);
                        assert(!p(rest[j - 1]));
                    }
                }
            },
        }
    }
}

/// If `i` is a matching index with no match before it, it is the first match.
pub proof fn lemma_first_match_at<T>(s: Seq<T>, p: spec_fn(T) -> bool, i: int)
    requires
        0 <= i < s.len(),
        p(s[i]),
        forall|j: int| 0 <= j < i ==> !p(#[trigger] s[j]),
    ensures
        first_match(s, p) == Some(i),
{
    lemma_first_match(s, p);
    match first_match(s, p) {
        Some(k) => {
            if k < i {
                assert(!p(s[k]));
            }
            if k > i {
                assert(!p(s[i]));
            }
        },
        None => {
            assert(!p(s[i]));
        },
    }
}

/// How `first_match` behaves when an element is appended: an existing first
/// match is kept; otherwise the new element is found exactly when it matches.
pub proof fn lemma_first_match_push<T>(s: Seq<T>, p: spec_fn(T) -> bool, x: T)
    ensures
        first_match(s, p) matches Some(i) ==> first_match(s.push(x), p) == Some(i),
        first_match(s, p) is None && p(x) ==> first_match(s.push(x), p) == Some(s.len() as int),
        first_match(s, p) is None && !p(x) ==> first_match(s.push(x), p) is None,
{
    lemma_first_match(s, p);
    assert(forall|j: int| 0 <= j < s.len() ==> #[trigger] s.push(x)[j] == s[j]);
    match first_match(s, p) {
        Some(i) => {
            lemma_first_match_at(s.push(x), p, i);
        },
        None => {
            if p(x) {
                lemma_first_match_at(s.push(x), p, s.len() as int);
            } else {
                lemma_first_match_none(s.push(x), p);
            }
        },
    }
}

/// Replacing an element with one that matches the same way leaves the first
/// match where it was.
pub proof fn lemma_first_match_update<T>(s: Seq<T>, p: spec_fn(T) -> bool, i: int, x: T)
    requires
        0 <= i < s.len(),
        p(x) == p(s[i]),
    ensures
        first_match(s.update(i, x), p) == first_match(s, p),
{
    lemma_first_match(s, p);
    assert(forall|j: int|
        0 <= j < s.len() && j != i ==> #[trigger] s.update(i, x)[j] == s[j]);
    assert(s.update(i, x)[i] == x);
    match first_match(s, p) {
        Some(k) => {
            assert(p(s.update(i, x)[k]));
            lemma_first_match_at(s.update(i, x), p, k);
        },
        None => {
            lemma_first_match_none(s.update(i, x), p);
        },
    }
}

/// `first_match` finds something exactly when a match exists.
pub proof fn lemma_first_match_exists<T>(s: Seq<T>, p: spec_fn(T) -> bool)
    ensures
        (first_match(s, p) is Some) <==> (exists|j: int|
            0 <= j < s.len() && p(#[trigger] s[j])),
{
    lemma_first_match(s, p);
    match first_match(s, p) {
        Some(i) => {
            assert(p(s[i]));
        },
        None => {},
    }
}

/// If nothing matches, `first_match` is `None`.
pub proof fn lemma_first_match_none<T>(s: Seq<T>, p: spec_fn(T) -> bool)
    requires
        forall|j: int| 0 <= j < s.len() ==> !p(#[trigger] s[j]),
    ensures
        first_match(s, p) is None,
{
    lemma_first_match(s, p);
    match first_match(s, p) {
        Some(i) => {
            assert(!p(s[i]));
        },
        None => {},
    }
}

} // verus!
