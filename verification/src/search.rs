//! Finding the first element of a sequence that satisfies a predicate.

use vstd::prelude::*;

verus! {

/// `i` is the first position whose element satisfies `p`.
pub open spec fn is_first_match<T>(s: Seq<T>, p: spec_fn(T) -> bool, i: int) -> bool {
    &&& 0 <= i < s.len()
    &&& p(s[i])
    &&& forall|j: int| 0 <= j < i ==> !p(#[trigger] s[j])
}

/// The first position whose element satisfies `p`, if any does.
pub open spec fn first_match<T>(s: Seq<T>, p: spec_fn(T) -> bool) -> Option<int> {
    if exists|i: int| is_first_match(s, p, i) {
        Some(choose|i: int| is_first_match(s, p, i))
    } else {
        None
    }
}

/// A position that is a first match is the first match.
pub proof fn lemma_first_match_is<T>(s: Seq<T>, p: spec_fn(T) -> bool, i: int)
    requires
        is_first_match(s, p, i),
    ensures
        first_match(s, p) == Some(i),
{
    let k = choose|k: int| is_first_match(s, p, k);
    if k < i {
        assert(!p(s[k]));
    } else if i < k {
        assert(!p(s[i]));
    }
}

/// Where no element satisfies `p` there is no first match.
pub proof fn lemma_first_match_none<T>(s: Seq<T>, p: spec_fn(T) -> bool)
    requires
        forall|j: int| 0 <= j < s.len() ==> !p(#[trigger] s[j]),
    ensures
        first_match(s, p) is None,
{
}

/// What a first match is: in range, satisfying `p`, with nothing before it
/// that does; and where there is none, nothing satisfies `p`.
pub proof fn lemma_first_match<T>(s: Seq<T>, p: spec_fn(T) -> bool)
    ensures
        match first_match(s, p) {
            Some(i) => is_first_match(s, p, i),
            None => forall|j: int| 0 <= j < s.len() ==> !p(#[trigger] s[j]),
        },
{
    if first_match(s, p) is None {
        assert forall|j: int| 0 <= j < s.len() implies !p(#[trigger] s[j]) by {
            if p(s[j]) {
                lemma_some_match_has_first(s, p, j);
            }
        }
    }
}

/// Where some element up to `j` satisfies `p`, a first match exists.
pub proof fn lemma_some_match_has_first<T>(s: Seq<T>, p: spec_fn(T) -> bool, j: int)
    requires
        0 <= j < s.len(),
        p(s[j]),
    ensures
        exists|i: int| is_first_match(s, p, i),
    decreases j,
{
    if exists|k: int| 0 <= k < j && p(#[trigger] s[k]) {
        let k = choose|k: int| 0 <= k < j && p(#[trigger] s[k]);
        lemma_some_match_has_first(s, p, k);
    } else {
        assert(is_first_match(s, p, j));
    }
}

/// Replacing an element that does not satisfy `p` by another that does not
/// leaves the first match where it is.
pub proof fn lemma_first_match_update_miss<T>(s: Seq<T>, p: spec_fn(T) -> bool, i: int, x: T)
    requires
        0 <= i < s.len(),
        !p(s[i]),
        !p(x),
    ensures
        first_match(s.update(i, x), p) == first_match(s, p),
{
    lemma_first_match(s, p);
    let t = s.update(i, x);
    match first_match(s, p) {
        Some(m) => {
            assert forall|j: int| 0 <= j < m implies !p(#[trigger] t[j]) by {
                if j != i {
                    assert(t[j] == s[j]);
                }
            }
            assert(t[m] == s[m]);
            assert(is_first_match(t, p, m));
            lemma_first_match_is(t, p, m);
        },
        None => {
            assert forall|j: int| 0 <= j < t.len() implies !p(#[trigger] t[j]) by {
                if j != i {
                    assert(t[j] == s[j]);
                }
            }
            lemma_first_match_none(t, p);
        },
    }
}

/// Replacing the first match by another element that satisfies `p` leaves
/// the first match where it is.
pub proof fn lemma_first_match_update_hit<T>(s: Seq<T>, p: spec_fn(T) -> bool, i: int, x: T)
    requires
        first_match(s, p) == Some(i),
        p(x),
    ensures
        first_match(s.update(i, x), p) == Some(i),
{
    lemma_first_match(s, p);
    let t = s.update(i, x);
    assert forall|j: int| 0 <= j < i implies !p(#[trigger] t[j]) by {
        assert(t[j] == s[j]);
    }
    assert(is_first_match(t, p, i));
    lemma_first_match_is(t, p, i);
}

/// Adding an element that does not satisfy `p` at the end leaves the first
/// match where it is.
pub proof fn lemma_first_match_push_miss<T>(s: Seq<T>, p: spec_fn(T) -> bool, x: T)
    requires
        !p(x),
    ensures
        first_match(s.push(x), p) == first_match(s, p),
{
    lemma_first_match(s, p);
    let t = s.push(x);
    match first_match(s, p) {
        Some(m) => {
            assert forall|j: int| 0 <= j < m implies !p(#[trigger] t[j]) by {
                assert(t[j] == s[j]);
            }
            assert(t[m] == s[m]);
            assert(is_first_match(t, p, m));
            lemma_first_match_is(t, p, m);
        },
        None => {
            assert forall|j: int| 0 <= j < t.len() implies !p(#[trigger] t[j]) by {
                if j < s.len() {
                    assert(t[j] == s[j]);
                }
            }
            lemma_first_match_none(t, p);
        },
    }
}

/// Where nothing satisfies `p`, an element added at the end that does is
/// the first match.
pub proof fn lemma_first_match_push_hit<T>(s: Seq<T>, p: spec_fn(T) -> bool, x: T)
    requires
        first_match(s, p) is None,
        p(x),
    ensures
        first_match(s.push(x), p) == Some(s.len() as int),
{
    lemma_first_match(s, p);
    let t = s.push(x);
    assert forall|j: int| 0 <= j < s.len() implies !p(#[trigger] t[j]) by {
        assert(t[j] == s[j]);
    }
    assert(is_first_match(t, p, s.len() as int));
    lemma_first_match_is(t, p, s.len() as int);
}

/// Removing an element that does not satisfy `p` moves the first match
/// along with the elements behind the gap.
pub proof fn lemma_first_match_remove_miss<T>(s: Seq<T>, p: spec_fn(T) -> bool, i: int)
    requires
        0 <= i < s.len(),
        !p(s[i]),
    ensures
        first_match(s.remove(i), p) == match first_match(s, p) {
            Some(m) => Some(
                if m > i {
                    m - 1
                } else {
                    m
                },
            ),
            None => None,
        },
        first_match(s, p) matches Some(m) ==> s.remove(i)[if m > i {
            m - 1
        } else {
            m
        }] == s[m],
{
    lemma_first_match(s, p);
    let t = s.remove(i);
    match first_match(s, p) {
        Some(m) => {
            let m2 = if m > i {
                m - 1
            } else {
                m
            };
            assert(t[m2] == s[m]);
            assert forall|j: int| 0 <= j < m2 implies !p(#[trigger] t[j]) by {
                if j < i {
                    assert(t[j] == s[j]);
                } else {
                    assert(t[j] == s[j + 1]);
                }
            }
            assert(is_first_match(t, p, m2));
            lemma_first_match_is(t, p, m2);
        },
        None => {
            assert forall|j: int| 0 <= j < t.len() implies !p(#[trigger] t[j]) by {
                if j < i {
                    assert(t[j] == s[j]);
                } else {
                    assert(t[j] == s[j + 1]);
                }
            }
            lemma_first_match_none(t, p);
        },
    }
}

/// Where at most one element satisfies `p`, none does once the first match
/// is removed.
pub proof fn lemma_first_match_remove_hit<T>(s: Seq<T>, p: spec_fn(T) -> bool, i: int)
    requires
        first_match(s, p) == Some(i),
        forall|a: int, b: int| 0 <= a < b < s.len() ==> !(p(#[trigger] s[a]) && p(#[trigger] s[b])),
    ensures
        first_match(s.remove(i), p) is None,
{
    lemma_first_match(s, p);
    let t = s.remove(i);
    assert forall|j: int| 0 <= j < t.len() implies !p(#[trigger] t[j]) by {
        if j < i {
            assert(t[j] == s[j]);
        } else {
            assert(t[j] == s[j + 1]);
            assert(!(p(s[i]) && p(s[j + 1])));
        }
    }
    lemma_first_match_none(t, p);
}

} // verus!
