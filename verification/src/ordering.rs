//! Stable sorting by a text key, as a mathematical function on sequences,
//! with the facts that make it a sort: its result is ordered, holds exactly
//! the elements it was given, and keeps elements with equal keys in the order
//! in which they came.

use crate::text::{lemma_text_le_total, lemma_text_le_transitive, text_le};
use vstd::prelude::*;

verus! {

/// The keys along `s` never go down.
pub open spec fn sorted_by<A>(s: Seq<A>, key: spec_fn(A) -> Seq<char>) -> bool {
    forall|i: int, j: int| 0 <= i <= j < s.len() ==> text_le(key(s[i]), key(s[j]))
}

/// Where an element with key `k` goes into `s`: just past the last element
/// whose key is at most `k`.
pub open spec fn insert_pos<A>(s: Seq<A>, key: spec_fn(A) -> Seq<char>, k: Seq<char>) -> int
    decreases s.len(),
{
    if s.len() == 0 {
        0
    } else if text_le(key(s.last()), k) {
        s.len() as int
    } else {
        insert_pos(s.drop_last(), key, k)
    }
}

/// `s` with `x` put at its place.
pub open spec fn insert_sorted<A>(s: Seq<A>, key: spec_fn(A) -> Seq<char>, x: A) -> Seq<A> {
    s.insert(insert_pos(s, key, key(x)), x)
}

/// `s` sorted by key: its elements put at their places one after the other,
/// in the order in which they stand in `s`.
pub open spec fn stable_sort<A>(s: Seq<A>, key: spec_fn(A) -> Seq<char>) -> Seq<A>
    decreases s.len(),
{
    if s.len() == 0 {
        s
    } else {
        insert_sorted(stable_sort(s.drop_last(), key), key, s.last())
    }
}

/// The elements of `s` whose key is `k`, in order.
pub open spec fn with_key<A>(s: Seq<A>, key: spec_fn(A) -> Seq<char>, k: Seq<char>) -> Seq<A>
    decreases s.len(),
{
    if s.len() == 0 {
        s
    } else if key(s.last()) == k {
        with_key(s.drop_last(), key, k).push(s.last())
    } else {
        with_key(s.drop_last(), key, k)
    }
}

/// The place for `k` lies within `s`; what stands before it has a key at most
/// `k` where it is the nearest, and everything from it on has a greater key.
pub proof fn lemma_insert_pos<A>(s: Seq<A>, key: spec_fn(A) -> Seq<char>, k: Seq<char>)
    ensures
        0 <= insert_pos(s, key, k) <= s.len(),
        insert_pos(s, key, k) > 0 ==> text_le(key(s[insert_pos(s, key, k) - 1]), k),
        forall|j: int| insert_pos(s, key, k) <= j < s.len() ==> !text_le(key(#[trigger] s[j]), k),
    decreases s.len(),
{
    if s.len() > 0 && !text_le(key(s.last()), k) {
        let front = s.drop_last();
        lemma_insert_pos(front, key, k);
        assert forall|j: int| insert_pos(s, key, k) <= j < s.len() implies !text_le(
            key(#[trigger] s[j]),
            k,
        ) by {
            if j < front.len() {
                assert(s[j] == front[j]);
            }
        }
    }
}

/// Putting an element at its place keeps an ordered sequence ordered.
pub proof fn lemma_insert_sorted_keeps_order<A>(s: Seq<A>, key: spec_fn(A) -> Seq<char>, x: A)
    requires
        sorted_by(s, key),
    ensures
        sorted_by(insert_sorted(s, key, x), key),
{
    let p = insert_pos(s, key, key(x));
    let t = insert_sorted(s, key, x);
    lemma_insert_pos(s, key, key(x));
    assert forall|i: int, j: int| 0 <= i <= j < t.len() implies text_le(key(t[i]), key(t[j])) by {
        if i == j {
            crate::text::lemma_text_le_reflexive(key(t[i]));
        } else if j < p {
            assert(t[i] == s[i] && t[j] == s[j]);
        } else if j == p {
            // t[j] is x, t[i] stands before the place
            assert(t[i] == s[i]);
            assert(text_le(key(s[i]), key(s[p - 1])));
            lemma_text_le_transitive(key(s[i]), key(s[p - 1]), key(x));
        } else if i < p {
            assert(t[i] == s[i] && t[j] == s[j - 1]);
        } else if i == p {
            // t[i] is x, t[j] stands after the place
            assert(t[j] == s[j - 1]);
            assert(!text_le(key(s[p]), key(x)));
            lemma_text_le_total(key(s[p]), key(x));
            assert(text_le(key(s[p]), key(s[j - 1])));
            lemma_text_le_transitive(key(x), key(s[p]), key(s[j - 1]));
        } else {
            assert(t[i] == s[i - 1] && t[j] == s[j - 1]);
        }
    }
}

/// A sorted sequence is ordered.
pub proof fn lemma_stable_sort_is_sorted<A>(s: Seq<A>, key: spec_fn(A) -> Seq<char>)
    ensures
        sorted_by(stable_sort(s, key), key),
    decreases s.len(),
{
    if s.len() > 0 {
        lemma_stable_sort_is_sorted(s.drop_last(), key);
        lemma_insert_sorted_keeps_order(stable_sort(s.drop_last(), key), key, s.last());
    }
}

/// Sorting neither adds nor drops an element: the result holds each element
/// as often as the input does.
pub proof fn lemma_stable_sort_permutes<A>(s: Seq<A>, key: spec_fn(A) -> Seq<char>)
    ensures
        stable_sort(s, key).len() == s.len(),
        stable_sort(s, key).to_multiset() == s.to_multiset(),
    decreases s.len(),
{
    if s.len() > 0 {
        let rest = stable_sort(s.drop_last(), key);
        let p = insert_pos(rest, key, key(s.last()));
        lemma_stable_sort_permutes(s.drop_last(), key);
        lemma_insert_pos(rest, key, key(s.last()));
        vstd::seq_lib::to_multiset_insert(rest, p, s.last());
        vstd::seq_lib::to_multiset_build(s.drop_last(), s.last());
        assert(s =~= s.drop_last().push(s.last()));
    }
}

/// Sorting a sequence that is already ordered changes nothing.
pub proof fn lemma_stable_sort_of_sorted<A>(s: Seq<A>, key: spec_fn(A) -> Seq<char>)
    requires
        sorted_by(s, key),
    ensures
        stable_sort(s, key) == s,
    decreases s.len(),
{
    if s.len() > 0 {
        let front = s.drop_last();
        assert(sorted_by(front, key)) by {
            assert forall|i: int, j: int| 0 <= i <= j < front.len() implies text_le(
                key(front[i]),
                key(front[j]),
            ) by {
                assert(front[i] == s[i] && front[j] == s[j]);
            }
        }
        lemma_stable_sort_of_sorted(front, key);
        if front.len() > 0 {
            assert(front.last() == s[s.len() - 2]);
            assert(text_le(key(s[s.len() - 2]), key(s[s.len() - 1])));
        }
        assert(insert_pos(front, key, key(s.last())) == front.len());
        assert(front.insert(front.len() as int, s.last()) =~= s);
    }
}

/// Picking the elements with one key from two sequences joined is picking
/// them from each and joining the picks.
pub proof fn lemma_with_key_concat<A>(
    a: Seq<A>,
    b: Seq<A>,
    key: spec_fn(A) -> Seq<char>,
    k: Seq<char>,
)
    ensures
        with_key(a + b, key, k) == with_key(a, key, k) + with_key(b, key, k),
    decreases b.len(),
{
    if b.len() == 0 {
        assert(a + b =~= a);
        assert(with_key(a, key, k) + with_key(b, key, k) =~= with_key(a, key, k));
    } else {
        lemma_with_key_concat(a, b.drop_last(), key, k);
        assert((a + b).drop_last() =~= a + b.drop_last());
        assert((a + b).last() == b.last());
        if key(b.last()) == k {
            assert(with_key(a, key, k) + with_key(b.drop_last(), key, k).push(b.last()) =~= (
            with_key(a, key, k) + with_key(b.drop_last(), key, k)).push(b.last()));
        }
    }
}

/// The pick from a single element is that element or nothing.
pub proof fn lemma_with_key_single<A>(x: A, key: spec_fn(A) -> Seq<char>, k: Seq<char>)
    ensures
        with_key(seq![x], key, k) == if key(x) == k {
            seq![x]
        } else {
            Seq::<A>::empty()
        },
{
    let none = seq![x].drop_last();
    assert(none =~= Seq::<A>::empty());
    assert(with_key(none, key, k) == none);
    assert(seq![x].last() == x);
    assert(none.push(x) =~= seq![x]);
}

/// Where no element has the key, the pick is empty.
pub proof fn lemma_with_key_absent<A>(s: Seq<A>, key: spec_fn(A) -> Seq<char>, k: Seq<char>)
    requires
        forall|j: int| 0 <= j < s.len() ==> key(#[trigger] s[j]) != k,
    ensures
        with_key(s, key, k) == Seq::<A>::empty(),
    decreases s.len(),
{
    if s.len() > 0 {
        assert(key(s[s.len() - 1]) != k);
        assert forall|j: int| 0 <= j < s.drop_last().len() implies key(
            #[trigger] s.drop_last()[j],
        ) != k by {
            assert(s.drop_last()[j] == s[j]);
        }
        lemma_with_key_absent(s.drop_last(), key, k);
    } else {
        assert(s =~= Seq::<A>::empty());
    }
}

/// Sorting is stable: the elements that share a key stand in the result in
/// the order in which they stood in the input.
pub proof fn lemma_stable_sort_is_stable<A>(s: Seq<A>, key: spec_fn(A) -> Seq<char>, k: Seq<char>)
    ensures
        with_key(stable_sort(s, key), key, k) == with_key(s, key, k),
    decreases s.len(),
{
    if s.len() > 0 {
        let x = s.last();
        let t = stable_sort(s.drop_last(), key);
        let p = insert_pos(t, key, key(x));
        lemma_stable_sort_is_stable(s.drop_last(), key, k);
        lemma_insert_pos(t, key, key(x));
        let before = t.take(p);
        let after = t.skip(p);
        assert(t =~= before + after);
        assert(t.insert(p, x) =~= (before + seq![x]) + after);
        lemma_with_key_concat(before, after, key, k);
        lemma_with_key_concat(before + seq![x], after, key, k);
        lemma_with_key_concat(before, seq![x], key, k);
        lemma_with_key_single(x, key, k);
        if key(x) == k {
            assert forall|j: int| 0 <= j < after.len() implies key(#[trigger] after[j]) != k by {
                assert(after[j] == t[p + j]);
                crate::text::lemma_text_le_reflexive(k);
            }
            lemma_with_key_absent(after, key, k);
            assert(with_key(before, key, k) + seq![x] + Seq::<A>::empty() =~= (with_key(
                before,
                key,
                k,
            ) + Seq::<A>::empty()).push(x));
        } else {
            assert(with_key(before, key, k) + Seq::<A>::empty() + with_key(after, key, k)
                =~= with_key(before, key, k) + with_key(after, key, k));
        }
    }
}

} // verus!
