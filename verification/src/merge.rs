//! Merging a stored set of records with freshly parsed ones: of the records
//! that share a key only the first seen stays, and the result is ordered by
//! date.

use crate::entry::{dedup_key, views, EntryView, HomeworkEntry};
use crate::ordering::{insert_pos, stable_sort};
use crate::text::{chars_le, chars_of};
use vstd::prelude::*;

verus! {

/// The key that the merged set is ordered by: a record's date.
pub open spec fn by_date() -> spec_fn(EntryView) -> Seq<char> {
    |e: EntryView| e.date
}

/// Some record of `s` has the key `k`.
pub open spec fn has_key(s: Seq<EntryView>, k: (Seq<char>, Seq<char>, Seq<char>, Seq<char>)) -> bool {
    exists|i: int| 0 <= i < s.len() && dedup_key(#[trigger] s[i]) == k
}

/// No two records of `s` share a key.
pub open spec fn distinct_keys(s: Seq<EntryView>) -> bool {
    forall|i: int, j: int| 0 <= i < j < s.len() ==> dedup_key(s[i]) != dedup_key(s[j])
}

/// `kept` followed by those records of `more`, in order, whose key was not
/// seen before them, neither in `kept` nor earlier in `more`.
pub open spec fn absorb(kept: Seq<EntryView>, more: Seq<EntryView>) -> Seq<EntryView>
    decreases more.len(),
{
    if more.len() == 0 {
        kept
    } else {
        let so_far = absorb(kept, more.drop_last());
        if has_key(so_far, dedup_key(more.last())) {
            so_far
        } else {
            so_far.push(more.last())
        }
    }
}

/// The record at `i` is the first of `s` with its key.
pub open spec fn is_first_with_key(s: Seq<EntryView>, i: int) -> bool {
    &&& 0 <= i < s.len()
    &&& forall|j: int| 0 <= j < i ==> dedup_key(#[trigger] s[j]) != dedup_key(s[i])
}

/// The records of `s` that are the first with their key, in order.
pub open spec fn first_occurrences(s: Seq<EntryView>) -> Seq<EntryView> {
    absorb(Seq::empty(), s)
}

/// The merged set: the first occurrences among the stored records followed
/// by the incoming ones, sorted by date, records of one date in the order in
/// which they were seen.
pub open spec fn merged(existing: Seq<EntryView>, incoming: Seq<EntryView>) -> Seq<EntryView> {
    stable_sort(first_occurrences(existing + incoming), by_date())
}

/// Whether one of `kept` has the key of `e`.
fn holds_key(kept: &Vec<HomeworkEntry>, e: &HomeworkEntry) -> (r: bool)
    ensures
        r == has_key(views(kept@), dedup_key(e@)),
{
    let mut i: usize = 0;
    while i < kept.len()
        invariant
            i <= kept.len(),
            forall|j: int| 0 <= j < i ==> dedup_key(#[trigger] views(kept@)[j]) != dedup_key(e@),
        decreases kept.len() - i,
    {
        if kept[i].same_key(e) {
            assert(dedup_key(views(kept@)[i as int]) == dedup_key(e@));
            return true;
        }
        i += 1;
    }
    false
}

/// Appends to `kept` the records of `more` whose key has not been seen.
fn absorb_into(kept: &mut Vec<HomeworkEntry>, more: Vec<HomeworkEntry>)
    ensures
        views(final(kept)@) == absorb(views(old(kept)@), views(more@)),
{
    let ghost all = more@;
    let ghost start = views(kept@);
    assert(views(all.take(0)) =~= Seq::<EntryView>::empty());
    for e in it: more
        invariant
            it.seq() == all,
            start == views(old(kept)@),
            views(kept@) == absorb(start, views(all.take(it.index()))),
    {
        proof {
            let upto = views(all.take(it.index() + 1));
            assert(upto.drop_last() =~= views(all.take(it.index())));
            assert(upto.last() == e@);
        }
        if !holds_key(kept, &e) {
            assert(views(kept@.push(e)) =~= views(kept@).push(e@));
            kept.push(e);
        }
    }
    assert(all.take(all.len() as int) =~= all);
}

/// Where `e` goes into `out`: just past the last record dated at or before it.
fn place(out: &Vec<HomeworkEntry>, e: &HomeworkEntry) -> (p: usize)
    ensures
        p == insert_pos(views(out@), by_date(), e@.date),
{
    let date = chars_of(e.date.as_str());
    let mut p: usize = out.len();
    assert(views(out@).take(p as int) =~= views(out@));
    while p > 0
        invariant
            p <= out.len(),
            date@ == e@.date,
            insert_pos(views(out@), by_date(), e@.date) == insert_pos(
                views(out@).take(p as int),
                by_date(),
                e@.date,
            ),
        decreases p,
    {
        let other = chars_of(out[p - 1].date.as_str());
        proof {
            let head = views(out@).take(p as int);
            assert(head.last() == out@[p - 1]@);
            assert(by_date()(head.last()) == other@);
            assert(head.drop_last() =~= views(out@).take(p - 1));
        }
        if chars_le(&other, &date) {
            return p;
        }
        p -= 1;
    }
    p
}

/// The records sorted by date; records of one date keep their order.
pub fn sort_by_date(entries: Vec<HomeworkEntry>) -> (r: Vec<HomeworkEntry>)
    ensures
        views(r@) == stable_sort(views(entries@), by_date()),
{
    let ghost all = entries@;
    let mut out: Vec<HomeworkEntry> = Vec::new();
    assert(views(all.take(0)) =~= Seq::<EntryView>::empty());
    assert(views(out@) =~= Seq::<EntryView>::empty());
    for e in it: entries
        invariant
            it.seq() == all,
            views(out@) == stable_sort(views(all.take(it.index())), by_date()),
    {
        proof {
            let upto = views(all.take(it.index() + 1));
            assert(upto.drop_last() =~= views(all.take(it.index())));
            assert(upto.last() == e@);
        }
        let p = place(&out, &e);
        proof {
            crate::ordering::lemma_insert_pos(views(out@), by_date(), e@.date);
            assert(views(out@.insert(p as int, e)) =~= views(out@).insert(p as int, e@));
        }
        out.insert(p, e);
    }
    assert(all.take(all.len() as int) =~= all);
    out
}

/// Merges the stored records with the incoming ones. Of the records that
/// share type, date, subject and task the first seen stays, stored records
/// before incoming ones; the result is ordered by date.
pub fn merge(existing: Vec<HomeworkEntry>, incoming: Vec<HomeworkEntry>) -> (r: Vec<HomeworkEntry>)
    ensures
        views(r@) == merged(views(existing@), views(incoming@)),
        crate::ordering::sorted_by(views(r@), by_date()),
        distinct_keys(views(r@)),
        r@.len() <= existing@.len() + incoming@.len(),
{
    let mut kept: Vec<HomeworkEntry> = Vec::new();
    assert(views(kept@) =~= Seq::<EntryView>::empty());
    absorb_into(&mut kept, existing);
    absorb_into(&mut kept, incoming);
    proof {
        let all = views(existing@) + views(incoming@);
        lemma_absorb_concat(Seq::empty(), views(existing@), views(incoming@));
        lemma_merged_is_ordered_and_distinct(views(existing@), views(incoming@));
        lemma_absorb_extends(Seq::empty(), all);
        crate::ordering::lemma_stable_sort_permutes(first_occurrences(all), by_date());
    }
    sort_by_date(kept)
}

/// Taking in two runs of records one after the other is taking in their
/// concatenation.
pub proof fn lemma_absorb_concat(kept: Seq<EntryView>, a: Seq<EntryView>, b: Seq<EntryView>)
    ensures
        absorb(kept, a + b) == absorb(absorb(kept, a), b),
    decreases b.len(),
{
    if b.len() == 0 {
        assert(a + b =~= a);
    } else {
        lemma_absorb_concat(kept, a, b.drop_last());
        assert((a + b).drop_last() =~= a + b.drop_last());
        assert((a + b).last() == b.last());
    }
}

/// Taking records in keeps what was there, in place, and only adds behind it.
pub proof fn lemma_absorb_extends(kept: Seq<EntryView>, more: Seq<EntryView>)
    ensures
        kept.len() <= absorb(kept, more).len() <= kept.len() + more.len(),
        absorb(kept, more).take(kept.len() as int) == kept,
    decreases more.len(),
{
    if more.len() == 0 {
        assert(kept.take(kept.len() as int) =~= kept);
    } else {
        lemma_absorb_extends(kept, more.drop_last());
        let so_far = absorb(kept, more.drop_last());
        assert(so_far.push(more.last()).take(kept.len() as int) =~= so_far.take(kept.len() as int));
    }
}

/// After taking records in, a key is there exactly if it was there before
/// or came with one of the records.
pub proof fn lemma_absorb_keys(
    kept: Seq<EntryView>,
    more: Seq<EntryView>,
    k: (Seq<char>, Seq<char>, Seq<char>, Seq<char>),
)
    ensures
        has_key(absorb(kept, more), k) <==> has_key(kept, k) || has_key(more, k),
    decreases more.len(),
{
    if more.len() > 0 {
        let front = more.drop_last();
        let so_far = absorb(kept, front);
        let result = absorb(kept, more);
        lemma_absorb_keys(kept, front, k);
        if has_key(result, k) {
            let i = choose|i: int| 0 <= i < result.len() && dedup_key(#[trigger] result[i]) == k;
            if i < so_far.len() {
                assert(result[i] == so_far[i]);
                assert(has_key(so_far, k));
            } else {
                assert(result[i] == more.last());
            }
            if has_key(front, k) {
                let j = choose|j: int| 0 <= j < front.len() && dedup_key(#[trigger] front[j]) == k;
                assert(more[j] == front[j]);
            } else if !has_key(kept, k) {
                assert(dedup_key(more[more.len() - 1]) == k);
            }
        }
        if has_key(more, k) {
            let j = choose|j: int| 0 <= j < more.len() && dedup_key(#[trigger] more[j]) == k;
            if j < front.len() {
                assert(front[j] == more[j]);
                assert(has_key(front, k));
            }
        }
        if has_key(so_far, k) {
            let i = choose|i: int| 0 <= i < so_far.len() && dedup_key(#[trigger] so_far[i]) == k;
            assert(result[i] == so_far[i]);
        }
        if dedup_key(more.last()) == k && !has_key(so_far, k) {
            assert(result[result.len() - 1] == more.last());
        }
    }
}

/// Taking records in never brings a key in twice.
pub proof fn lemma_absorb_distinct(kept: Seq<EntryView>, more: Seq<EntryView>)
    requires
        distinct_keys(kept),
    ensures
        distinct_keys(absorb(kept, more)),
    decreases more.len(),
{
    if more.len() > 0 {
        let so_far = absorb(kept, more.drop_last());
        lemma_absorb_distinct(kept, more.drop_last());
        if !has_key(so_far, dedup_key(more.last())) {
            let result = so_far.push(more.last());
            assert forall|i: int, j: int| 0 <= i < j < result.len() implies dedup_key(result[i])
                != dedup_key(result[j]) by {
                if j < so_far.len() {
                    assert(result[i] == so_far[i] && result[j] == so_far[j]);
                } else {
                    assert(result[i] == so_far[i]);
                }
            }
        }
    }
}

/// Records whose keys are all known already change nothing.
pub proof fn lemma_absorb_known(kept: Seq<EntryView>, more: Seq<EntryView>)
    requires
        forall|j: int| 0 <= j < more.len() ==> has_key(kept, dedup_key(#[trigger] more[j])),
    ensures
        absorb(kept, more) == kept,
    decreases more.len(),
{
    if more.len() > 0 {
        let front = more.drop_last();
        assert forall|j: int| 0 <= j < front.len() implies has_key(
            kept,
            dedup_key(#[trigger] front[j]),
        ) by {
            assert(front[j] == more[j]);
        }
        lemma_absorb_known(kept, front);
        assert(has_key(kept, dedup_key(more[more.len() - 1])));
    }
}

/// Where no key occurs twice, every record is the first with its key.
pub proof fn lemma_first_occurrences_of_distinct(s: Seq<EntryView>)
    requires
        distinct_keys(s),
    ensures
        first_occurrences(s) == s,
    decreases s.len(),
{
    if s.len() == 0 {
        assert(s =~= Seq::<EntryView>::empty());
    } else {
        let front = s.drop_last();
        assert(distinct_keys(front)) by {
            assert forall|i: int, j: int| 0 <= i < j < front.len() implies dedup_key(front[i])
                != dedup_key(front[j]) by {
                assert(front[i] == s[i] && front[j] == s[j]);
            }
        }
        lemma_first_occurrences_of_distinct(front);
        if has_key(front, dedup_key(s.last())) {
            let i = choose|i: int|
                0 <= i < front.len() && dedup_key(#[trigger] front[i]) == dedup_key(s.last());
            assert(front[i] == s[i]);
            assert(dedup_key(s[i]) != dedup_key(s[s.len() - 1]));
        }
        assert(front.push(s.last()) =~= s);
    }
}

/// Putting a record into a sequence adds its key and no other.
proof fn lemma_insert_keys(
    t: Seq<EntryView>,
    p: int,
    x: EntryView,
    k: (Seq<char>, Seq<char>, Seq<char>, Seq<char>),
)
    requires
        0 <= p <= t.len(),
    ensures
        has_key(t.insert(p, x), k) <==> has_key(t, k) || dedup_key(x) == k,
{
    let u = t.insert(p, x);
    if has_key(u, k) {
        let i = choose|i: int| 0 <= i < u.len() && dedup_key(#[trigger] u[i]) == k;
        if i < p {
            assert(u[i] == t[i]);
        } else if i > p {
            assert(u[i] == t[i - 1]);
        }
    }
    if has_key(t, k) {
        let i = choose|i: int| 0 <= i < t.len() && dedup_key(#[trigger] t[i]) == k;
        if i < p {
            assert(u[i] == t[i]);
        } else {
            assert(u[i + 1] == t[i]);
        }
    }
    if dedup_key(x) == k {
        assert(u[p] == x);
    }
}

/// Sorting by date neither adds nor drops a key.
pub proof fn lemma_sort_keeps_keys(s: Seq<EntryView>, k: (Seq<char>, Seq<char>, Seq<char>, Seq<char>))
    ensures
        has_key(stable_sort(s, by_date()), k) <==> has_key(s, k),
    decreases s.len(),
{
    if s.len() > 0 {
        let front = s.drop_last();
        let t = stable_sort(front, by_date());
        let p = insert_pos(t, by_date(), by_date()(s.last()));
        lemma_sort_keeps_keys(front, k);
        crate::ordering::lemma_insert_pos(t, by_date(), by_date()(s.last()));
        lemma_insert_keys(t, p, s.last(), k);
        if has_key(s, k) {
            let i = choose|i: int| 0 <= i < s.len() && dedup_key(#[trigger] s[i]) == k;
            if i < front.len() {
                assert(front[i] == s[i]);
            }
        }
        if has_key(front, k) {
            let i = choose|i: int| 0 <= i < front.len() && dedup_key(#[trigger] front[i]) == k;
            assert(front[i] == s[i]);
        }
        if dedup_key(s.last()) == k {
            assert(s[s.len() - 1] == s.last());
        }
    }
}

/// Sorting by date leaves keys that were distinct distinct.
pub proof fn lemma_sort_keeps_distinct(s: Seq<EntryView>)
    requires
        distinct_keys(s),
    ensures
        distinct_keys(stable_sort(s, by_date())),
    decreases s.len(),
{
    if s.len() > 0 {
        let front = s.drop_last();
        let x = s.last();
        let t = stable_sort(front, by_date());
        let p = insert_pos(t, by_date(), by_date()(x));
        assert(distinct_keys(front)) by {
            assert forall|i: int, j: int| 0 <= i < j < front.len() implies dedup_key(front[i])
                != dedup_key(front[j]) by {
                assert(front[i] == s[i] && front[j] == s[j]);
            }
        }
        lemma_sort_keeps_distinct(front);
        lemma_sort_keeps_keys(front, dedup_key(x));
        crate::ordering::lemma_insert_pos(t, by_date(), by_date()(x));
        if has_key(front, dedup_key(x)) {
            let i = choose|i: int|
                0 <= i < front.len() && dedup_key(#[trigger] front[i]) == dedup_key(x);
            assert(front[i] == s[i]);
            assert(dedup_key(s[i]) != dedup_key(s[s.len() - 1]));
        }
        let u = t.insert(p, x);
        assert forall|i: int, j: int| 0 <= i < j < u.len() implies dedup_key(u[i]) != dedup_key(
            u[j],
        ) by {
            let a = if i < p { i } else { i - 1 };
            let b = if j < p { j } else { j - 1 };
            if i == p {
                assert(u[j] == t[b]);
            } else if j == p {
                assert(u[i] == t[a]);
            } else {
                assert(u[i] == t[a] && u[j] == t[b]);
            }
        }
    }
}

/// The merged set is ordered by date and holds no key twice.
pub proof fn lemma_merged_is_ordered_and_distinct(existing: Seq<EntryView>, incoming: Seq<EntryView>)
    ensures
        crate::ordering::sorted_by(merged(existing, incoming), by_date()),
        distinct_keys(merged(existing, incoming)),
{
    let firsts = first_occurrences(existing + incoming);
    crate::ordering::lemma_stable_sort_is_sorted(firsts, by_date());
    lemma_absorb_distinct(Seq::empty(), existing + incoming);
    lemma_sort_keeps_distinct(firsts);
}

/// The merged set holds a key exactly if a stored or an incoming record has it.
pub proof fn lemma_merged_keys(
    existing: Seq<EntryView>,
    incoming: Seq<EntryView>,
    k: (Seq<char>, Seq<char>, Seq<char>, Seq<char>),
)
    ensures
        has_key(merged(existing, incoming), k) <==> has_key(existing, k) || has_key(incoming, k),
{
    let firsts = first_occurrences(existing + incoming);
    lemma_sort_keeps_keys(firsts, k);
    lemma_absorb_concat(Seq::empty(), existing, incoming);
    lemma_absorb_keys(Seq::empty(), existing, k);
    lemma_absorb_keys(first_occurrences(existing), incoming, k);
}

/// Merging is idempotent: merging the same incoming records once more into
/// the merged set gives the merged set again, record for record.
pub proof fn lemma_merge_idempotent(existing: Seq<EntryView>, incoming: Seq<EntryView>)
    ensures
        merged(merged(existing, incoming), incoming) == merged(existing, incoming),
{
    let once = merged(existing, incoming);
    lemma_merged_is_ordered_and_distinct(existing, incoming);
    lemma_first_occurrences_of_distinct(once);
    assert forall|j: int| 0 <= j < incoming.len() implies has_key(
        once,
        dedup_key(#[trigger] incoming[j]),
    ) by {
        lemma_merged_keys(existing, incoming, dedup_key(incoming[j]));
    }
    lemma_absorb_known(once, incoming);
    lemma_absorb_concat(Seq::empty(), once, incoming);
    crate::ordering::lemma_stable_sort_of_sorted(once, by_date());
}

/// Merging a set in which no key occurs twice with itself gives that set
/// sorted by date, with as many records as the set has.
pub proof fn lemma_merge_with_itself(a: Seq<EntryView>)
    requires
        distinct_keys(a),
    ensures
        merged(a, a) == stable_sort(a, by_date()),
        merged(a, a).len() == a.len(),
{
    lemma_first_occurrences_of_distinct(a);
    assert forall|j: int| 0 <= j < a.len() implies has_key(a, dedup_key(#[trigger] a[j])) by {}
    lemma_absorb_known(a, a);
    lemma_absorb_concat(Seq::empty(), a, a);
    crate::ordering::lemma_stable_sort_permutes(a, by_date());
}

/// On a shared key the stored record wins: a stored record that is the first
/// with its key is in the merged set as it was stored, and the merged set
/// holds no other record with that key.
pub proof fn lemma_stored_record_wins(existing: Seq<EntryView>, incoming: Seq<EntryView>, i: int)
    requires
        0 <= i < existing.len(),
        forall|j: int| 0 <= j < i ==> dedup_key(existing[j]) != dedup_key(existing[i]),
    ensures
        merged(existing, incoming).contains(existing[i]),
        forall|j: int|
            0 <= j < merged(existing, incoming).len() && dedup_key(
                #[trigger] merged(existing, incoming)[j],
            ) == dedup_key(existing[i]) ==> merged(existing, incoming)[j] == existing[i],
{
    let all = existing + incoming;
    let firsts = first_occurrences(all);
    let result = merged(existing, incoming);
    // the record is taken in when its turn comes
    let upto = all.take(i + 1);
    let rest = all.skip(i + 1);
    assert(all =~= upto + rest);
    lemma_absorb_concat(Seq::empty(), upto, rest);
    assert(upto.last() == existing[i]);
    let before = absorb(Seq::empty(), upto.drop_last());
    if has_key(before, dedup_key(existing[i])) {
        lemma_absorb_keys(Seq::empty(), upto.drop_last(), dedup_key(existing[i]));
        let j = choose|j: int|
            0 <= j < upto.drop_last().len() && dedup_key(#[trigger] upto.drop_last()[j])
                == dedup_key(existing[i]);
        assert(upto.drop_last()[j] == existing[j]);
    }
    let taken = absorb(Seq::empty(), upto);
    assert(taken == before.push(existing[i]));
    lemma_absorb_extends(taken, rest);
    assert(firsts.take(taken.len() as int) == taken);
    assert(firsts[taken.len() - 1] == taken[taken.len() - 1]);
    assert(firsts.contains(existing[i]));
    // sorting keeps it
    crate::ordering::lemma_stable_sort_permutes(firsts, by_date());
    vstd::seq_lib::to_multiset_contains(firsts, existing[i]);
    vstd::seq_lib::to_multiset_contains(result, existing[i]);
    // and nothing else has its key
    lemma_merged_is_ordered_and_distinct(existing, incoming);
    let at = choose|at: int| 0 <= at < result.len() && result[at] == existing[i];
    assert forall|j: int|
        0 <= j < result.len() && dedup_key(#[trigger] result[j]) == dedup_key(
            existing[i],
        ) implies result[j] == existing[i] by {
        if j < at {
            assert(dedup_key(result[j]) != dedup_key(result[at]));
        } else if at < j {
            assert(dedup_key(result[at]) != dedup_key(result[j]));
        }
    }
}

/// What stays of a sequence are exactly the records that are the first with
/// their key.
pub proof fn lemma_first_occurrences_members(s: Seq<EntryView>, e: EntryView)
    ensures
        first_occurrences(s).contains(e) <==> exists|i: int|
            #[trigger] is_first_with_key(s, i) && s[i] == e,
    decreases s.len(),
{
    if s.len() == 0 {
        assert(first_occurrences(s) =~= Seq::<EntryView>::empty());
        assert forall|i: int| !(#[trigger] is_first_with_key(s, i) && s[i] == e) by {}
    } else {
        let front = s.drop_last();
        let x = s.last();
        let kept = first_occurrences(front);
        let result = first_occurrences(s);
        lemma_first_occurrences_members(front, e);
        lemma_absorb_keys(Seq::empty(), front, dedup_key(x));
        if result.contains(e) {
            let at = choose|at: int| 0 <= at < result.len() && result[at] == e;
            if at < kept.len() {
                assert(kept[at] == e);
                assert(kept.contains(e));
                let i = choose|i: int| #[trigger] is_first_with_key(front, i) && front[i] == e;
                assert(is_first_with_key(s, i)) by {
                    assert(s[i] == front[i]);
                    assert forall|j: int| 0 <= j < i implies dedup_key(#[trigger] s[j])
                        != dedup_key(s[i]) by {
                        assert(s[j] == front[j]);
                    }
                }
            } else {
                assert(e == x);
                assert(!has_key(front, dedup_key(x)));
                assert(is_first_with_key(s, s.len() - 1)) by {
                    assert forall|j: int| 0 <= j < s.len() - 1 implies dedup_key(#[trigger] s[j])
                        != dedup_key(s[s.len() - 1]) by {
                        assert(front[j] == s[j]);
                    }
                }
            }
        }
        if exists|i: int| #[trigger] is_first_with_key(s, i) && s[i] == e {
            let i = choose|i: int| #[trigger] is_first_with_key(s, i) && s[i] == e;
            if i < front.len() {
                assert(is_first_with_key(front, i)) by {
                    assert(s[i] == front[i]);
                    assert forall|j: int| 0 <= j < i implies dedup_key(#[trigger] front[j])
                        != dedup_key(front[i]) by {
                        assert(s[j] == front[j]);
                    }
                }
                assert(front[i] == e);
                assert(kept.contains(e));
                let at = choose|at: int| 0 <= at < kept.len() && kept[at] == e;
                assert(result[at] == e);
            } else {
                if has_key(front, dedup_key(x)) {
                    let j = choose|j: int|
                        0 <= j < front.len() && dedup_key(#[trigger] front[j]) == dedup_key(x);
                    assert(s[j] == front[j]);
                }
                assert(result == kept.push(x));
                assert(result[result.len() - 1] == e);
            }
        }
    }
}

/// The merged set holds exactly the records that are the first with their
/// key among the stored records followed by the incoming ones: nothing is
/// made up, nothing that came first is lost.
pub proof fn lemma_merged_members(existing: Seq<EntryView>, incoming: Seq<EntryView>, e: EntryView)
    ensures
        merged(existing, incoming).contains(e) <==> exists|i: int|
            #[trigger] is_first_with_key(existing + incoming, i) && (existing + incoming)[i] == e,
{
    let firsts = first_occurrences(existing + incoming);
    lemma_first_occurrences_members(existing + incoming, e);
    crate::ordering::lemma_stable_sort_permutes(firsts, by_date());
    vstd::seq_lib::to_multiset_contains(firsts, e);
    vstd::seq_lib::to_multiset_contains(merged(existing, incoming), e);
}

/// Within one date the merged set keeps the order in which the records
/// were seen.
pub proof fn lemma_merged_is_stable(
    existing: Seq<EntryView>,
    incoming: Seq<EntryView>,
    date: Seq<char>,
)
    ensures
        crate::ordering::with_key(merged(existing, incoming), by_date(), date)
            == crate::ordering::with_key(
            first_occurrences(existing + incoming),
            by_date(),
            date,
        ),
{
    crate::ordering::lemma_stable_sort_is_stable(
        first_occurrences(existing + incoming),
        by_date(),
        date,
    );
}

} // verus!
