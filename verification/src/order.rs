//! The order of the index: by id, and stable.

use vstd::prelude::*;

use crate::index::infos;
use crate::password_info::{Info, PasswordInfo};
use crate::text::chars_of;

verus! {

/// `a` comes before `b` or is `b`, character by character: at the first
/// place where the two differ `a` has the smaller character, or `a` ends
/// first.
pub open spec fn id_le(a: Seq<char>, b: Seq<char>) -> bool
    decreases a.len(),
{
    if a.len() == 0 {
        true
    } else if b.len() == 0 {
        false
    } else if a[0] == b[0] {
        id_le(a.drop_first(), b.drop_first())
    } else {
        a[0] < b[0]
    }
}

/// The entries are in ascending order of their ids.
pub open spec fn sorted_by_id(entries: Seq<Info>) -> bool {
    forall|i: int, j: int|
        0 <= i <= j < entries.len() ==> id_le((#[trigger] entries[i]).id, (#[trigger] entries[j]).id)
}

/// The test for an entry to have the id `id`.
pub open spec fn has_id(id: Seq<char>) -> spec_fn(Info) -> bool {
    |entry: Info| entry.id == id
}

/// `sorted` holds the entries of `entries` in ascending order of their ids,
/// and those that share an id in the order they had.
pub open spec fn is_stable_sort_of(sorted: Seq<Info>, entries: Seq<Info>) -> bool {
    &&& sorted.len() == entries.len()
    &&& sorted_by_id(sorted)
    &&& forall|id: Seq<char>| #[trigger] sorted.filter(has_id(id)) == entries.filter(has_id(id))
}

pub proof fn lemma_id_le_reflexive(a: Seq<char>)
    ensures
        id_le(a, a),
    decreases a.len(),
{
    if a.len() > 0 {
        lemma_id_le_reflexive(a.drop_first());
    }
}

pub proof fn lemma_id_le_total(a: Seq<char>, b: Seq<char>)
    ensures
        id_le(a, b) || id_le(b, a),
    decreases a.len(),
{
    if a.len() > 0 && b.len() > 0 && a[0] == b[0] {
        lemma_id_le_total(a.drop_first(), b.drop_first());
    }
}

pub proof fn lemma_id_le_transitive(a: Seq<char>, b: Seq<char>, c: Seq<char>)
    requires
        id_le(a, b),
        id_le(b, c),
    ensures
        id_le(a, c),
    decreases a.len(),
{
    if a.len() > 0 && b.len() > 0 && c.len() > 0 && a[0] == b[0] && b[0] == c[0] {
        lemma_id_le_transitive(a.drop_first(), b.drop_first(), c.drop_first());
    }
}

pub proof fn lemma_id_le_antisymmetric(a: Seq<char>, b: Seq<char>)
    requires
        id_le(a, b),
        id_le(b, a),
    ensures
        a == b,
    decreases a.len(),
{
    if a.len() > 0 && b.len() > 0 {
        lemma_id_le_antisymmetric(a.drop_first(), b.drop_first());
        assert(a =~= seq![a[0]] + a.drop_first());
        assert(b =~= seq![b[0]] + b.drop_first());
    } else {
        assert(a =~= b);
    }
}

/// Sorting neither adds an entry nor loses one.
pub proof fn lemma_sort_keeps_entries(sorted: Seq<Info>, entries: Seq<Info>, entry: Info)
    requires
        is_stable_sort_of(sorted, entries),
    ensures
        sorted.contains(entry) <==> entries.contains(entry),
{
    let test = has_id(entry.id);
    assert(sorted.filter(test) == entries.filter(test));
    if sorted.contains(entry) {
        let i = choose|i: int| 0 <= i < sorted.len() && sorted[i] == entry;
        sorted.lemma_filter_contains(test, i);
        entries.lemma_filter_contains_rev(test, entry);
    }
    if entries.contains(entry) {
        let i = choose|i: int| 0 <= i < entries.len() && entries[i] == entry;
        entries.lemma_filter_contains(test, i);
        sorted.lemma_filter_contains_rev(test, entry);
    }
}

/// Whether the id `a` comes before `b` or is `b`.
pub fn id_precedes(a: &str, b: &str) -> (le: bool)
    ensures
        le == id_le(a@, b@),
{
    let x = chars_of(a);
    let y = chars_of(b);
    let mut i: usize = 0;
    assert(a@.skip(0) =~= a@ && b@.skip(0) =~= b@);
    while i < x.len() && i < y.len() && x[i] == y[i]
        invariant
            i <= x@.len(),
            i <= y@.len(),
            x@ == a@,
            y@ == b@,
            id_le(a@, b@) == id_le(a@.skip(i as int), b@.skip(i as int)),
        decreases x.len() - i,
    {
        assert(a@.skip(i as int).drop_first() =~= a@.skip(i + 1));
        assert(b@.skip(i as int).drop_first() =~= b@.skip(i + 1));
        i += 1;
    }
    if i == x.len() {
        true
    } else if i == y.len() {
        false
    } else {
        x[i] < y[i]
    }
}

/// Inserting `entry` into a sorted sequence, behind all that it does not
/// come before, keeps the sequence sorted and changes, of the entries of
/// each id, only those of its own, to which it is added last.
proof fn lemma_insert_keeps_order(sorted: Seq<Info>, place: int, entry: Info)
    requires
        sorted_by_id(sorted),
        0 <= place <= sorted.len(),
        forall|i: int| 0 <= i < place ==> id_le((#[trigger] sorted[i]).id, entry.id),
        place < sorted.len() ==> !id_le(sorted[place].id, entry.id),
    ensures
        sorted_by_id(sorted.insert(place, entry)),
        forall|id: Seq<char>| #[trigger]
            sorted.insert(place, entry).filter(has_id(id)) == sorted.push(entry).filter(has_id(id)),
{
    let after = sorted.insert(place, entry);
    assert forall|j: int| place <= j < sorted.len() implies id_le(
        entry.id,
        (#[trigger] sorted[j]).id,
    ) && sorted[j].id != entry.id by {
        lemma_id_le_total(sorted[place].id, entry.id);
        lemma_id_le_transitive(entry.id, sorted[place].id, sorted[j].id);
        if sorted[j].id == entry.id {
            assert(id_le(sorted[place].id, sorted[j].id));
        }
    }
    lemma_id_le_reflexive(entry.id);
    assert forall|i: int, j: int| 0 <= i <= j < after.len() implies id_le(
        (#[trigger] after[i]).id,
        (#[trigger] after[j]).id,
    ) by {
        let a = if i < place { i } else { i - 1 };
        let b = if j < place { j } else { j - 1 };
        if i != place && j != place {
            assert(after[i] == sorted[a] && after[j] == sorted[b]);
        } else if i == place && j != place {
            assert(after[j] == sorted[b]);
        } else if i != place && j == place {
            assert(after[i] == sorted[a]);
        }
    }
    let head = sorted.take(place);
    let tail = sorted.skip(place);
    assert(sorted =~= head + tail);
    assert(after =~= head + seq![entry] + tail);
    assert(sorted.push(entry) =~= head + tail + seq![entry]);
    assert forall|id: Seq<char>| #[trigger]
        after.filter(has_id(id)) == sorted.push(entry).filter(has_id(id)) by {
        let test = has_id(id);
        Seq::filter_distributes_over_add(head + seq![entry], tail, test);
        Seq::filter_distributes_over_add(head, seq![entry], test);
        Seq::filter_distributes_over_add(head + tail, seq![entry], test);
        Seq::filter_distributes_over_add(head, tail, test);
        if id == entry.id {
            assert(tail.all(|x: Info| !test(x))) by {
                assert forall|k: int| 0 <= k < tail.len() implies !test(#[trigger] tail[k]) by {
                    assert(tail[k] == sorted[place + k]);
                }
            }
            tail.lemma_all_neg_filter_empty(test);
            assert(tail.filter(test) =~= Seq::<Info>::empty());
            assert(head.filter(test) + seq![entry].filter(test) + tail.filter(test) =~= head.filter(
                test,
            ) + tail.filter(test) + seq![entry].filter(test));
        } else {
            assert(seq![entry].all(|x: Info| !test(x)));
            seq![entry].lemma_all_neg_filter_empty(test);
            assert(seq![entry].filter(test) =~= Seq::<Info>::empty());
            assert(head.filter(test) + seq![entry].filter(test) + tail.filter(test) =~= head.filter(
                test,
            ) + tail.filter(test) + seq![entry].filter(test));
        }
    }
}

/// Sorts the entries by id, ascending. Entries that share an id keep their
/// order.
pub fn sort_by_id(entries: &Vec<PasswordInfo>) -> (sorted: Vec<PasswordInfo>)
    ensures
        is_stable_sort_of(infos(sorted@), infos(entries@)),
{
    let mut sorted: Vec<PasswordInfo> = Vec::new();
    let mut k: usize = 0;
    assert(infos(entries@).take(0) =~= Seq::<Info>::empty());
    assert(infos(sorted@) =~= Seq::<Info>::empty());
    while k < entries.len()
        invariant
            k <= entries@.len(),
            is_stable_sort_of(infos(sorted@), infos(entries@).take(k as int)),
        decreases entries.len() - k,
    {
        let entry = &entries[k];
        let mut place: usize = 0;
        while place < sorted.len() && id_precedes(sorted[place].id.as_str(), entry.id.as_str())
            invariant
                place <= sorted@.len(),
                forall|i: int|
                    0 <= i < place ==> id_le((#[trigger] infos(sorted@)[i]).id, entry.id@),
            decreases sorted.len() - place,
        {
            place += 1;
        }
        let copy = PasswordInfo { id: entry.id.clone(), metadata: entry.metadata };
        proof {
            let before = infos(sorted@);
            let done = infos(entries@).take(k as int);
            assert(copy@ == infos(entries@)[k as int]);
            lemma_insert_keeps_order(before, place as int, copy@);
            assert(infos(sorted@.insert(place as int, copy)) =~= before.insert(place as int, copy@));
            assert(infos(entries@).take(k + 1) =~= done.push(copy@));
            assert forall|id: Seq<char>| #[trigger]
                before.insert(place as int, copy@).filter(has_id(id)) == done.push(copy@).filter(
                    has_id(id),
                ) by {
                before.lemma_filter_push(copy@, has_id(id));
                done.lemma_filter_push(copy@, has_id(id));
                assert(before.filter(has_id(id)) == done.filter(has_id(id)));
            }
        }
        sorted.insert(place, copy);
        k += 1;
    }
    assert(infos(entries@).take(k as int) =~= infos(entries@));
    sorted
}

} // verus!
