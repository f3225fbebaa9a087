//! Stable sorting by text.
use crate::json::{docs_of, Json};
use crate::text::{
    le, lemma_text_le_antisymmetric, lemma_text_le_total, lemma_text_le_transitive, text_le,
};
use vstd::prelude::*;

verus! {

/// An item and the text that it is ordered by.
pub struct Keyed<T> {
    pub key: String,
    pub item: T,
}

/// The keys and the items.
pub open spec fn keyed_of<T: View>(items: Seq<Keyed<T>>) -> Seq<(Seq<char>, T::V)> {
    Seq::new(items.len(), |i: int| (items[i].key@, items[i].item@))
}

/// The sorted row with `item` put behind every key that is not greater.
pub open spec fn insert_by_key<T>(
    sorted: Seq<(Seq<char>, T)>,
    item: (Seq<char>, T),
) -> Seq<(Seq<char>, T)>
    decreases sorted.len(),
{
    if sorted.len() == 0 || text_le(sorted.last().0, item.0) {
        sorted.push(item)
    } else {
        insert_by_key(sorted.drop_last(), item).push(sorted.last())
    }
}

/// The items by ascending key; items of one key keep their order.
pub open spec fn sort_by_key<T>(items: Seq<(Seq<char>, T)>) -> Seq<(Seq<char>, T)>
    decreases items.len(),
{
    if items.len() == 0 {
        Seq::empty()
    } else {
        insert_by_key(sort_by_key(items.drop_last()), items.last())
    }
}

/// The documents of a sorted row.
pub open spec fn second<T>(items: Seq<(Seq<char>, T)>) -> Seq<T> {
    Seq::new(items.len(), |i: int| items[i].1)
}

pub open spec fn ascending<T>(items: Seq<(Seq<char>, T)>) -> bool {
    forall|i: int, j: int|
        #![trigger items[i], items[j]]
        0 <= i < j < items.len() ==> text_le(items[i].0, items[j].0)
}

proof fn lemma_insert_is<T>(sorted: Seq<(Seq<char>, T)>, item: (Seq<char>, T), at: int)
    requires
        0 <= at <= sorted.len(),
        at > 0 ==> text_le(sorted[at - 1].0, item.0),
        forall|i: int| at <= i < sorted.len() ==> !text_le(#[trigger] sorted[i].0, item.0),
    ensures
        insert_by_key(sorted, item) == sorted.insert(at, item),
    decreases sorted.len(),
{
    if at == sorted.len() {
        assert(sorted.insert(at, item) =~= sorted.push(item));
        if sorted.len() > 0 {
            assert(sorted.last() == sorted[at - 1]);
        }
    } else {
        assert(!text_le(sorted[sorted.len() - 1].0, item.0));
        lemma_insert_is(sorted.drop_last(), item, at);
        assert(sorted.drop_last().insert(at, item).push(sorted.last()) =~= sorted.insert(at, item));
    }
}

fn insert_keyed<T: View>(sorted: &mut Vec<Keyed<T>>, item: Keyed<T>)
    ensures
        keyed_of(final(sorted)@) == insert_by_key(
            keyed_of(old(sorted)@),
            (item.key@, item.item@),
        ),
{
    let mut at: usize = sorted.len();
    while at > 0 && !le(sorted[at - 1].key.as_str(), item.key.as_str())
        invariant
            at <= sorted@.len(),
            forall|i: int|
                at <= i < sorted@.len() ==> !text_le((#[trigger] keyed_of(sorted@)[i]).0, item.key@),
        decreases at,
    {
        at -= 1;
    }
    let ghost before = keyed_of(sorted@);
    proof {
        lemma_insert_is(before, (item.key@, item.item@), at as int);
    }
    sorted.insert(at, item);
    assert(keyed_of(sorted@) =~= before.insert(at as int, (item.key@, item.item@)));
}

/// Sorts the items by key.
pub fn sort_keyed<T: View>(items: Vec<Keyed<T>>) -> (result: Vec<Keyed<T>>)
    ensures
        keyed_of(result@) == sort_by_key(keyed_of(items@)),
{
    let ghost all = keyed_of(items@);
    let mut sorted: Vec<Keyed<T>> = Vec::new();
    assert(keyed_of(sorted@) =~= sort_by_key(all.take(0)));
    for item in iter: items
        invariant
            iter.seq().len() == all.len(),
            keyed_of(iter.seq()) == all,
            keyed_of(sorted@) == sort_by_key(all.take(iter.index() as int)),
    {
        let ghost n = iter.index() as int;
        assert(keyed_of(iter.seq())[n] == all[n]);
        assert(all.take(n + 1).drop_last() =~= all.take(n));
        insert_keyed(&mut sorted, item);
    }
    assert(all.take(all.len() as int) =~= all);
    sorted
}

/// Sorts the items by key and gives their documents.
pub fn sort_documents(items: Vec<Keyed<Json>>) -> (result: Vec<Json>)
    ensures
        docs_of(result@) == second(sort_by_key(keyed_of(items@))),
{
    let sorted = sort_keyed(items);
    let ghost whole = keyed_of(sorted@);
    let mut result: Vec<Json> = Vec::new();
    for item in iter: sorted
        invariant
            keyed_of(iter.seq()) == whole,
            result@.len() == iter.index(),
            forall|k: int| 0 <= k < result@.len() ==> (#[trigger] result@[k])@ == whole[k].1,
    {
        assert(keyed_of(iter.seq())[iter.index() as int] == whole[iter.index() as int]);
        result.push(item.item);
    }
    assert(docs_of(result@) =~= second(whole));
    result
}

proof fn lemma_insert<T>(sorted: Seq<(Seq<char>, T)>, item: (Seq<char>, T))
    requires
        ascending(sorted),
    ensures
        ascending(insert_by_key(sorted, item)),
        insert_by_key(sorted, item).to_multiset() == sorted.to_multiset().insert(item),
        insert_by_key(sorted, item).len() == sorted.len() + 1,
    decreases sorted.len(),
{
    broadcast use vstd::seq_lib::group_to_multiset_ensures;

    if sorted.len() == 0 || text_le(sorted.last().0, item.0) {
        assert forall|i: int, j: int|
            #![trigger sorted.push(item)[i], sorted.push(item)[j]]
            0 <= i < j < sorted.push(item).len() implies text_le(
            sorted.push(item)[i].0,
            sorted.push(item)[j].0,
        ) by {
            if j == sorted.len() && i < sorted.len() - 1 {
                assert(text_le(sorted[i].0, sorted[sorted.len() - 1].0));
                lemma_text_le_transitive(sorted[i].0, sorted.last().0, item.0);
            }
        }
    } else {
        let shorter = sorted.drop_last();
        let inner = insert_by_key(shorter, item);
        assert forall|i: int, j: int|
            #![trigger shorter[i], shorter[j]]
            0 <= i < j < shorter.len() implies text_le(shorter[i].0, shorter[j].0) by {
            assert(text_le(sorted[i].0, sorted[j].0));
        }
        lemma_insert(shorter, item);
        lemma_text_le_total(sorted.last().0, item.0);
        let last = sorted.last();
        assert forall|k: int| 0 <= k < inner.len() implies text_le(
            (#[trigger] inner[k]).0,
            last.0,
        ) by {
            assert(inner.to_multiset().count(inner[k]) > 0) by {
                assert(inner.contains(inner[k]));
            }
            if inner[k] != item {
                assert(shorter.to_multiset().count(inner[k]) > 0);
                assert(shorter.contains(inner[k]));
                let m = choose|m: int| 0 <= m < shorter.len() && shorter[m] == inner[k];
                assert(text_le(sorted[m].0, sorted[sorted.len() - 1].0));
            }
        }
        let whole = inner.push(last);
        assert forall|i: int, j: int|
            #![trigger whole[i], whole[j]]
            0 <= i < j < whole.len() implies text_le(whole[i].0, whole[j].0) by {
            if j < inner.len() {
                assert(text_le(inner[i].0, inner[j].0));
            }
        }
        assert(sorted =~= shorter.push(last));
        assert(whole.to_multiset() =~= sorted.to_multiset().insert(item));
    }
}

/// Sorting moves the items and loses none, and the keys ascend.
pub proof fn law_sort_orders_and_keeps<T>(items: Seq<(Seq<char>, T)>)
    ensures
        ascending(sort_by_key(items)),
        sort_by_key(items).to_multiset() == items.to_multiset(),
        sort_by_key(items).len() == items.len(),
    decreases items.len(),
{
    broadcast use vstd::seq_lib::group_to_multiset_ensures;

    if items.len() > 0 {
        law_sort_orders_and_keeps(items.drop_last());
        lemma_insert(sort_by_key(items.drop_last()), items.last());
        assert(items =~= items.drop_last().push(items.last()));
    }
}

pub open spec fn distinct_keys<T>(items: Seq<(Seq<char>, T)>) -> bool {
    forall|i: int, j: int|
        #![trigger items[i], items[j]]
        0 <= i < items.len() && 0 <= j < items.len() && items[i].0 == items[j].0 ==> i == j
}

proof fn lemma_ascending_unique<T>(a: Seq<(Seq<char>, T)>, b: Seq<(Seq<char>, T)>)
    requires
        ascending(a),
        ascending(b),
        distinct_keys(a),
        a.to_multiset() == b.to_multiset(),
    ensures
        a == b,
    decreases a.len(),
{
    broadcast use vstd::seq_lib::group_to_multiset_ensures;

    assert(a.to_multiset().len() == a.len());
    assert(b.to_multiset().len() == b.len());
    if a.len() == 0 {
        assert(a =~= b);
    } else {
        let x = a.last();
        let y = b.last();
        assert(a.contains(x)) by {
            assert(a[a.len() - 1] == x);
        }
        assert(b.contains(y)) by {
            assert(b[b.len() - 1] == y);
        }
        assert(b.to_multiset().count(x) > 0);
        assert(a.to_multiset().count(y) > 0);
        let j = choose|j: int| 0 <= j < b.len() && b[j] == x;
        let i = choose|i: int| 0 <= i < a.len() && a[i] == y;
        lemma_text_le_total(x.0, x.0);
        lemma_text_le_total(y.0, y.0);
        assert(text_le(x.0, y.0)) by {
            if j < b.len() - 1 {
                assert(text_le(b[j].0, b[b.len() - 1].0));
            }
        }
        assert(text_le(y.0, x.0)) by {
            if i < a.len() - 1 {
                assert(text_le(a[i].0, a[a.len() - 1].0));
            }
        }
        lemma_text_le_antisymmetric(x.0, y.0);
        assert(a[i].0 == a[a.len() - 1].0);
        assert(x == y);
        let p = a.drop_last();
        let q = b.drop_last();
        assert(a =~= p.push(x));
        assert(b =~= q.push(y));
        assert(p.to_multiset() =~= a.to_multiset().remove(x));
        assert(q.to_multiset() =~= b.to_multiset().remove(x));
        assert forall|m: int, n: int|
            #![trigger p[m], p[n]]
            0 <= m < n < p.len() implies text_le(p[m].0, p[n].0) by {
            assert(text_le(a[m].0, a[n].0));
        }
        assert forall|m: int, n: int|
            #![trigger q[m], q[n]]
            0 <= m < n < q.len() implies text_le(q[m].0, q[n].0) by {
            assert(text_le(b[m].0, b[n].0));
        }
        assert forall|m: int, n: int|
            #![trigger p[m], p[n]]
            0 <= m < p.len() && 0 <= n < p.len() && p[m].0 == p[n].0 implies m == n by {
            assert(a[m].0 == a[n].0);
        }
        lemma_ascending_unique(p, q);
    }
}

/// Where no key occurs twice, the sorted row does not depend on the order in
/// which the items came.
pub proof fn law_sort_ignores_order<T>(a: Seq<(Seq<char>, T)>, b: Seq<(Seq<char>, T)>)
    requires
        distinct_keys(a),
        a.to_multiset() == b.to_multiset(),
    ensures
        sort_by_key(a) == sort_by_key(b),
{
    broadcast use vstd::seq_lib::group_to_multiset_ensures;

    law_sort_orders_and_keeps(a);
    law_sort_orders_and_keeps(b);
    let s = sort_by_key(a);
    assert forall|i: int, j: int|
        #![trigger s[i], s[j]]
        0 <= i < s.len() && 0 <= j < s.len() && s[i].0 == s[j].0 implies i == j by {
        lemma_one_place(s, a, i, j);
    }
    lemma_ascending_unique(sort_by_key(a), sort_by_key(b));
}

/// A rearrangement of a row without repeated keys has none either.
proof fn lemma_one_place<T>(
    s: Seq<(Seq<char>, T)>,
    a: Seq<(Seq<char>, T)>,
    i: int,
    j: int,
)
    requires
        s.to_multiset() == a.to_multiset(),
        0 <= i < s.len(),
        0 <= j < s.len(),
        s[i].0 == s[j].0,
        distinct_keys(a),
    ensures
        i == j,
{
    broadcast use vstd::seq_lib::group_to_multiset_ensures;

    assert(s.contains(s[i]));
    assert(s.contains(s[j]));
    assert(a.to_multiset().count(s[i]) > 0);
    assert(a.to_multiset().count(s[j]) > 0);
    assert(a.contains(s[i]));
    assert(a.contains(s[j]));
    let m = choose|m: int| 0 <= m < a.len() && a[m] == s[i];
    let n = choose|n: int| 0 <= n < a.len() && a[n] == s[j];
    assert(a[m].0 == a[n].0);
    assert(m == n);
    assert(s[i] == s[j]);
    // If `i` and `j` differed, the item would occur twice in `s`, and so in `a`.
    if i != j {
        let x = s[i];
        let low = if i < j {
            i
        } else {
            j
        };
        let high = if i < j {
            j
        } else {
            i
        };
        let front = s.take(high);
        let back = s.skip(high);
        assert(s =~= front + back);
        vstd::seq_lib::lemma_multiset_commutative(front, back);
        assert(front[low] == x);
        assert(front.contains(x));
        assert(back[0] == x);
        assert(back.contains(x));
        assert(s.to_multiset().count(x) >= 2);
        let af = a.take(m);
        let ab = a.skip(m);
        assert(a =~= af + ab);
        vstd::seq_lib::lemma_multiset_commutative(af, ab);
        if af.contains(x) {
            let k = choose|k: int| 0 <= k < af.len() && af[k] == x;
            assert(a[k].0 == a[m].0);
        }
        let rest = ab.drop_first();
        assert(ab =~= seq![x] + rest);
        vstd::seq_lib::lemma_multiset_commutative(seq![x], rest);
        if rest.contains(x) {
            let k = choose|k: int| 0 <= k < rest.len() && rest[k] == x;
            assert(a[m + 1 + k].0 == a[m].0);
        }
        assert(Seq::<(Seq<char>, T)>::empty().push(x) =~= seq![x]);
        assert(seq![x].to_multiset().count(x) == 1);
        assert(a.to_multiset().count(x) <= 1);
    }
}

} // verus!
