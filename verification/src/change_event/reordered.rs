//! Values that differ in an order without meaning, at any depth.
use crate::change_event::model::{
    canonical_entries, canonical_json_value_doc, canonical_members, canonical_value_doc, entry_doc,
    ints_doc, json_entry_doc, member_pairs, JsonEntry, JsonValue, LogicalValue, MapEntry,
};
use crate::json::{collide, digest, Doc};
use crate::order::{distinct_keys, law_sort_ignores_order};
use crate::text::texts;
use vstd::prelude::*;

verus! {

/// The documents differ in the order of the members of objects alone.
pub open spec fn json_reordered(a: JsonValue, b: JsonValue) -> bool
    decreases a,
{
    match (a, b) {
        (JsonValue::Array(x), JsonValue::Array(y)) => x@.len() == y@.len() && forall|i: int|
            0 <= i < x@.len() ==> json_reordered(#[trigger] x@[i], y@[i]),
        (JsonValue::Object(x), JsonValue::Object(y)) => {
            &&& forall|i: int|
                0 <= i < x@.len() ==> exists|j: int|
                    0 <= j < y@.len() && (#[trigger] x@[i]).key@ == (#[trigger] y@[j]).key@
                        && json_reordered(x@[i].value, y@[j].value)
            &&& forall|j: int|
                0 <= j < y@.len() ==> exists|i: int|
                    0 <= i < x@.len() && (#[trigger] x@[i]).key@ == (#[trigger] y@[j]).key@
                        && json_reordered(x@[i].value, y@[j].value)
        },
        _ => canonical_json_value_doc(a) == canonical_json_value_doc(b),
    }
}

/// No object has a key twice.
pub open spec fn json_told_apart(value: JsonValue) -> bool
    decreases value,
{
    match value {
        JsonValue::Array(items) => forall|i: int|
            0 <= i < items@.len() ==> json_told_apart(#[trigger] items@[i]),
        JsonValue::Object(entries) => {
            &&& forall|i: int, j: int|
                #![trigger entries@[i], entries@[j]]
                0 <= i < entries@.len() && 0 <= j < entries@.len() && entries@[i].key@
                    == entries@[j].key@ ==> i == j
            &&& forall|i: int|
                0 <= i < entries@.len() ==> json_told_apart((#[trigger] entries@[i]).value)
        },
        _ => true,
    }
}

/// The values differ in the order of set members, map entries and members of
/// objects alone.
pub open spec fn reordered(a: LogicalValue, b: LogicalValue) -> bool
    decreases a,
{
    match (a, b) {
        (LogicalValue::Json { value: x }, LogicalValue::Json { value: y }) => json_reordered(x, y),
        (LogicalValue::SetValue { members: x }, LogicalValue::SetValue { members: y }) => forall|
            text: Seq<char>,
        | #[trigger]
            texts(x@).contains(text) <==> texts(y@).contains(text),
        (LogicalValue::MapValue { entries: x }, LogicalValue::MapValue { entries: y }) => {
            &&& forall|i: int|
                0 <= i < x@.len() ==> exists|j: int|
                    0 <= j < y@.len() && reordered((#[trigger] x@[i]).key, (#[trigger] y@[j]).key)
                        && reordered(x@[i].value, y@[j].value)
            &&& forall|j: int|
                0 <= j < y@.len() ==> exists|i: int|
                    0 <= i < x@.len() && reordered((#[trigger] x@[i]).key, (#[trigger] y@[j]).key)
                        && reordered(x@[i].value, y@[j].value)
        },
        (LogicalValue::Array { elements: x }, LogicalValue::Array { elements: y }) => x@.len()
            == y@.len() && forall|i: int|
            0 <= i < x@.len() ==> reordered(#[trigger] x@[i], y@[i]),
        (LogicalValue::MultiRange { ranges: x }, LogicalValue::MultiRange { ranges: y }) => x@.len()
            == y@.len() && forall|i: int|
            0 <= i < x@.len() ==> reordered(#[trigger] x@[i], y@[i]),
        (
            LogicalValue::ArrayWithMetadata { elements: x, dimensions: m, lower_bounds: p },
            LogicalValue::ArrayWithMetadata { elements: y, dimensions: n, lower_bounds: q },
        ) => m == n && p@ == q@ && x@.len() == y@.len() && forall|i: int|
            0 <= i < x@.len() ==> reordered(#[trigger] x@[i], y@[i]),
        (LogicalValue::Struct { fields: x }, LogicalValue::Struct { fields: y }) => x@.len()
            == y@.len() && forall|i: int|
            0 <= i < x@.len() ==> (#[trigger] x@[i]).name@ == y@[i].name@ && reordered(
                x@[i].value,
                y@[i].value,
            ),
        (
            LogicalValue::Range {
                empty: e,
                lower: l,
                upper: u,
                lower_inclusive: m,
                upper_inclusive: n,
            },
            LogicalValue::Range {
                empty: f,
                lower: k,
                upper: v,
                lower_inclusive: p,
                upper_inclusive: q,
            },
        ) => {
            &&& e == f && m == p && n == q
            &&& match (l, k) {
                (Some(l), Some(k)) => reordered(*l, *k),
                (None, None) => true,
                _ => false,
            }
            &&& match (u, v) {
                (Some(u), Some(v)) => reordered(*u, *v),
                (None, None) => true,
                _ => false,
            }
        },
        (LogicalValue::Domain { value: x }, LogicalValue::Domain { value: y }) => reordered(*x, *y),
        _ => canonical_value_doc(a) == canonical_value_doc(b),
    }
}

/// No object has a key twice, no set a member, and no map two keys with one
/// digest.
pub open spec fn told_apart(value: LogicalValue) -> bool
    decreases value,
{
    match value {
        LogicalValue::Json { value } => json_told_apart(value),
        LogicalValue::SetValue { members } => texts(members@).no_duplicates(),
        LogicalValue::MapValue { entries } => distinct_keys(canonical_entries(entries@))
            && forall|i: int|
            0 <= i < entries@.len() ==> told_apart((#[trigger] entries@[i]).key) && told_apart(
                entries@[i].value,
            ),
        LogicalValue::Array { elements } => forall|i: int|
            0 <= i < elements@.len() ==> told_apart(#[trigger] elements@[i]),
        LogicalValue::MultiRange { ranges } => forall|i: int|
            0 <= i < ranges@.len() ==> told_apart(#[trigger] ranges@[i]),
        LogicalValue::ArrayWithMetadata { elements, .. } => forall|i: int|
            0 <= i < elements@.len() ==> told_apart(#[trigger] elements@[i]),
        LogicalValue::Struct { fields } => forall|i: int|
            0 <= i < fields@.len() ==> told_apart((#[trigger] fields@[i]).value),
        LogicalValue::Range { lower, upper, .. } => {
            &&& lower matches Some(bound) ==> told_apart(*bound)
            &&& upper matches Some(bound) ==> told_apart(*bound)
        },
        LogicalValue::Domain { value } => told_apart(*value),
        _ => true,
    }
}

/// Rows of pairs with the same pairs, each key once, are the same up to their
/// order.
proof fn lemma_same_pairs(a: Seq<(Seq<char>, Doc)>, b: Seq<(Seq<char>, Doc)>)
    requires
        distinct_keys(a),
        distinct_keys(b),
        forall|i: int| 0 <= i < a.len() ==> b.contains(#[trigger] a[i]),
        forall|j: int| 0 <= j < b.len() ==> a.contains(#[trigger] b[j]),
    ensures
        a.to_multiset() == b.to_multiset(),
{
    broadcast use vstd::seq_lib::group_to_multiset_ensures;

    assert(a.no_duplicates()) by {
        assert forall|i: int, j: int| 0 <= i < a.len() && 0 <= j < a.len() && i != j implies a[i]
            != a[j] by {}
    }
    assert(b.no_duplicates()) by {
        assert forall|i: int, j: int| 0 <= i < b.len() && 0 <= j < b.len() && i != j implies b[i]
            != b[j] by {}
    }
    a.lemma_multiset_has_no_duplicates();
    b.lemma_multiset_has_no_duplicates();
    assert forall|pair: (Seq<char>, Doc)| #[trigger] a.to_multiset().count(pair)
        == b.to_multiset().count(pair) by {
        if a.contains(pair) {
            let i = a.index_of(pair);
            assert(b.contains(a[i]));
            assert(a.to_multiset().contains(pair) && b.to_multiset().contains(pair));
        } else if b.contains(pair) {
            let j = b.index_of(pair);
            assert(a.contains(b[j]));
        }
    }
    assert(a.to_multiset() =~= b.to_multiset());
}

proof fn lemma_canonical_members(entries: Seq<JsonEntry>)
    ensures
        canonical_members(entries).len() == entries.len(),
        forall|i: int|
            0 <= i < entries.len() ==> #[trigger] canonical_members(entries)[i] == (
                entries[i].key@,
                json_entry_doc(entries[i].key@, canonical_json_value_doc(entries[i].value)),
            ),
    decreases entries.len(),
{
    if entries.len() > 0 {
        lemma_canonical_members(entries.drop_last());
        assert forall|i: int| 0 <= i < entries.len() implies #[trigger] canonical_members(
            entries,
        )[i] == (
            entries[i].key@,
            json_entry_doc(entries[i].key@, canonical_json_value_doc(entries[i].value)),
        ) by {
            if i < entries.len() - 1 {
                assert(canonical_members(entries)[i] == canonical_members(
                    entries.drop_last(),
                )[i]);
            }
        }
    }
}

proof fn lemma_canonical_entries(entries: Seq<MapEntry>)
    ensures
        canonical_entries(entries).len() == entries.len(),
        forall|i: int|
            0 <= i < entries.len() ==> #[trigger] canonical_entries(entries)[i] == (
                digest(canonical_value_doc(entries[i].key)),
                entry_doc(
                    canonical_value_doc(entries[i].key),
                    canonical_value_doc(entries[i].value),
                ),
            ),
    decreases entries.len(),
{
    if entries.len() > 0 {
        lemma_canonical_entries(entries.drop_last());
        assert forall|i: int| 0 <= i < entries.len() implies #[trigger] canonical_entries(
            entries,
        )[i] == (
            digest(canonical_value_doc(entries[i].key)),
            entry_doc(canonical_value_doc(entries[i].key), canonical_value_doc(entries[i].value)),
        ) by {
            if i < entries.len() - 1 {
                assert(canonical_entries(entries)[i] == canonical_entries(
                    entries.drop_last(),
                )[i]);
            }
        }
    }
}

/// The order of the members of objects, at any depth, is no part of a
/// document's canonical form.
pub proof fn law_reordered_documents_have_one_form(a: JsonValue, b: JsonValue)
    requires
        json_reordered(a, b),
        json_told_apart(a),
        json_told_apart(b),
    ensures
        canonical_json_value_doc(a) == canonical_json_value_doc(b),
    decreases a,
{
    match (a, b) {
        (JsonValue::Array(x), JsonValue::Array(y)) => {
            assert forall|i: int| 0 <= i < x@.len() implies canonical_json_value_doc(
                #[trigger] x@[i],
            ) == canonical_json_value_doc(y@[i]) by {
                assert(json_told_apart(y@[i]));
                law_reordered_documents_have_one_form(x@[i], y@[i]);
            }
            assert(canonical_json_value_doc(a)->Obj_0[1].1->Arr_0 =~= canonical_json_value_doc(
                b,
            )->Obj_0[1].1->Arr_0);
        },
        (JsonValue::Object(x), JsonValue::Object(y)) => {
            let m = canonical_members(x@);
            let n = canonical_members(y@);
            lemma_canonical_members(x@);
            lemma_canonical_members(y@);
            assert forall|i: int| 0 <= i < m.len() implies n.contains(#[trigger] m[i]) by {
                assert(x@[i] == x@[i]);
                let j = choose|j: int|
                    0 <= j < y@.len() && x@[i].key@ == (#[trigger] y@[j]).key@ && json_reordered(
                        x@[i].value,
                        y@[j].value,
                    );
                law_reordered_documents_have_one_form(x@[i].value, y@[j].value);
                assert(n[j] == m[i]);
            }
            assert forall|j: int| 0 <= j < n.len() implies m.contains(#[trigger] n[j]) by {
                assert(y@[j] == y@[j]);
                let i = choose|i: int|
                    0 <= i < x@.len() && (#[trigger] x@[i]).key@ == y@[j].key@ && json_reordered(
                        x@[i].value,
                        y@[j].value,
                    );
                law_reordered_documents_have_one_form(x@[i].value, y@[j].value);
                assert(m[i] == n[j]);
            }
            assert(distinct_keys(m)) by {
                assert forall|i: int, j: int|
                    #![trigger m[i], m[j]]
                    0 <= i < m.len() && 0 <= j < m.len() && m[i].0 == m[j].0 implies i == j by {
                    assert(x@[i].key@ == x@[j].key@);
                }
            }
            assert(distinct_keys(n)) by {
                assert forall|i: int, j: int|
                    #![trigger n[i], n[j]]
                    0 <= i < n.len() && 0 <= j < n.len() && n[i].0 == n[j].0 implies i == j by {
                    assert(y@[i].key@ == y@[j].key@);
                }
            }
            lemma_same_pairs(m, n);
            law_sort_ignores_order(m, n);
        },
        _ => {},
    }
}

proof fn lemma_reordered_set(x: Seq<String>, y: Seq<String>)
    requires
        forall|text: Seq<char>| #[trigger] texts(x).contains(text) <==> texts(y).contains(text),
        texts(x).no_duplicates(),
        texts(y).no_duplicates(),
    ensures
        crate::order::sort_by_key(member_pairs(x)) == crate::order::sort_by_key(member_pairs(y)),
{
    let m = member_pairs(x);
    let n = member_pairs(y);
    assert forall|i: int| 0 <= i < m.len() implies n.contains(#[trigger] m[i]) by {
        assert(texts(x)[i] == x[i]@);
        assert(texts(x).contains(x[i]@));
        let j = texts(y).index_of(x[i]@);
        assert(texts(y)[j] == x[i]@);
        assert(n[j] == m[i]);
    }
    assert forall|j: int| 0 <= j < n.len() implies m.contains(#[trigger] n[j]) by {
        assert(texts(y)[j] == y[j]@);
        assert(texts(y).contains(y[j]@));
        assert(texts(x).contains(y[j]@));
        let i = texts(x).index_of(y[j]@);
        assert(texts(x)[i] == y[j]@);
        assert(m[i] == n[j]);
    }
    assert(distinct_keys(m)) by {
        assert forall|i: int, j: int|
            #![trigger m[i], m[j]]
            0 <= i < m.len() && 0 <= j < m.len() && m[i].0 == m[j].0 implies i == j by {
            assert(texts(x)[i] == texts(x)[j]);
        }
    }
    assert(distinct_keys(n)) by {
        assert forall|i: int, j: int|
            #![trigger n[i], n[j]]
            0 <= i < n.len() && 0 <= j < n.len() && n[i].0 == n[j].0 implies i == j by {
            assert(texts(y)[i] == texts(y)[j]);
        }
    }
    lemma_same_pairs(m, n);
    law_sort_ignores_order(m, n);
}

/// The order of set members, map entries and members of objects, at any depth,
/// is no part of a value's content: values that differ in it alone have one
/// digest.
pub proof fn law_reordered_values_have_one_digest(a: LogicalValue, b: LogicalValue)
    requires
        reordered(a, b),
        told_apart(a),
        told_apart(b),
    ensures
        canonical_value_doc(a) == canonical_value_doc(b),
        digest(canonical_value_doc(a)) == digest(canonical_value_doc(b)),
    decreases a,
{
    match (a, b) {
        (LogicalValue::Json { value: x }, LogicalValue::Json { value: y }) => {
            law_reordered_documents_have_one_form(x, y);
        },
        (LogicalValue::SetValue { members: x }, LogicalValue::SetValue { members: y }) => {
            lemma_reordered_set(x@, y@);
        },
        (LogicalValue::MapValue { entries: x }, LogicalValue::MapValue { entries: y }) => {
            let m = canonical_entries(x@);
            let n = canonical_entries(y@);
            lemma_canonical_entries(x@);
            lemma_canonical_entries(y@);
            assert forall|i: int| 0 <= i < m.len() implies n.contains(#[trigger] m[i]) by {
                assert(x@[i] == x@[i]);
                let j = choose|j: int|
                    0 <= j < y@.len() && reordered(x@[i].key, (#[trigger] y@[j]).key) && reordered(
                        x@[i].value,
                        y@[j].value,
                    );
                law_reordered_values_have_one_digest(x@[i].key, y@[j].key);
                law_reordered_values_have_one_digest(x@[i].value, y@[j].value);
                assert(n[j] == m[i]);
            }
            assert forall|j: int| 0 <= j < n.len() implies m.contains(#[trigger] n[j]) by {
                assert(y@[j] == y@[j]);
                let i = choose|i: int|
                    0 <= i < x@.len() && reordered((#[trigger] x@[i]).key, y@[j].key) && reordered(
                        x@[i].value,
                        y@[j].value,
                    );
                law_reordered_values_have_one_digest(x@[i].key, y@[j].key);
                law_reordered_values_have_one_digest(x@[i].value, y@[j].value);
                assert(m[i] == n[j]);
            }
            lemma_same_pairs(m, n);
            law_sort_ignores_order(m, n);
        },
        (LogicalValue::Array { elements: x }, LogicalValue::Array { elements: y }) => {
            assert forall|i: int| 0 <= i < x@.len() implies canonical_value_doc(#[trigger] x@[i])
                == canonical_value_doc(y@[i]) by {
                assert(told_apart(y@[i]));
                law_reordered_values_have_one_digest(x@[i], y@[i]);
            }
            assert(canonical_value_doc(a)->Obj_0[1].1->Arr_0 =~= canonical_value_doc(
                b,
            )->Obj_0[1].1->Arr_0);
        },
        (LogicalValue::MultiRange { ranges: x }, LogicalValue::MultiRange { ranges: y }) => {
            assert forall|i: int| 0 <= i < x@.len() implies canonical_value_doc(#[trigger] x@[i])
                == canonical_value_doc(y@[i]) by {
                assert(told_apart(y@[i]));
                law_reordered_values_have_one_digest(x@[i], y@[i]);
            }
            assert(canonical_value_doc(a)->Obj_0[1].1->Arr_0 =~= canonical_value_doc(
                b,
            )->Obj_0[1].1->Arr_0);
        },
        (
            LogicalValue::ArrayWithMetadata { elements: x, lower_bounds: p, .. },
            LogicalValue::ArrayWithMetadata { elements: y, lower_bounds: q, .. },
        ) => {
            assert forall|i: int| 0 <= i < x@.len() implies canonical_value_doc(#[trigger] x@[i])
                == canonical_value_doc(y@[i]) by {
                assert(told_apart(y@[i]));
                law_reordered_values_have_one_digest(x@[i], y@[i]);
            }
            assert(ints_doc(p@) == ints_doc(q@));
            assert(canonical_value_doc(a)->Obj_0[1].1->Arr_0 =~= canonical_value_doc(
                b,
            )->Obj_0[1].1->Arr_0);
        },
        (LogicalValue::Struct { fields: x }, LogicalValue::Struct { fields: y }) => {
            assert forall|i: int| 0 <= i < x@.len() implies canonical_value_doc(
                (#[trigger] x@[i]).value,
            ) == canonical_value_doc(y@[i].value) by {
                assert(told_apart(y@[i].value));
                law_reordered_values_have_one_digest(x@[i].value, y@[i].value);
            }
            assert(canonical_value_doc(a)->Obj_0[1].1->Arr_0 =~= canonical_value_doc(
                b,
            )->Obj_0[1].1->Arr_0);
        },
        (
            LogicalValue::Range { lower: l, upper: u, .. },
            LogicalValue::Range { lower: k, upper: v, .. },
        ) => {
            match (l, k) {
                (Some(l), Some(k)) => {
                    law_reordered_values_have_one_digest(*l, *k);
                },
                _ => {},
            }
            match (u, v) {
                (Some(u), Some(v)) => {
                    law_reordered_values_have_one_digest(*u, *v);
                },
                _ => {},
            }
        },
        (LogicalValue::Domain { value: x }, LogicalValue::Domain { value: y }) => {
            law_reordered_values_have_one_digest(*x, *y);
        },
        _ => {},
    }
}

/// The order of an array's elements is part of its content: arrays that have
/// different elements at one place have different digests, barring a collision.
pub proof fn law_array_order_is_content(a: Vec<LogicalValue>, b: Vec<LogicalValue>, at: int)
    requires
        0 <= at < a@.len(),
        a@.len() == b@.len(),
        canonical_value_doc(a@[at]) != canonical_value_doc(b@[at]),
        !collide(
            canonical_value_doc(LogicalValue::Array { elements: a }),
            canonical_value_doc(LogicalValue::Array { elements: b }),
        ),
    ensures
        digest(canonical_value_doc(LogicalValue::Array { elements: a })) != digest(
            canonical_value_doc(LogicalValue::Array { elements: b }),
        ),
{
    let x = canonical_value_doc(LogicalValue::Array { elements: a })->Obj_0;
    let y = canonical_value_doc(LogicalValue::Array { elements: b })->Obj_0;
    assert(x[1].1->Arr_0[at] == canonical_value_doc(a@[at]));
    assert(y[1].1->Arr_0[at] == canonical_value_doc(b@[at]));
}

} // verus!
