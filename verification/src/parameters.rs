//! A map from text to text whose keys ascend.
use crate::json::{Contract, Doc, Fields, Json};
use crate::text::{
    le, lemma_text_le_antisymmetric, lemma_text_le_total, lemma_text_le_transitive, same, text_le,
};
use vstd::prelude::*;

verus! {

#[derive(Debug, PartialEq, Eq, Hash)]
struct Parameter {
    key: String,
    value: String,
}

/// Named text parameters, ordered by name.
#[derive(Debug, PartialEq, Eq, Hash)]
pub struct Parameters {
    entries: Vec<Parameter>,
}

/// The value of `key`, if there is one.
pub open spec fn lookup(entries: Seq<(Seq<char>, Seq<char>)>, key: Seq<char>) -> Option<Seq<char>>
    decreases entries.len(),
{
    if entries.len() == 0 {
        None
    } else if entries.last().0 == key {
        Some(entries.last().1)
    } else {
        lookup(entries.drop_last(), key)
    }
}

/// The entries with `key` set to `value`, in its place by order.
pub open spec fn with_parameter(
    entries: Seq<(Seq<char>, Seq<char>)>,
    key: Seq<char>,
    value: Seq<char>,
) -> Seq<(Seq<char>, Seq<char>)>
    decreases entries.len(),
{
    if entries.len() == 0 {
        seq![(key, value)]
    } else if entries.last().0 == key {
        entries.drop_last().push((key, value))
    } else if text_le(entries.last().0, key) {
        entries.push((key, value))
    } else {
        with_parameter(entries.drop_last(), key, value).push(entries.last())
    }
}

/// The keys ascend and none occurs twice.
pub open spec fn keys_ascend(entries: Seq<(Seq<char>, Seq<char>)>) -> bool {
    forall|i: int, j: int|
        #![trigger entries[i], entries[j]]
        0 <= i < j < entries.len() ==> text_le(entries[i].0, entries[j].0) && entries[i].0
            != entries[j].0
}

spec fn entries_view(entries: Seq<Parameter>) -> Seq<(Seq<char>, Seq<char>)> {
    Seq::new(entries.len(), |i: int| (entries[i].key@, entries[i].value@))
}

/// The members of the object that the parameters are written as.
pub open spec fn parameters_doc(entries: Seq<(Seq<char>, Seq<char>)>) -> Doc {
    Doc::Obj(Seq::new(entries.len(), |i: int| (entries[i].0, Doc::Str(entries[i].1))))
}

proof fn lemma_with_parameter_at(
    entries: Seq<(Seq<char>, Seq<char>)>,
    key: Seq<char>,
    value: Seq<char>,
    at: int,
)
    requires
        0 <= at <= entries.len(),
        at > 0 ==> entries[at - 1].0 != key && text_le(entries[at - 1].0, key),
        forall|i: int|
            at <= i < entries.len() ==> (#[trigger] entries[i]).0 != key && !text_le(
                entries[i].0,
                key,
            ),
    ensures
        with_parameter(entries, key, value) == entries.insert(at, (key, value)),
    decreases entries.len(),
{
    if at == entries.len() {
        if at == 0 {
            assert(entries.insert(at, (key, value)) =~= seq![(key, value)]);
        } else {
            assert(entries.last() == entries[at - 1]);
            assert(entries.insert(at, (key, value)) =~= entries.push((key, value)));
        }
    } else {
        assert(entries.last() == entries[entries.len() - 1]);
        lemma_with_parameter_at(entries.drop_last(), key, value, at);
        assert(entries.drop_last().insert(at, (key, value)).push(entries.last())
            =~= entries.insert(at, (key, value)));
    }
}

proof fn lemma_with_parameter_replaces(
    entries: Seq<(Seq<char>, Seq<char>)>,
    key: Seq<char>,
    value: Seq<char>,
    at: int,
)
    requires
        0 <= at < entries.len(),
        entries[at].0 == key,
        forall|i: int|
            at < i < entries.len() ==> (#[trigger] entries[i]).0 != key && !text_le(
                entries[i].0,
                key,
            ),
    ensures
        with_parameter(entries, key, value) == entries.update(at, (key, value)),
    decreases entries.len(),
{
    assert(entries.last() == entries[entries.len() - 1]);
    if at == entries.len() - 1 {
        assert(entries.drop_last().push((key, value)) =~= entries.update(at, (key, value)));
    } else {
        lemma_with_parameter_replaces(entries.drop_last(), key, value, at);
        assert(entries.drop_last().update(at, (key, value)).push(entries.last()) =~= entries.update(
            at,
            (key, value),
        ));
    }
}

proof fn lemma_key_kept(
    entries: Seq<(Seq<char>, Seq<char>)>,
    key: Seq<char>,
    value: Seq<char>,
    i: int,
)
    requires
        0 <= i < with_parameter(entries, key, value).len(),
    ensures
        with_parameter(entries, key, value)[i].0 == key || exists|j: int|
            0 <= j < entries.len() && (#[trigger] entries[j]).0 == with_parameter(
                entries,
                key,
                value,
            )[i].0,
    decreases entries.len(),
{
    let next = with_parameter(entries, key, value);
    if entries.len() == 0 {
    } else if entries.last().0 == key || text_le(entries.last().0, key) {
        if i < entries.len() {
            assert(next[i] == entries[i] || next[i].0 == key);
            assert(next[i].0 == key || entries[i].0 == next[i].0);
        }
    } else {
        let shorter = entries.drop_last();
        if i < next.len() - 1 {
            lemma_key_kept(shorter, key, value, i);
            assert(next[i] == with_parameter(shorter, key, value)[i]);
            if next[i].0 != key {
                let j = choose|j: int|
                    0 <= j < shorter.len() && (#[trigger] shorter[j]).0 == next[i].0;
                assert(entries[j].0 == next[i].0);
            }
        } else {
            assert(entries[entries.len() - 1].0 == next[i].0);
        }
    }
}

/// Setting a parameter keeps the keys ascending and distinct.
pub proof fn law_keys_stay_ascending(
    entries: Seq<(Seq<char>, Seq<char>)>,
    key: Seq<char>,
    value: Seq<char>,
)
    requires
        keys_ascend(entries),
    ensures
        keys_ascend(with_parameter(entries, key, value)),
    decreases entries.len(),
{
    let next = with_parameter(entries, key, value);
    if entries.len() == 0 {
    } else if entries.last().0 == key {
        assert forall|i: int, j: int|
            #![trigger next[i], next[j]]
            0 <= i < j < next.len() implies text_le(next[i].0, next[j].0) && next[i].0
            != next[j].0 by {
            assert(next[i].0 == entries[i].0);
            assert(next[j].0 == entries[j].0);
        }
    } else if text_le(entries.last().0, key) {
        assert forall|i: int, j: int|
            #![trigger next[i], next[j]]
            0 <= i < j < next.len() implies text_le(next[i].0, next[j].0) && next[i].0
            != next[j].0 by {
            assert(next[i] == entries[i]);
            if j == entries.len() {
                if i < entries.len() - 1 {
                    assert(text_le(entries[i].0, entries[entries.len() - 1].0));
                    lemma_text_le_transitive(entries[i].0, entries.last().0, key);
                    if entries[i].0 == key {
                        lemma_text_le_antisymmetric(entries[i].0, entries.last().0);
                    }
                }
            } else {
                assert(next[j] == entries[j]);
            }
        }
    } else {
        let shorter = entries.drop_last();
        let inner = with_parameter(shorter, key, value);
        assert forall|i: int, j: int|
            #![trigger shorter[i], shorter[j]]
            0 <= i < j < shorter.len() implies text_le(shorter[i].0, shorter[j].0) && shorter[i].0
            != shorter[j].0 by {
            assert(text_le(entries[i].0, entries[j].0));
        }
        law_keys_stay_ascending(shorter, key, value);
        lemma_text_le_total(entries.last().0, key);
        assert forall|i: int, j: int|
            #![trigger next[i], next[j]]
            0 <= i < j < next.len() implies text_le(next[i].0, next[j].0) && next[i].0
            != next[j].0 by {
            if j < inner.len() {
                assert(next[i] == inner[i]);
                assert(next[j] == inner[j]);
            } else {
                assert(next[j] == entries.last());
                assert(next[i] == inner[i]);
                lemma_key_kept(shorter, key, value, i);
                if inner[i].0 != key {
                    let m = choose|m: int|
                        0 <= m < shorter.len() && (#[trigger] shorter[m]).0 == inner[i].0;
                    assert(text_le(entries[m].0, entries[entries.len() - 1].0));
                }
            }
        }
    }
}

/// A parameter that was set is found, and no other changes.
pub proof fn law_lookup_after_setting(
    entries: Seq<(Seq<char>, Seq<char>)>,
    key: Seq<char>,
    value: Seq<char>,
    other: Seq<char>,
)
    ensures
        lookup(with_parameter(entries, key, value), other) == if other == key {
            Some(value)
        } else {
            lookup(entries, other)
        },
    decreases entries.len(),
{
    let next = with_parameter(entries, key, value);
    reveal_with_fuel(lookup, 2);
    if entries.len() == 0 {
        assert(next.drop_last() =~= Seq::<(Seq<char>, Seq<char>)>::empty());
    } else if entries.last().0 == key {
        assert(next.drop_last() =~= entries.drop_last());
    } else if text_le(entries.last().0, key) {
        assert(next.drop_last() =~= entries);
    } else {
        law_lookup_after_setting(entries.drop_last(), key, value, other);
        assert(next.drop_last() =~= with_parameter(entries.drop_last(), key, value));
        lemma_text_le_total(entries.last().0, entries.last().0);
    }
}

/// A key that is found stands in the row.
pub proof fn lemma_lookup_place(entries: Seq<(Seq<char>, Seq<char>)>, key: Seq<char>)
    ensures
        lookup(entries, key) is Some <==> exists|i: int|
            0 <= i < entries.len() && (#[trigger] entries[i]).0 == key,
    decreases entries.len(),
{
    if entries.len() > 0 {
        assert(entries.last() == entries[entries.len() - 1]);
        if entries.last().0 != key {
            let shorter = entries.drop_last();
            lemma_lookup_place(shorter, key);
            if exists|i: int| 0 <= i < entries.len() && (#[trigger] entries[i]).0 == key {
                let i = choose|i: int| 0 <= i < entries.len() && (#[trigger] entries[i]).0 == key;
                assert(shorter[i].0 == key);
            }
            if exists|i: int| 0 <= i < shorter.len() && (#[trigger] shorter[i]).0 == key {
                let i = choose|i: int| 0 <= i < shorter.len() && (#[trigger] shorter[i]).0 == key;
                assert(entries[i].0 == key);
            }
        }
    }
}

impl Parameters {
    /// The parameters by ascending name.
    pub closed spec fn entries(&self) -> Seq<(Seq<char>, Seq<char>)> {
        entries_view(self.entries@)
    }

    /// The value of a parameter.
    pub open spec fn value_of(&self, key: Seq<char>) -> Option<Seq<char>> {
        lookup(self.entries(), key)
    }

    #[verifier::type_invariant]
    spec fn ordered(&self) -> bool {
        keys_ascend(entries_view(self.entries@))
    }

    pub fn new() -> (result: Self)
        ensures
            result.entries() == Seq::<(Seq<char>, Seq<char>)>::empty(),
    {
        let result = Parameters { entries: Vec::new() };
        assert(result.entries() =~= Seq::<(Seq<char>, Seq<char>)>::empty());
        result
    }

    /// Sets one parameter.
    pub fn insert(&mut self, key: &str, value: &str)
        ensures
            final(self).entries() == with_parameter(old(self).entries(), key@, value@),
            keys_ascend(final(self).entries()),
    {
        proof {
            use_type_invariant(&*self);
        }
        let mut entries: Vec<Parameter> = Vec::new();
        let ghost before = self.entries();
        assert(entries_view(entries@) =~= Seq::<(Seq<char>, Seq<char>)>::empty());
        std::mem::swap(&mut entries, &mut self.entries);
        let mut at: usize = entries.len();
        let mut found: bool = false;
        while at > 0 && !found && !(le(entries[at - 1].key.as_str(), key))
            invariant
                at <= entries@.len(),
                !found,
                before == entries_view(entries@),
                forall|i: int|
                    at <= i < entries@.len() ==> (#[trigger] before[i]).0 != key@ && !text_le(
                        before[i].0,
                        key@,
                    ),
            decreases at,
        {
            proof {
                lemma_text_le_total(before[at - 1].0, before[at - 1].0);
            }
            at -= 1;
        }
        if at > 0 && same(entries[at - 1].key.as_str(), key) {
            found = true;
        }
        let parameter = Parameter { key: key.to_owned(), value: value.to_owned() };
        proof {
            law_keys_stay_ascending(before, key@, value@);
            if found {
                assert(before[at - 1].0 == key@);
                lemma_with_parameter_replaces(before, key@, value@, at - 1);
            } else {
                if at > 0 {
                    assert(before[at - 1].0 != key@);
                }
                lemma_with_parameter_at(before, key@, value@, at as int);
            }
        }
        if found {
            entries.set(at - 1, parameter);
            assert(entries_view(entries@) =~= before.update(at - 1, (key@, value@)));
        } else {
            entries.insert(at, parameter);
            assert(entries_view(entries@) =~= before.insert(at as int, (key@, value@)));
        }
        self.entries = entries;
    }

    /// The value of a parameter, if it is set.
    pub fn get(&self, key: &str) -> (result: Option<&str>)
        ensures
            match result {
                Some(value) => self.value_of(key@) == Some(value@),
                None => self.value_of(key@) is None,
            },
    {
        let mut at: usize = self.entries.len();
        let ghost all = self.entries();
        assert(all.take(at as int) =~= all);
        while at > 0
            invariant
                at <= self.entries@.len(),
                all == entries_view(self.entries@),
                lookup(all, key@) == lookup(all.take(at as int), key@),
            decreases at,
        {
            assert(all.take(at as int).last() == all[at - 1]);
            assert(all.take(at as int).drop_last() =~= all.take(at - 1));
            if same(self.entries[at - 1].key.as_str(), key) {
                return Some(self.entries[at - 1].value.as_str());
            }
            at -= 1;
        }
        None
    }

    pub fn contains_key(&self, key: &str) -> (result: bool)
        ensures
            result == (self.value_of(key@) is Some),
    {
        self.get(key).is_some()
    }

    pub fn len(&self) -> (result: usize)
        ensures
            result == self.entries().len(),
    {
        self.entries.len()
    }

    pub fn is_empty(&self) -> (result: bool)
        ensures
            result == (self.entries().len() == 0),
    {
        self.entries.len() == 0
    }

    /// The name at a position.
    pub fn key_at(&self, at: usize) -> (result: &str)
        requires
            at < self.entries().len(),
        ensures
            result@ == self.entries()[at as int].0,
    {
        self.entries[at].key.as_str()
    }

    /// The value at a position.
    pub fn value_at(&self, at: usize) -> (result: &str)
        requires
            at < self.entries().len(),
        ensures
            result@ == self.entries()[at as int].1,
    {
        self.entries[at].value.as_str()
    }
}

impl Contract for Parameters {
    open spec fn doc(&self) -> Doc {
        parameters_doc(self.entries())
    }

    fn to_json(&self) -> (result: Json) {
        let mut fields = Fields::new();
        let mut i: usize = 0;
        let ghost all = parameters_doc(self.entries())->Obj_0;
        assert(all.take(0) =~= Seq::<(Seq<char>, Doc)>::empty());
        while i < self.entries.len()
            invariant
                i <= self.entries@.len(),
                all == parameters_doc(self.entries())->Obj_0,
                fields@ == all.take(i as int),
            decreases self.entries@.len() - i,
        {
            assert(all.take(i + 1) =~= all.take(i as int).push(all[i as int]));
            fields.put_text(self.entries[i].key.as_str(), self.entries[i].value.as_str());
            i += 1;
        }
        assert(all.take(i as int) =~= all);
        fields.finish()
    }

    fn duplicate(&self) -> (result: Self) {
        self.clone()
    }
}

impl Clone for Parameters {
    fn clone(&self) -> (result: Self)
        ensures
            result.entries() == self.entries(),
    {
        proof {
            use_type_invariant(self);
        }
        let mut entries: Vec<Parameter> = Vec::new();
        let mut i: usize = 0;
        while i < self.entries.len()
            invariant
                i <= self.entries@.len(),
                entries@.len() == i,
                forall|k: int|
                    0 <= k < i ==> (#[trigger] entries@[k]).key == self.entries@[k].key
                        && entries@[k].value == self.entries@[k].value,
            decreases self.entries@.len() - i,
        {
            entries.push(
                Parameter {
                    key: self.entries[i].key.clone(),
                    value: self.entries[i].value.clone(),
                },
            );
            i += 1;
        }
        assert(entries_view(entries@) =~= entries_view(self.entries@));
        Parameters { entries }
    }
}

impl Default for Parameters {
    fn default() -> (result: Self)
        ensures
            result.entries() == Seq::<(Seq<char>, Seq<char>)>::empty(),
    {
        Parameters::new()
    }
}

} // verus!
