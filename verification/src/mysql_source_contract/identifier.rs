//! Identifiers in statements.
use crate::text::{chars_of, concat3};
use vstd::prelude::*;

verus! {

/// A text in which every backtick is doubled.
pub open spec fn doubled(text: Seq<char>) -> Seq<char>
    decreases text.len(),
{
    if text.len() == 0 {
        Seq::empty()
    } else if text.last() == '`' {
        doubled(text.drop_last()).push('`').push('`')
    } else {
        doubled(text.drop_last()).push(text.last())
    }
}

/// An identifier between backticks.
pub open spec fn quoted(identifier: Seq<char>) -> Seq<char> {
    seq!['`'] + doubled(identifier) + seq!['`']
}

/// Quotes an identifier, so that it can hold any character.
pub fn quote_identifier(identifier: &str) -> (result: String)
    ensures
        result@ == quoted(identifier@),
{
    let chars = chars_of(identifier);
    let mut text = String::new();
    text.push('`');
    let mut i: usize = 0;
    assert(text@ =~= seq!['`'] + doubled(chars@.take(0)));
    while i < chars.len()
        invariant
            i <= chars@.len(),
            text@ == seq!['`'] + doubled(chars@.take(i as int)),
        decreases chars@.len() - i,
    {
        let ghost before = text@;
        assert(chars@.take(i + 1).drop_last() =~= chars@.take(i as int));
        if chars[i] == '`' {
            text.push('`');
        }
        text.push(chars[i]);
        assert(text@ =~= seq!['`'] + doubled(chars@.take(i + 1)));
        i += 1;
    }
    assert(chars@.take(i as int) =~= chars@);
    text.push('`');
    assert(text@ =~= quoted(identifier@));
    text
}

proof fn lemma_doubled_is_injective(a: Seq<char>, b: Seq<char>)
    requires
        doubled(a) == doubled(b),
    ensures
        a == b,
    decreases a.len() + b.len(),
{
    if a.len() == 0 {
        if b.len() > 0 {
            assert(doubled(b).len() > 0);
        }
        assert(a =~= b);
    } else if b.len() == 0 {
        assert(doubled(a).len() > 0);
    } else {
        assert(doubled(a).last() == a.last());
        assert(doubled(b).last() == b.last());
        if a.last() == '`' {
            assert(doubled(a).drop_last().drop_last() =~= doubled(a.drop_last()));
            assert(doubled(b).drop_last().drop_last() =~= doubled(b.drop_last()));
        } else {
            assert(doubled(a).drop_last() =~= doubled(a.drop_last()));
            assert(doubled(b).drop_last() =~= doubled(b.drop_last()));
        }
        lemma_doubled_is_injective(a.drop_last(), b.drop_last());
        assert(a =~= a.drop_last().push(a.last()));
        assert(b =~= b.drop_last().push(b.last()));
    }
}

/// Quoting loses nothing: two identifiers that are quoted alike are the same.
pub proof fn law_quoting_keeps_identifiers_apart(a: Seq<char>, b: Seq<char>)
    requires
        quoted(a) == quoted(b),
    ensures
        a == b,
{
    assert(quoted(a).subrange(1, quoted(a).len() - 1) =~= doubled(a));
    assert(quoted(b).subrange(1, quoted(b).len() - 1) =~= doubled(b));
    lemma_doubled_is_injective(a, b);
}

/// The name of a table with its schema.
pub open spec fn table_name(schema: Seq<char>, table: Seq<char>) -> Seq<char> {
    quoted(schema) + "."@ + quoted(table)
}

pub fn qualified_table(schema: &str, table: &str) -> (result: String)
    ensures
        result@ == table_name(schema@, table@),
{
    let schema = quote_identifier(schema);
    let table = quote_identifier(table);
    concat3(schema.as_str(), ".", table.as_str())
}

} // verus!
