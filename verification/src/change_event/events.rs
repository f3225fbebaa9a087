//! The events that a transaction is written as.
use crate::change_event::model::{
    put_row_change, row_change_members, ChangeTransaction, RowChange, Source, SourceCursor, FORMAT,
};
use crate::change_event::validate::ValidatedTransaction;
use crate::json::{json_text, write_json, Contract, Doc, Fields, Json};
use crate::text::concat3;
use vstd::prelude::*;

verus! {

/// The place of an event in its transaction.
#[derive(Debug)]
pub struct Transaction {
    pub id: String,
    pub sequence: usize,
    pub begin_cursor: SourceCursor,
    pub commit_cursor: SourceCursor,
}

/// What an event says.
#[derive(Debug)]
pub enum Payload {
    TransactionBegin,
    RowChange { change: Box<RowChange> },
    TransactionCommit { change_count: usize },
}

/// One line of a transaction.
#[derive(Debug)]
pub struct ChangeEvent {
    pub format: String,
    pub source: Source,
    pub transaction: Transaction,
    pub payload: Payload,
}

/// The form of an event's place in its transaction.
pub open spec fn place_doc(id: Seq<char>, sequence: int, begin_cursor: Doc, commit_cursor: Doc) -> Doc {
    Doc::Obj(
        seq![
            ("id"@, Doc::Str(id)),
            ("sequence"@, Doc::Int(sequence)),
            ("begin_cursor"@, begin_cursor),
            ("commit_cursor"@, commit_cursor),
        ],
    )
}

/// The form of an event.
pub open spec fn event_doc(format: Seq<char>, source: Doc, transaction: Doc, payload: Doc) -> Doc {
    Doc::Obj(
        seq![
            ("format"@, Doc::Str(format)),
            ("source"@, source),
            ("transaction"@, transaction),
            ("payload"@, payload),
        ],
    )
}

pub open spec fn begin_doc() -> Doc {
    Doc::Obj(seq![("type"@, Doc::Str("transaction_begin"@))])
}

pub open spec fn row_doc(change: RowChange) -> Doc {
    Doc::Obj(row_change_members(seq![("type"@, Doc::Str("row_change"@))], change, false))
}

pub open spec fn commit_doc(change_count: int) -> Doc {
    Doc::Obj(
        seq![
            ("type"@, Doc::Str("transaction_commit"@)),
            ("change_count"@, Doc::Int(change_count)),
        ],
    )
}

/// The form of what an event says.
pub open spec fn payload_doc(payload: Payload) -> Doc {
    match payload {
        Payload::TransactionBegin => begin_doc(),
        Payload::RowChange { change } => row_doc(*change),
        Payload::TransactionCommit { change_count } => commit_doc(change_count as int),
    }
}

/// What the event at a place of a transaction says: the transaction begins,
/// then come its changes in their order, then it commits.
pub open spec fn payload_at(transaction: ChangeTransaction, sequence: int) -> Doc {
    if sequence <= 0 {
        begin_doc()
    } else if sequence <= transaction.changes@.len() {
        row_doc(transaction.changes@[sequence - 1])
    } else {
        commit_doc(transaction.changes@.len() as int)
    }
}

/// The event at a place of a transaction.
pub open spec fn event_at(transaction: ChangeTransaction, sequence: int) -> Doc {
    event_doc(
        FORMAT@,
        transaction.source.doc(),
        place_doc(
            transaction.id@,
            sequence,
            transaction.begin_cursor.doc(),
            transaction.commit_cursor.doc(),
        ),
        payload_at(transaction, sequence),
    )
}

/// The first `count` lines of a transaction.
pub open spec fn lines(transaction: ChangeTransaction, count: int) -> Seq<char>
    decreases count,
{
    if count <= 0 {
        Seq::empty()
    } else {
        lines(transaction, count - 1) + json_text(event_at(transaction, count - 1)) + "\n"@
    }
}

impl ChangeEvent {
    /// The JSON form.
    pub open spec fn doc(&self) -> Doc {
        event_doc(
            self.format@,
            self.source.doc(),
            place_doc(
                self.transaction.id@,
                self.transaction.sequence as int,
                self.transaction.begin_cursor.doc(),
                self.transaction.commit_cursor.doc(),
            ),
            payload_doc(self.payload),
        )
    }

    pub fn to_json(&self) -> (result: Json)
        ensures
            result@ == self.doc(),
    {
        event_json(
            self.format.as_str(),
            &self.source,
            place_json(
                self.transaction.id.as_str(),
                self.transaction.sequence,
                &self.transaction.begin_cursor,
                &self.transaction.commit_cursor,
            ),
            match &self.payload {
                Payload::TransactionBegin => begin_json(),
                Payload::RowChange { change } => row_json(change),
                Payload::TransactionCommit { change_count } => commit_json(*change_count),
            },
        )
    }
}

fn place_json(
    id: &str,
    sequence: usize,
    begin_cursor: &SourceCursor,
    commit_cursor: &SourceCursor,
) -> (result: Json)
    ensures
        result@ == place_doc(id@, sequence as int, begin_cursor.doc(), commit_cursor.doc()),
{
    let mut fields = Fields::new();
    fields.put_text("id", id);
    fields.put_unsigned("sequence", sequence as u64);
    fields.put("begin_cursor", begin_cursor.to_json());
    fields.put("commit_cursor", commit_cursor.to_json());
    assert(fields@ =~= place_doc(
        id@,
        sequence as int,
        begin_cursor.doc(),
        commit_cursor.doc(),
    )->Obj_0);
    fields.finish()
}

fn event_json(format: &str, source: &Source, transaction: Json, payload: Json) -> (result: Json)
    ensures
        result@ == event_doc(format@, source.doc(), transaction@, payload@),
{
    let mut fields = Fields::new();
    fields.put_text("format", format);
    fields.put("source", source.to_json());
    fields.put("transaction", transaction);
    fields.put("payload", payload);
    assert(fields@ =~= event_doc(format@, source.doc(), transaction@, payload@)->Obj_0);
    fields.finish()
}

fn begin_json() -> (result: Json)
    ensures
        result@ == begin_doc(),
{
    let mut fields = Fields::new();
    fields.put_text("type", "transaction_begin");
    fields.finish()
}

fn row_json(change: &RowChange) -> (result: Json)
    ensures
        result@ == row_doc(*change),
{
    let mut fields = Fields::new();
    fields.put_text("type", "row_change");
    put_row_change(&mut fields, change, false);
    fields.finish()
}

fn commit_json(change_count: usize) -> (result: Json)
    ensures
        result@ == commit_doc(change_count as int),
{
    let mut fields = Fields::new();
    fields.put_text("type", "transaction_commit");
    fields.put_unsigned("change_count", change_count as u64);
    assert(fields@ =~= commit_doc(change_count as int)->Obj_0);
    fields.finish()
}

/// One line: the event at a place of a transaction.
fn line(transaction: &ChangeTransaction, sequence: usize) -> (result: String)
    requires
        sequence <= transaction.changes@.len() + 1,
    ensures
        result@ == json_text(event_at(*transaction, sequence as int)),
{
    let payload = if sequence == 0 {
        begin_json()
    } else if sequence <= transaction.changes.len() {
        row_json(&transaction.changes[sequence - 1])
    } else {
        commit_json(transaction.changes.len())
    };
    let place = place_json(
        transaction.id.as_str(),
        sequence,
        &transaction.begin_cursor,
        &transaction.commit_cursor,
    );
    write_json(&event_json(FORMAT, &transaction.source, place, payload))
}

/// Complete JSON Lines for one validated transaction.
pub fn json(validated: &ValidatedTransaction) -> (result: String)
    requires
        validated.inner().changes@.len() < usize::MAX,
    ensures
        result@ == lines(validated.inner(), validated.inner().changes@.len() + 2int),
{
    let transaction = validated.transaction();
    let mut text = String::new();
    let last: usize = transaction.changes.len() + 1;
    let mut i: usize = 0;
    assert(text@ =~= lines(*transaction, 0));
    while i < last
        invariant
            i <= last == transaction.changes@.len() + 1,
            text@ == lines(*transaction, i as int),
        decreases last - i,
    {
        let next = line(transaction, i);
        text = concat3(text.as_str(), next.as_str(), "\n");
        i += 1;
    }
    let commit = line(transaction, last);
    concat3(text.as_str(), commit.as_str(), "\n")
}

} // verus!
