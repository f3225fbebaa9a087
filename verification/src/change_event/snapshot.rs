//! Snapshot rows have a boundary, but are not transactions of a log.
use crate::change_event::model::{ColumnDatum, Datum, Operation, Source, SourceCursor};
use crate::change_event::validate::{
    ensure, fault_of, fault_unless, first_fault, identifier, image, image_fault, is_identifier,
    ChangeEventValidationError, ValidationError,
};
use crate::json::{docs, duplicate_list, duplicate_texts, Contract};
use vstd::prelude::*;

verus! {

#[derive(Debug)]
pub struct SnapshotTable {
    pub schema: String,
    pub table: String,
    /// Empty means all columns; every primary-key column must be included.
    pub columns: Vec<String>,
}

#[derive(Debug)]
pub struct SnapshotBoundary {
    pub source: Source,
    /// The source-defined snapshot boundary. Only its presence is validated
    /// here; the Source Contract owns its encoding, ordering, and recovery
    /// meaning.
    pub cursor: SourceCursor,
}

#[derive(Debug)]
pub struct SnapshotBatch {
    pub source: Source,
    pub schema: String,
    pub table: String,
    pub rows: Vec<Vec<ColumnDatum>>,
    /// Every table, including an empty one, emits a final batch.
    pub last_in_table: bool,
}

impl Clone for SnapshotTable {
    fn clone(&self) -> (result: Self)
        ensures
            result.schema@ == self.schema@,
            result.table@ == self.table@,
            result.columns@ == self.columns@,
    {
        SnapshotTable {
            schema: self.schema.clone(),
            table: self.table.clone(),
            columns: duplicate_texts(&self.columns),
        }
    }
}

impl Clone for SnapshotBoundary {
    fn clone(&self) -> (result: Self)
        ensures
            result.source.doc() == self.source.doc(),
            result.cursor.doc() == self.cursor.doc(),
    {
        SnapshotBoundary { source: self.source.clone(), cursor: self.cursor.clone() }
    }
}

impl Clone for SnapshotBatch {
    fn clone(&self) -> (result: Self)
        ensures
            result.source.doc() == self.source.doc(),
            result.schema@ == self.schema@,
            result.table@ == self.table@,
            result.rows@.len() == self.rows@.len(),
            forall|i: int|
                0 <= i < self.rows@.len() ==> docs((#[trigger] result.rows@[i])@) == docs(
                    self.rows@[i]@,
                ),
            result.last_in_table == self.last_in_table,
    {
        let mut rows: Vec<Vec<ColumnDatum>> = Vec::new();
        let mut i: usize = 0;
        while i < self.rows.len()
            invariant
                i <= self.rows@.len(),
                rows@.len() == i,
                forall|k: int|
                    0 <= k < i ==> docs((#[trigger] rows@[k])@) == docs(self.rows@[k]@),
            decreases self.rows@.len() - i,
        {
            rows.push(duplicate_list(&self.rows[i]));
            i += 1;
        }
        SnapshotBatch {
            source: self.source.clone(),
            schema: self.schema.clone(),
            table: self.table.clone(),
            rows,
            last_in_table: self.last_in_table,
        }
    }
}

/// Every part of a source identity is there.
pub open spec fn complete_source(source: Source) -> bool {
    source.kind@.len() > 0 && source.version@.len() > 0 && source.id@.len() > 0
}

fn is_complete_source(source: &Source) -> (result: bool)
    ensures
        result == complete_source(*source),
{
    !source.kind.as_str().is_empty() && !source.version.as_str().is_empty()
        && !source.id.as_str().is_empty()
}

/// What is wrong with a snapshot boundary.
pub open spec fn boundary_fault(boundary: SnapshotBoundary) -> Option<Seq<char>> {
    first_fault(
        fault_unless(complete_source(boundary.source), "incomplete snapshot source"@),
        fault_unless(
            boundary.cursor.format@.len() > 0 && boundary.cursor.value@.len() > 0,
            "snapshot cursor is incomplete"@,
        ),
    )
}

pub fn validate_snapshot_boundary(boundary: &SnapshotBoundary) -> (result: Result<
    (),
    ValidationError,
>)
    ensures
        fault_of(result) == boundary_fault(*boundary),
{
    if !is_complete_source(&boundary.source) {
        return Err(ChangeEventValidationError::new("incomplete snapshot source"));
    }
    ensure(
        !boundary.cursor.format.as_str().is_empty() && !boundary.cursor.value.as_str().is_empty(),
        "snapshot cursor is incomplete",
    )
}

/// Every column has a value or NULL.
pub open spec fn complete_row(row: Seq<ColumnDatum>) -> bool {
    forall|i: int|
        0 <= i < row.len() ==> (#[trigger] row[i]).datum is Null || row[i].datum is Value
}

/// One column belongs to the primary key.
pub open spec fn keyed_row(row: Seq<ColumnDatum>) -> bool {
    exists|i: int| 0 <= i < row.len() && (#[trigger] row[i]).primary_key_ordinal is Some
}

/// What is wrong with the rows from `from` on.
pub open spec fn rows_fault(rows: Seq<Vec<ColumnDatum>>, from: int) -> Option<Seq<char>>
    decreases rows.len() - from,
{
    if from < 0 || from >= rows.len() {
        None
    } else {
        first_fault(
            image_fault(rows[from]@, Operation::Insert, false),
            first_fault(
                fault_unless(
                    complete_row(rows[from]@),
                    "snapshot rows must contain complete values"@,
                ),
                first_fault(
                    fault_unless(keyed_row(rows[from]@), "snapshot requires primary keys"@),
                    rows_fault(rows, from + 1),
                ),
            ),
        )
    }
}

/// What is wrong with a snapshot batch.
pub open spec fn batch_fault(batch: SnapshotBatch) -> Option<Seq<char>> {
    if !complete_source(batch.source) {
        Some("incomplete snapshot source"@)
    } else if !(identifier(batch.schema@) && identifier(batch.table@)) {
        Some("invalid snapshot table"@)
    } else if batch.rows@.len() == 0 && !batch.last_in_table {
        Some("empty non-final snapshot batch"@)
    } else {
        rows_fault(batch.rows@, 0)
    }
}

fn is_complete_row(row: &Vec<ColumnDatum>) -> (result: bool)
    ensures
        result == complete_row(row@),
{
    let mut i: usize = 0;
    while i < row.len()
        invariant
            i <= row@.len(),
            forall|k: int|
                0 <= k < i ==> (#[trigger] row@[k]).datum is Null || row@[k].datum is Value,
        decreases row@.len() - i,
    {
        if !matches!(row[i].datum, Datum::Null | Datum::Value(_)) {
            return false;
        }
        i += 1;
    }
    true
}

pub(crate) fn is_keyed_row(row: &Vec<ColumnDatum>) -> (result: bool)
    ensures
        result == keyed_row(row@),
{
    let mut i: usize = 0;
    while i < row.len()
        invariant
            i <= row@.len(),
            forall|k: int| 0 <= k < i ==> (#[trigger] row@[k]).primary_key_ordinal is None,
        decreases row@.len() - i,
    {
        if row[i].primary_key_ordinal.is_some() {
            return true;
        }
        i += 1;
    }
    false
}

/// Only validate_snapshot() can construct this type.
#[derive(Debug)]
pub struct ValidatedSnapshotBatch {
    batch: SnapshotBatch,
}

impl ValidatedSnapshotBatch {
    /// The batch inside.
    pub closed spec fn inner(&self) -> SnapshotBatch {
        self.batch
    }

    #[verifier::type_invariant]
    spec fn is_valid(&self) -> bool {
        batch_fault(self.batch) is None
    }

    pub fn batch(&self) -> (result: &SnapshotBatch)
        ensures
            *result == self.inner(),
            batch_fault(*result) is None,
    {
        proof {
            use_type_invariant(self);
        }
        &self.batch
    }
}

pub fn validate_snapshot(batch: SnapshotBatch) -> (result: Result<
    ValidatedSnapshotBatch,
    ValidationError,
>)
    ensures
        match result {
            Ok(validated) => batch_fault(batch) is None && validated.inner() == batch,
            Err(error) => batch_fault(batch) == Some(error.text()),
        },
{
    if !is_complete_source(&batch.source) {
        return Err(ChangeEventValidationError::new("incomplete snapshot source"));
    }
    if !is_identifier(batch.schema.as_str()) || !is_identifier(batch.table.as_str()) {
        return Err(ChangeEventValidationError::new("invalid snapshot table"));
    }
    if batch.rows.len() == 0 && !batch.last_in_table {
        return Err(ChangeEventValidationError::new("empty non-final snapshot batch"));
    }
    let mut i: usize = 0;
    while i < batch.rows.len()
        invariant
            i <= batch.rows@.len(),
            batch_fault(batch) == rows_fault(batch.rows@, i as int),
        decreases batch.rows@.len() - i,
    {
        let row = &batch.rows[i];
        match image(row, Operation::Insert, false) {
            Ok(_) => {},
            Err(error) => {
                return Err(error);
            },
        }
        if !is_complete_row(row) {
            return Err(
                ChangeEventValidationError::new("snapshot rows must contain complete values"),
            );
        }
        if !is_keyed_row(row) {
            return Err(ChangeEventValidationError::new("snapshot requires primary keys"));
        }
        i += 1;
    }
    Ok(ValidatedSnapshotBatch { batch })
}

} // verus!
