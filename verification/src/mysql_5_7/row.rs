//! Row images.
use crate::change_event::model::{ColumnDatum, Datum, LogicalValue};
use crate::mysql_5_7::error::{
    invalid_data, other, undeclared, CaptureError, CaptureFault,
};
use crate::mysql_5_7::json_value::{convert_json_dom, converted, json_fault, WireJson};
use crate::mysql_5_7::type_mapping::{native_fault, validate_native_type};
use crate::mysql_5_7::value::{
    decode_mysql_value, decoded_value, labels_agree, text_of, value_fault, ColumnInfo,
};
use crate::mysql_source_contract::wire::SqlValue;
use crate::number::{
    decimal, decimal_text, law_decimal_round_trip, parse_unsigned, parse_usize,
};
use crate::text::{after_prefix, concat3, concat5, has_prefix, strip_prefix};
use vstd::prelude::*;

verus! {

/// A value in a row image.
#[derive(Debug)]
pub enum RowValue {
    Value(SqlValue),
    Json(WireJson),
    /// A JSON document that cannot be read, and why.
    BrokenJson(String),
    /// Only a part of a JSON document.
    PartialJson,
}

/// A column of a row image. The value is gone once it has been taken.
#[derive(Debug)]
pub struct RowCell {
    pub name: String,
    pub value: Option<RowValue>,
}

/// What is wrong with a value of a column.
pub open spec fn row_value_fault(value: RowValue, info: ColumnInfo) -> Option<CaptureFault> {
    match value {
        RowValue::Value(value) => value_fault(value, info),
        RowValue::Json(wire) => json_fault(wire),
        RowValue::BrokenJson(message) => Some(invalid_data(message@)),
        RowValue::PartialJson => Some(
            other("partial JSON image cannot become a complete ChangeEvent row"@),
        ),
    }
}

/// The value is what a column value is decoded to.
pub open spec fn decoded_row_value(value: LogicalValue, wire: RowValue, info: ColumnInfo) -> bool {
    match wire {
        RowValue::Value(wire) => decoded_value(value, wire, info),
        RowValue::Json(wire) => value matches LogicalValue::Json { value } && converted(value, wire),
        _ => false,
    }
}

fn decode_value(value: &RowValue, info: &ColumnInfo) -> (result: Result<LogicalValue, CaptureError>)
    requires
        labels_agree(*info),
    ensures
        match result {
            Ok(decoded) => row_value_fault(*value, *info) is None && decoded_row_value(
                decoded,
                *value,
                *info,
            ),
            Err(error) => row_value_fault(*value, *info) == Some(error.fault()),
        },
{
    match value {
        RowValue::Value(value) => decode_mysql_value(value, info),
        RowValue::Json(wire) => match convert_json_dom(wire) {
            Ok(value) => Ok(LogicalValue::Json { value }),
            Err(error) => Err(error),
        },
        RowValue::BrokenJson(message) => Err(CaptureError::invalid_data(message.as_str())),
        RowValue::PartialJson => Err(
            CaptureError::other("partial JSON image cannot become a complete ChangeEvent row"),
        ),
    }
}

/// The place of a column in its table: the number in its name, or its place in
/// the image.
pub open spec fn cell_ordinal(name: Seq<char>, index: int) -> int {
    match after_prefix(name, "@"@) {
        Some(rest) => match parse_unsigned(rest, usize::MAX as nat) {
            Some(ordinal) => ordinal as int,
            None => index,
        },
        None => index,
    }
}

fn read_ordinal(name: &str, index: usize) -> (result: usize)
    ensures
        result as int == cell_ordinal(name@, index as int),
{
    match strip_prefix(name, "@") {
        Some(rest) => match parse_usize(rest.as_str()) {
            Some(ordinal) => ordinal,
            None => index,
        },
        None => index,
    }
}

/// The column is NULL.
pub open spec fn null_cell(cell: RowCell) -> bool {
    cell.value matches Some(RowValue::Value(SqlValue::Null))
}

/// What is wrong with a column of a row image.
pub open spec fn cell_fault(cell: RowCell, index: int, columns: Seq<ColumnInfo>) -> Option<
    CaptureFault,
> {
    let ordinal = cell_ordinal(cell.name@, index);
    if ordinal >= columns.len() {
        Some(
            other(
                "row image column ordinal "@ + decimal(ordinal as nat) + " is out of range"@,
            ),
        )
    } else {
        match native_fault(columns[ordinal].native_type@) {
            Some(complaint) => Some(undeclared(complaint)),
            None => match cell.value {
                None => Some(other("row value was consumed before conversion"@)),
                Some(value) => if null_cell(cell) {
                    None
                } else {
                    row_value_fault(value, columns[ordinal])
                },
            },
        }
    }
}

/// The column is what a column of a row image is decoded to.
pub open spec fn decoded_cell(
    column: ColumnDatum,
    cell: RowCell,
    index: int,
    columns: Seq<ColumnInfo>,
) -> bool {
    let ordinal = cell_ordinal(cell.name@, index);
    let info = columns[ordinal];
    &&& column.ordinal == ordinal
    &&& column.name@ == info.name@
    &&& column.native_type@ == info.native_type@
    &&& column.primary_key_ordinal == info.primary_key_ordinal
    &&& column.generated == info.generated
    &&& text_of(column.collation) == text_of(info.collation)
    &&& if null_cell(cell) {
        column.datum is Null
    } else {
        column.datum matches Datum::Value(value) && decoded_row_value(value, cell.value->0, info)
    }
}

/// The names of the types of all columns agree.
pub open spec fn all_labels_agree(columns: Seq<ColumnInfo>) -> bool {
    forall|i: int| 0 <= i < columns.len() ==> labels_agree(#[trigger] columns[i])
}

fn decode_cell(cell: &RowCell, index: usize, columns: &Vec<ColumnInfo>) -> (result: Result<
    ColumnDatum,
    CaptureError,
>)
    requires
        all_labels_agree(columns@),
    ensures
        match result {
            Ok(column) => cell_fault(*cell, index as int, columns@) is None && decoded_cell(
                column,
                *cell,
                index as int,
                columns@,
            ),
            Err(error) => cell_fault(*cell, index as int, columns@) == Some(error.fault()),
        },
{
    let ordinal: usize = read_ordinal(cell.name.as_str(), index);
    if ordinal >= columns.len() {
        let digits = decimal_text(ordinal as u128);
        let message = concat3("row image column ordinal ", digits.as_str(), " is out of range");
        return Err(CaptureError::other(message.as_str()));
    }
    let info = &columns[ordinal];
    match validate_native_type(info.native_type.as_str()) {
        Ok(_) => {},
        Err(error) => return Err(CaptureError::undeclared(&error)),
    }
    let datum = match &cell.value {
        None => return Err(CaptureError::other("row value was consumed before conversion")),
        Some(RowValue::Value(SqlValue::Null)) => Datum::Null,
        Some(value) => match decode_value(value, info) {
            Ok(value) => Datum::Value(value),
            Err(error) => return Err(error),
        },
    };
    let collation = match &info.collation {
        Some(collation) => Some(collation.clone()),
        None => None,
    };
    Ok(
        ColumnDatum {
            ordinal,
            name: info.name.clone(),
            native_type: info.native_type.clone(),
            primary_key_ordinal: info.primary_key_ordinal,
            generated: info.generated,
            collation,
            datum,
        },
    )
}

/// What is wrong with the columns of a row image from `from` on.
pub open spec fn cells_fault(row: Seq<RowCell>, columns: Seq<ColumnInfo>, from: int) -> Option<
    CaptureFault,
>
    decreases row.len() - from,
{
    if from < 0 || from >= row.len() {
        None
    } else {
        match cell_fault(row[from], from, columns) {
            Some(fault) => Some(fault),
            None => cells_fault(row, columns, from + 1),
        }
    }
}

/// What is wrong with a row image.
pub open spec fn image_fault(row: Seq<RowCell>, columns: Seq<ColumnInfo>) -> Option<CaptureFault> {
    if row.len() != columns.len() {
        Some(
            other(
                "row image is incomplete: decoded "@ + decimal(row.len()) + " columns, expected "@
                    + decimal(columns.len()) + "; binlog_row_image must be FULL"@,
            ),
        )
    } else {
        cells_fault(row, columns, 0)
    }
}

/// The columns are what a row image is decoded to.
pub open spec fn decoded_image(
    image: Seq<ColumnDatum>,
    row: Seq<RowCell>,
    columns: Seq<ColumnInfo>,
) -> bool {
    &&& image.len() == row.len()
    &&& forall|i: int|
        0 <= i < row.len() ==> decoded_cell(#[trigger] image[i], row[i], i, columns)
}

/// Decodes a row image. It has to hold every column of the table.
pub fn decode_row(row: &Vec<RowCell>, columns: &Vec<ColumnInfo>) -> (result: Result<
    Vec<ColumnDatum>,
    CaptureError,
>)
    requires
        all_labels_agree(columns@),
    ensures
        match result {
            Ok(image) => image_fault(row@, columns@) is None && decoded_image(
                image@,
                row@,
                columns@,
            ),
            Err(error) => image_fault(row@, columns@) == Some(error.fault()),
        },
{
    if row.len() != columns.len() {
        let found = decimal_text(row.len() as u128);
        let expected = decimal_text(columns.len() as u128);
        let message = concat5(
            "row image is incomplete: decoded ",
            found.as_str(),
            " columns, expected ",
            expected.as_str(),
            "; binlog_row_image must be FULL",
        );
        return Err(CaptureError::other(message.as_str()));
    }
    let mut image: Vec<ColumnDatum> = Vec::new();
    let mut i: usize = 0;
    while i < row.len()
        invariant
            i <= row@.len() == columns@.len(),
            all_labels_agree(columns@),
            image@.len() == i,
            image_fault(row@, columns@) == cells_fault(row@, columns@, i as int),
            forall|k: int| 0 <= k < i ==> decoded_cell(#[trigger] image@[k], row@[k], k, columns@),
        decreases row@.len() - i,
    {
        match decode_cell(&row[i], i, columns) {
            Ok(column) => image.push(column),
            Err(error) => return Err(error),
        }
        i += 1;
    }
    Ok(image)
}

/// A row image that is taken is complete, and each of its columns is the column
/// of the table at its place: the name, the declared type, the place in the key
/// and whether it is generated come from there. A column is null exactly where
/// the row says so. Columns that name their own place are put there.
pub proof fn law_an_image_has_the_columns_of_its_table(
    image: Seq<ColumnDatum>,
    row: Seq<RowCell>,
    columns: Seq<ColumnInfo>,
    at: int,
)
    requires
        image_fault(row, columns) is None,
        decoded_image(image, row, columns),
        0 <= at < row.len(),
    ensures
        image.len() == columns.len() && row.len() == columns.len(),
        0 <= image[at].ordinal < columns.len(),
        ({
            let info = columns[image[at].ordinal as int];
            &&& image[at].name@ == info.name@
            &&& image[at].native_type@ == info.native_type@
            &&& image[at].primary_key_ordinal == info.primary_key_ordinal
            &&& image[at].generated == info.generated
            &&& match (image[at].collation, info.collation) {
                (Some(a), Some(b)) => a@ == b@,
                (None, None) => true,
                _ => false,
            }
        }),
        row[at].name@.len() == 0 || row[at].name@[0] != '@' ==> image[at].ordinal == at,
        forall|ordinal: nat|
            ordinal <= usize::MAX && row[at].name@ == seq!['@'] + #[trigger] decimal(ordinal)
                ==> image[at].ordinal == ordinal,
        image[at].datum is Null || image[at].datum is Value,
        image[at].datum is Null <==> row[at].value == Some(RowValue::Value(SqlValue::Null)),
        row[at].value matches Some(RowValue::Value(wire)) && !(wire is Null) ==> decoded_value(
            image[at].datum->Value_0,
            row[at].value->0->Value_0,
            columns[image[at].ordinal as int],
        ),
{
    lemma_no_cell_fault(row, columns, 0, at);
    assert(decoded_cell(image[at], row[at], at, columns));
    let name = row[at].name@;
    reveal_strlit("@");
    assert("@"@ =~= seq!['@']);
    if name.len() == 0 || name[0] != '@' {
        if has_prefix(name, "@"@) {
            assert(name.take(1)[0] == name[0]);
        }
    }
    assert forall|ordinal: nat|
        ordinal <= usize::MAX && name == seq!['@'] + #[trigger] decimal(ordinal) implies
        image[at].ordinal == ordinal by {
        assert(name.take(1) =~= "@"@);
        assert(name.skip(1) =~= decimal(ordinal));
        law_decimal_round_trip(ordinal, usize::MAX as nat);
    }
}

proof fn lemma_no_cell_fault(row: Seq<RowCell>, columns: Seq<ColumnInfo>, from: int, at: int)
    requires
        0 <= from <= at < row.len(),
        cells_fault(row, columns, from) is None,
    ensures
        cell_fault(row[at], at, columns) is None,
    decreases at - from,
{
    if from < at {
        lemma_no_cell_fault(row, columns, from + 1, at);
    }
}

} // verus!
