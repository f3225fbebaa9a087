//! What holds of transactions, snapshots and values that pass validation.
use crate::change_event::model::{
    logical_value_doc, BitOrder, BitPadding, ChangeTransaction, ColumnDatum, Datum, LogicalValue,
    MapEntry, Operation, RowChange, StructuredField,
};
use crate::change_event::snapshot::{batch_fault, rows_fault, SnapshotBatch};
use crate::change_event::validate::{
    bit_string_fault, change_fault, changes_fault, columns_fault, contiguous_keys, elements_fault,
    image_fault, integer_fault, key_columns, key_ordinal_before, map_fault, members_fault,
    struct_fault, transaction_fault, value_fault,
};
use crate::encoding::base64url_decoded;
use crate::number::digits_value;
use crate::text::{all_digits, trim};
use vstd::arithmetic::power2::{lemma2_to64, lemma2_to64_rest, pow2};
use vstd::prelude::*;
use vstd::set_lib::{lemma_int_range, lemma_len_subset, lemma_subset_equality, set_int_range};

verus! {

// ---------------------------------------------------------------------------
// Images
// ---------------------------------------------------------------------------

/// A column that an image may have: it has a name and a type, a key value is
/// there and not generated, a value is left out only where the image may leave
/// it out, and a value that is there is valid.
pub open spec fn sound_column(column: ColumnDatum, operation: Operation, is_before: bool) -> bool {
    &&& column.name@.len() > 0 && !column.name@.contains('\0')
    &&& column.native_type@.len() > 0
    &&& column.primary_key_ordinal is Some ==> column.datum is Value && !column.generated
    &&& column.datum is Unavailable ==> is_before && (operation is Update || operation is Delete)
    &&& column.datum is Unchanged ==> !is_before && operation is Update
    &&& column.datum matches Datum::Value(value) ==> value_fault(value, 0) is None
}

/// No two columns have a name, a place or a place in the key in common.
pub open spec fn told_apart(row: Seq<ColumnDatum>) -> bool {
    forall|i: int, j: int|
        #![trigger row[i], row[j]]
        0 <= i < j < row.len() ==> {
            &&& row[i].name@ != row[j].name@
            &&& row[i].ordinal != row[j].ordinal
            &&& row[i].primary_key_ordinal is Some ==> row[i].primary_key_ordinal
                != row[j].primary_key_ordinal
        }
}

proof fn lemma_columns(row: Seq<ColumnDatum>, from: int, operation: Operation, is_before: bool)
    requires
        0 <= from <= row.len(),
    ensures
        columns_fault(row, from, operation, is_before) is None <==> {
            &&& forall|i: int|
                from <= i < row.len() ==> sound_column(#[trigger] row[i], operation, is_before)
            &&& forall|i: int, j: int|
                #![trigger row[i], row[j]]
                0 <= i < j < row.len() && from <= j ==> {
                    &&& row[i].name@ != row[j].name@
                    &&& row[i].ordinal != row[j].ordinal
                    &&& row[i].primary_key_ordinal is Some ==> row[i].primary_key_ordinal
                        != row[j].primary_key_ordinal
                }
        },
    decreases row.len() - from,
{
    if from < row.len() {
        lemma_columns(row, from + 1, operation, is_before);
        let column = row[from];
        if columns_fault(row, from, operation, is_before) is None {
            assert(sound_column(row[from], operation, is_before));
            assert forall|i: int, j: int|
                #![trigger row[i], row[j]]
                0 <= i < j < row.len() && from <= j implies {
                &&& row[i].name@ != row[j].name@
                &&& row[i].ordinal != row[j].ordinal
                &&& row[i].primary_key_ordinal is Some ==> row[i].primary_key_ordinal
                    != row[j].primary_key_ordinal
            } by {
                if j == from {
                    if row[i].primary_key_ordinal is Some && row[i].primary_key_ordinal
                        == row[j].primary_key_ordinal {
                        assert(key_ordinal_before(row, from, row[j].primary_key_ordinal->0));
                    }
                }
            }
        }
    }
}

/// The places in the key that the first columns have.
spec fn key_places(row: Seq<ColumnDatum>) -> Set<int>
    decreases row.len(),
{
    if row.len() == 0 {
        Set::empty()
    } else if row.last().primary_key_ordinal is Some {
        key_places(row.drop_last()).insert(row.last().primary_key_ordinal->0 as int)
    } else {
        key_places(row.drop_last())
    }
}

proof fn lemma_key_places(row: Seq<ColumnDatum>)
    requires
        told_apart(row),
    ensures
        key_places(row).finite(),
        key_places(row).len() == key_columns(row),
        forall|place: int| #[trigger]
            key_places(row).contains(place) <==> exists|i: int|
                0 <= i < row.len() && (#[trigger] row[i]).primary_key_ordinal is Some
                    && row[i].primary_key_ordinal->0 as int == place,
    decreases row.len(),
{
    if row.len() > 0 {
        let shorter = row.drop_last();
        assert forall|i: int, j: int|
            #![trigger shorter[i], shorter[j]]
            0 <= i < j < shorter.len() implies {
            &&& shorter[i].name@ != shorter[j].name@
            &&& shorter[i].ordinal != shorter[j].ordinal
            &&& shorter[i].primary_key_ordinal is Some ==> shorter[i].primary_key_ordinal
                != shorter[j].primary_key_ordinal
        } by {
            assert(shorter[i] == row[i] && shorter[j] == row[j]);
        }
        lemma_key_places(shorter);
        let last = row[row.len() - 1];
        assert(row.last() == last);
        if last.primary_key_ordinal is Some {
            let own = last.primary_key_ordinal->0 as int;
            if key_places(shorter).contains(own) {
                let i = choose|i: int|
                    0 <= i < shorter.len() && (#[trigger] shorter[i]).primary_key_ordinal is Some
                        && shorter[i].primary_key_ordinal->0 as int == own;
                assert(row[i] == shorter[i]);
                assert(row[i].primary_key_ordinal == row[row.len() - 1].primary_key_ordinal);
            }
        }
        assert forall|place: int| #[trigger] key_places(row).contains(place) <==> exists|i: int|
            0 <= i < row.len() && (#[trigger] row[i]).primary_key_ordinal is Some
                && row[i].primary_key_ordinal->0 as int == place by {
            if key_places(shorter).contains(place) {
                let i = choose|i: int|
                    0 <= i < shorter.len() && (#[trigger] shorter[i]).primary_key_ordinal is Some
                        && shorter[i].primary_key_ordinal->0 as int == place;
                assert(row[i] == shorter[i]);
            }
            if exists|i: int|
                0 <= i < row.len() && (#[trigger] row[i]).primary_key_ordinal is Some
                    && row[i].primary_key_ordinal->0 as int == place {
                let i = choose|i: int|
                    0 <= i < row.len() && (#[trigger] row[i]).primary_key_ordinal is Some
                        && row[i].primary_key_ordinal->0 as int == place;
                if i < shorter.len() {
                    assert(shorter[i] == row[i]);
                }
            }
        }
    }
}

/// Where a column has a place in the key, some column has each place before it.
pub open spec fn key_without_gaps(row: Seq<ColumnDatum>) -> bool {
    forall|i: int, place: int|
        0 <= i < row.len() && (#[trigger] row[i]).primary_key_ordinal is Some && 0 <= place
            < row[i].primary_key_ordinal->0 ==> #[trigger] has_place(row, place)
}

/// Some column has the place in the key.
pub open spec fn has_place(row: Seq<ColumnDatum>, place: int) -> bool {
    exists|i: int|
        0 <= i < row.len() && (#[trigger] row[i]).primary_key_ordinal is Some
            && row[i].primary_key_ordinal->0 as int == place
}

/// An image is valid exactly where it has columns, each of them sound, no two of
/// them alike, and a key without gaps.
pub proof fn law_exactly_the_sound_images_are_valid(
    row: Seq<ColumnDatum>,
    operation: Operation,
    is_before: bool,
)
    ensures
        image_fault(row, operation, is_before) is None <==> {
            &&& row.len() > 0
            &&& forall|i: int|
                0 <= i < row.len() ==> sound_column(#[trigger] row[i], operation, is_before)
            &&& told_apart(row)
            &&& key_without_gaps(row)
        },
{
    lemma_columns(row, 0, operation, is_before);
    if told_apart(row) {
        lemma_contiguous_keys(row);
    }
}

proof fn lemma_contiguous_keys(row: Seq<ColumnDatum>)
    requires
        told_apart(row),
    ensures
        contiguous_keys(row) <==> key_without_gaps(row),
{
    lemma_key_places(row);
    let places = key_places(row);
    let count = key_columns(row) as int;
    let numbers = set_int_range(0, count);
    lemma_int_range(0, count);
    lemma_int_range(0, usize::MAX + 1);
    lemma_len_subset(places, set_int_range(0, usize::MAX + 1));
    if contiguous_keys(row) {
        assert forall|place: int| #[trigger] numbers.contains(place) implies places.contains(
            place,
        ) by {
            let ordinal = place as usize;
            assert(key_ordinal_before(row, row.len() as int, ordinal));
            let j = choose|j: int|
                0 <= j < row.len() && (#[trigger] row[j]).primary_key_ordinal == Some(ordinal);
            assert(row[j].primary_key_ordinal->0 as int == place);
        }
        lemma_subset_equality(numbers, places);
        assert forall|i: int, place: int|
            0 <= i < row.len() && (#[trigger] row[i]).primary_key_ordinal is Some && 0 <= place
                < row[i].primary_key_ordinal->0 implies #[trigger] has_place(row, place) by {
            assert(places.contains(row[i].primary_key_ordinal->0 as int));
            assert(numbers.contains(place));
            assert(places.contains(place));
        }
    }
    if key_without_gaps(row) {
        assert forall|ordinal: usize| (ordinal as int) < key_columns(row) implies #[trigger]
            key_ordinal_before(row, row.len() as int, ordinal) by {
            if !places.contains(ordinal as int) {
                assert forall|place: int| places.contains(place) implies set_int_range(
                    0,
                    ordinal as int,
                ).contains(place) by {
                    let i = choose|i: int|
                        0 <= i < row.len() && (#[trigger] row[i]).primary_key_ordinal is Some
                            && row[i].primary_key_ordinal->0 as int == place;
                    if place > ordinal as int {
                        assert(has_place(row, ordinal as int));
                        assert(places.contains(ordinal as int));
                    }
                }
                lemma_int_range(0, ordinal as int);
                lemma_len_subset(places, set_int_range(0, ordinal as int));
            }
            let i = choose|i: int|
                0 <= i < row.len() && (#[trigger] row[i]).primary_key_ordinal is Some
                    && row[i].primary_key_ordinal->0 as int == ordinal as int;
            assert(row[i].primary_key_ordinal == Some(ordinal));
        }
    }
}

// ---------------------------------------------------------------------------
// Transactions and snapshots
// ---------------------------------------------------------------------------

/// The image is one that validation passes.
pub open spec fn passes(
    image: Option<Vec<ColumnDatum>>,
    operation: Operation,
    is_before: bool,
) -> bool {
    image matches Some(row) && image_fault(row@, operation, is_before) is None
}

/// A row change is valid exactly where it names its table, its schema and its
/// place, an insertion has the new row alone, a deletion the old row alone and an
/// update both, of the same columns, and every row is valid.
pub proof fn law_exactly_the_sound_changes_are_valid(change: RowChange)
    ensures
        change_fault(change) is None <==> {
            &&& change.schema@.len() > 0 && !change.schema@.contains('\0')
            &&& change.table@.len() > 0 && !change.table@.contains('\0')
            &&& change.schema_basis@.len() > 0
            &&& change.source_cursor.format@.len() > 0 && change.source_cursor.value@.len() > 0
            &&& match change.operation {
                Operation::Insert => change.before is None && passes(
                    change.after,
                    Operation::Insert,
                    false,
                ),
                Operation::Delete => change.after is None && passes(
                    change.before,
                    Operation::Delete,
                    true,
                ),
                Operation::Update => {
                    &&& passes(change.before, Operation::Update, true)
                    &&& passes(change.after, Operation::Update, false)
                    &&& change.before->0@.len() == change.after->0@.len()
                    &&& forall|i: int|
                        0 <= i < change.before->0@.len() ==> same_column(
                            #[trigger] change.before->0@[i],
                            change.after->0@[i],
                        )
                },
            }
        },
{
}

/// The two columns differ in nothing but their values.
pub open spec fn same_column(left: ColumnDatum, right: ColumnDatum) -> bool {
    &&& left.ordinal == right.ordinal
    &&& left.name@ == right.name@
    &&& left.native_type@ == right.native_type@
    &&& left.primary_key_ordinal == right.primary_key_ordinal
    &&& left.generated == right.generated
    &&& left.collation is Some <==> right.collation is Some
    &&& left.collation is Some ==> left.collation->0@ == right.collation->0@
}

proof fn lemma_changes(changes: Seq<RowChange>, from: int)
    requires
        0 <= from <= changes.len(),
    ensures
        changes_fault(changes, from) is None <==> forall|i: int|
            from <= i < changes.len() ==> change_fault(#[trigger] changes[i]) is None,
    decreases changes.len() - from,
{
    if from < changes.len() {
        lemma_changes(changes, from + 1);
    }
}

/// A transaction is valid exactly where it has a name, a source, a first and a
/// last place, and at least one change, and every change is valid.
pub proof fn law_exactly_the_sound_transactions_are_valid(transaction: ChangeTransaction)
    ensures
        transaction_fault(transaction) is None <==> {
            &&& trim(transaction.id@).len() > 0
            &&& transaction.source.kind@.len() > 0 && transaction.source.version@.len() > 0
                && transaction.source.id@.len() > 0
            &&& transaction.begin_cursor.format@.len() > 0
                && transaction.begin_cursor.value@.len() > 0
            &&& transaction.commit_cursor.format@.len() > 0
                && transaction.commit_cursor.value@.len() > 0
            &&& transaction.changes@.len() > 0
            &&& forall|i: int|
                0 <= i < transaction.changes@.len() ==> change_fault(
                    #[trigger] transaction.changes@[i],
                ) is None
        },
{
    lemma_changes(transaction.changes@, 0);
}

/// A row that a snapshot may have: a valid new row with a key in which every
/// value is there or null.
pub open spec fn whole_row(row: Seq<ColumnDatum>) -> bool {
    &&& image_fault(row, Operation::Insert, false) is None
    &&& has_place(row, 0)
    &&& forall|i: int|
        0 <= i < row.len() ==> !((#[trigger] row[i]).datum is Unavailable) && !(
        row[i].datum is Unchanged)
}

proof fn lemma_key_begins_at_zero(row: Seq<ColumnDatum>)
    requires
        image_fault(row, Operation::Insert, false) is None,
    ensures
        has_place(row, 0) <==> exists|i: int|
            0 <= i < row.len() && (#[trigger] row[i]).primary_key_ordinal is Some,
{
    law_exactly_the_sound_images_are_valid(row, Operation::Insert, false);
    if exists|i: int| 0 <= i < row.len() && (#[trigger] row[i]).primary_key_ordinal is Some {
        let i = choose|i: int|
            0 <= i < row.len() && (#[trigger] row[i]).primary_key_ordinal is Some;
        if row[i].primary_key_ordinal->0 == 0 {
            assert(row[i].primary_key_ordinal->0 as int == 0);
        } else {
            assert(has_place(row, 0));
        }
    }
}

proof fn lemma_rows(rows: Seq<Vec<ColumnDatum>>, from: int)
    requires
        0 <= from <= rows.len(),
    ensures
        rows_fault(rows, from) is None <==> forall|i: int|
            from <= i < rows.len() ==> whole_row((#[trigger] rows[i])@),
    decreases rows.len() - from,
{
    if from < rows.len() {
        lemma_rows(rows, from + 1);
        if image_fault(rows[from]@, Operation::Insert, false) is None {
            lemma_key_begins_at_zero(rows[from]@);
        }
    }
}

/// A snapshot batch is valid exactly where it names its source and its table, it
/// has rows or is the last of its table, and every row is whole.
pub proof fn law_exactly_the_whole_batches_are_valid(batch: SnapshotBatch)
    ensures
        batch_fault(batch) is None <==> {
            &&& batch.source.kind@.len() > 0 && batch.source.version@.len() > 0
                && batch.source.id@.len() > 0
            &&& batch.schema@.len() > 0 && !batch.schema@.contains('\0')
            &&& batch.table@.len() > 0 && !batch.table@.contains('\0')
            &&& batch.rows@.len() > 0 || batch.last_in_table
            &&& forall|i: int| 0 <= i < batch.rows@.len() ==> whole_row((#[trigger] batch.rows@[i])@)
        },
{
    lemma_rows(batch.rows@, 0);
}

// ---------------------------------------------------------------------------
// Values
// ---------------------------------------------------------------------------

/// An integer is valid exactly where its width is one of an integer column, it is
/// spelled in digits, behind a minus sign only where it is signed, and it is one
/// of the numbers of its bits, in two's complement where it is signed.
pub proof fn law_exactly_the_integers_of_a_width_are_valid(
    text: Seq<char>,
    signed: bool,
    bits: u8,
)
    ensures
        integer_fault(text, signed, bits) is None <==> {
            let minus = signed && text.len() > 0 && text[0] == '-';
            let digits = if minus {
                text.drop_first()
            } else {
                text
            };
            let number = if minus {
                -(digits_value(digits) as int)
            } else {
                digits_value(digits) as int
            };
            &&& bits == 8 || bits == 16 || bits == 24 || bits == 32 || bits == 64
            &&& digits.len() > 0 && all_digits(digits)
            &&& if signed {
                -pow2((bits - 1) as nat) <= number < pow2((bits - 1) as nat)
            } else {
                number < pow2(bits as nat)
            }
        },
{
    lemma2_to64();
    lemma2_to64_rest();
}

/// The day is one of the calendar between the years 1 and 9999.
pub open spec fn on_the_calendar(year: int, month: int, day: int) -> bool {
    &&& 1 <= year <= 9999
    &&& 1 <= month <= 12
    &&& 1 <= day <= 31
    &&& day == 31 ==> month != 2 && month != 4 && month != 6 && month != 9 && month != 11
    &&& day == 30 ==> month != 2
    &&& month == 2 && day == 29 ==> year % 4 == 0 && (year % 100 != 0 || year % 400 == 0)
}

/// A time is valid exactly where its day is one of the calendar and its hour,
/// minute, second and fraction are those of a clock.
pub proof fn law_exactly_the_times_of_day_are_valid(value: LogicalValue, depth: int)
    requires
        0 <= depth <= 100,
    ensures
        value matches LogicalValue::Date { year, month, day } ==> (value_fault(value, depth) is None
            <==> on_the_calendar(year as int, month as int, day as int)),
        value matches LogicalValue::LocalTime { hour, minute, second, microsecond } ==> (
        value_fault(value, depth) is None <==> hour <= 23 && minute <= 59 && second <= 59
            && microsecond <= 999_999),
        value matches LogicalValue::LocalDatetime {
            year,
            month,
            day,
            hour,
            minute,
            second,
            microsecond,
        } ==> (value_fault(value, depth) is None <==> on_the_calendar(
            year as int,
            month as int,
            day as int,
        ) && hour <= 23 && minute <= 59 && second <= 59 && microsecond <= 999_999),
        value matches LogicalValue::Duration { minutes, seconds, microsecond, .. } ==> (value_fault(
            value,
            depth,
        ) is None <==> minutes <= 59 && seconds <= 59 && microsecond <= 999_999),
        value matches LogicalValue::Instant { unix_seconds, nanoseconds } ==> (value_fault(
            value,
            depth,
        ) is None <==> integer_fault(unix_seconds@, true, 64) is None && nanoseconds
            <= 999_999_999),
        value matches LogicalValue::Year { value: year } ==> (value_fault(value, depth) is None
            <==> year <= 9999),
{
}

proof fn lemma_elements(elements: Seq<LogicalValue>, from: int, depth: int)
    requires
        0 <= from <= elements.len(),
        depth <= 101,
    ensures
        elements_fault(elements, from, depth) is None <==> forall|i: int|
            from <= i < elements.len() ==> value_fault(#[trigger] elements[i], depth) is None,
    decreases elements.len() - from,
{
    if from < elements.len() {
        lemma_elements(elements, from + 1, depth);
    }
}

proof fn lemma_fields(fields: Seq<StructuredField>, from: int, depth: int)
    requires
        0 <= from <= fields.len(),
        depth <= 101,
    ensures
        struct_fault(fields, from, depth) is None <==> {
            &&& forall|i: int|
                from <= i < fields.len() ==> {
                    &&& (#[trigger] fields[i]).name@.len() > 0
                    &&& !fields[i].name@.contains('\0')
                    &&& value_fault(fields[i].value, depth) is None
                }
            &&& forall|i: int, j: int|
                #![trigger fields[i], fields[j]]
                0 <= i < j < fields.len() && from <= j ==> fields[i].name@ != fields[j].name@
        },
    decreases fields.len() - from,
{
    if from < fields.len() {
        lemma_fields(fields, from + 1, depth);
    }
}

proof fn lemma_entries(entries: Seq<MapEntry>, from: int, depth: int)
    requires
        0 <= from <= entries.len(),
        depth <= 101,
    ensures
        map_fault(entries, from, depth) is None <==> {
            &&& forall|i: int|
                from <= i < entries.len() ==> {
                    &&& value_fault((#[trigger] entries[i]).key, depth) is None
                    &&& value_fault(entries[i].value, depth) is None
                }
            &&& forall|i: int, j: int|
                #![trigger entries[i], entries[j]]
                0 <= i < j < entries.len() && from <= j ==> logical_value_doc(entries[i].key)
                    != logical_value_doc(entries[j].key)
        },
    decreases entries.len() - from,
{
    if from < entries.len() {
        lemma_entries(entries, from + 1, depth);
    }
}

/// A structure is valid exactly where all of its parts are, one level further
/// down, and its fields have names of their own and its entries keys of their own.
pub proof fn law_a_structure_is_valid_by_its_parts(value: LogicalValue, depth: int)
    requires
        0 <= depth <= 100,
    ensures
        value matches LogicalValue::Array { elements } ==> (value_fault(value, depth)
            is None <==> forall|i: int|
            0 <= i < elements@.len() ==> value_fault(#[trigger] elements@[i], depth + 1) is None),
        value matches LogicalValue::Struct { fields } ==> (value_fault(value, depth)
            is None <==> {
            &&& forall|i: int|
                0 <= i < fields@.len() ==> {
                    &&& (#[trigger] fields@[i]).name@.len() > 0
                    &&& !fields@[i].name@.contains('\0')
                    &&& value_fault(fields@[i].value, depth + 1) is None
                }
            &&& forall|i: int, j: int|
                #![trigger fields@[i], fields@[j]]
                0 <= i < j < fields@.len() ==> fields@[i].name@ != fields@[j].name@
        }),
        value matches LogicalValue::MapValue { entries } ==> (value_fault(
            value,
            depth,
        ) is None <==> {
            &&& forall|i: int|
                0 <= i < entries@.len() ==> {
                    &&& value_fault((#[trigger] entries@[i]).key, depth + 1) is None
                    &&& value_fault(entries@[i].value, depth + 1) is None
                }
            &&& forall|i: int, j: int|
                #![trigger entries@[i], entries@[j]]
                0 <= i < j < entries@.len() ==> logical_value_doc(entries@[i].key)
                    != logical_value_doc(entries@[j].key)
        }),
{
    match value {
        LogicalValue::Array { elements } => lemma_elements(elements@, 0, depth + 1),
        LogicalValue::Struct { fields } => lemma_fields(fields@, 0, depth + 1),
        LogicalValue::MapValue { entries } => lemma_entries(entries@, 0, depth + 1),
        _ => {},
    }
}

/// Nothing is valid below the hundredth level.
pub proof fn law_levels_end(value: LogicalValue, depth: int)
    requires
        depth > 100,
    ensures
        value_fault(value, depth) is Some,
{
}

proof fn lemma_members(members: Seq<String>, from: int)
    requires
        0 <= from <= members.len(),
    ensures
        members_fault(members, from) is None <==> {
            &&& forall|i: int|
                from <= i < members.len() ==> !(#[trigger] members[i])@.contains('\0')
            &&& forall|i: int, j: int|
                #![trigger members[i], members[j]]
                0 <= i < j < members.len() && from <= j ==> members[i]@ != members[j]@
        },
    decreases members.len() - from,
{
    if from < members.len() {
        lemma_members(members, from + 1);
    }
}

/// The members of a set are valid exactly where no two of them are the same, and
/// none holds a NUL.
pub proof fn law_exactly_the_sets_of_members_are_valid(members: Seq<String>)
    ensures
        members_fault(members, 0) is None <==> {
            &&& forall|i: int|
                0 <= i < members.len() ==> !(#[trigger] members[i])@.contains('\0')
            &&& forall|i: int, j: int|
                #![trigger members[i], members[j]]
                0 <= i < j < members.len() ==> members[i]@ != members[j]@
        },
{
    lemma_members(members, 0);
}

/// A bit string is valid exactly where its bytes hold its bits and less than a
/// byte more, and the bits that are over in the last byte are all of the declared
/// padding: the low ones where the first bit is the high one, else the high ones.
pub proof fn law_exactly_the_filled_bit_strings_are_valid(
    encoded: Seq<char>,
    bit_length: u64,
    padding: BitPadding,
    bit_order: BitOrder,
)
    ensures
        bit_string_fault(encoded, bit_length, padding, bit_order) is None <==> (
        base64url_decoded(encoded) matches Some(bytes) && {
            let over = 8 * bytes.len() - bit_length;
            &&& bit_length > 0
            &&& 0 <= over < 8
            &&& over == 0 <==> padding is NoPadding
            &&& over > 0 ==> {
                let last = bytes.last() as int;
                let bits = if bit_order is MsbFirst {
                    last % (pow2(over as nat) as int)
                } else {
                    last / (pow2((8 - over) as nat) as int)
                };
                bits == if padding is One {
                    pow2(over as nat) - 1
                } else {
                    0
                }
            }
        }),
{
    lemma2_to64();
}

} // verus!
