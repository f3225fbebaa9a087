//! Prepared statements for row changes.
use crate::change_event::compatibility::values::json_text::DoubleText;
use crate::change_event::model::{ColumnDatum, Datum, LogicalValue, Operation, RowChange};
use crate::change_event::snapshot::{is_keyed_row, keyed_row};
use crate::change_event::validate::shape_fits;
use crate::mysql_8_4::error::{fault_of, incapable, shown, SqlError, SqlFault};
use crate::mysql_8_4::value::{bind_datum, bind_logical_value, bound, bound_datum};
use crate::mysql_source_contract::identifier::{
    qualified_table, quote_identifier, quoted, table_name,
};
use crate::mysql_source_contract::wire::{Bound, SqlValue};
use crate::text::{
    concat, concat3, concat4, concat5, join, join_texts, lower, same, texts, to_lower,
    trim, trimmed,
};
use vstd::prelude::*;

verus! {

// ---------------------------------------------------------------------------
// Columns
// ---------------------------------------------------------------------------

/// What the parameters hold.
pub open spec fn bounds(params: Seq<SqlValue>) -> Seq<Bound> {
    Seq::new(params.len(), |i: int| params[i]@)
}

/// A text with parameters, or why there is none.
pub open spec fn prepared(result: Result<(String, Vec<SqlValue>), SqlError>) -> Result<
    (Seq<char>, Seq<Bound>),
    SqlFault,
> {
    match result {
        Ok((text, params)) => Ok((text@, bounds(params@))),
        Err(error) => Err(error.fault()),
    }
}

/// A statement can set the column.
pub open spec fn writable(column: ColumnDatum) -> bool {
    !column.generated && (column.datum is Null || column.datum is Value)
}

fn is_writable(column: &ColumnDatum) -> (result: bool)
    ensures
        result == writable(*column),
{
    if column.generated {
        return false;
    }
    match column.datum {
        Datum::Unavailable => false,
        Datum::Unchanged => false,
        _ => true,
    }
}

/// The quoted names of the columns that a statement can set.
pub open spec fn writable_names(row: Seq<ColumnDatum>) -> Seq<Seq<char>>
    decreases row.len(),
{
    if row.len() == 0 {
        Seq::empty()
    } else if writable(row.last()) {
        writable_names(row.drop_last()).push(quoted(row.last().name@))
    } else {
        writable_names(row.drop_last())
    }
}

fn list_writable_names(row: &Vec<ColumnDatum>) -> (result: Vec<String>)
    ensures
        texts(result@) == writable_names(row@),
{
    let mut names: Vec<String> = Vec::new();
    let mut i: usize = 0;
    assert(row@.take(0) =~= Seq::empty());
    assert(texts(names@) =~= Seq::empty());
    while i < row.len()
        invariant
            i <= row@.len(),
            texts(names@) == writable_names(row@.take(i as int)),
        decreases row@.len() - i,
    {
        assert(row@.take(i + 1).drop_last() =~= row@.take(i as int));
        if is_writable(&row[i]) {
            let ghost before = texts(names@);
            let name = quote_identifier(row[i].name.as_str());
            names.push(name);
            assert(texts(names@) =~= before.push(name@));
        }
        i += 1;
    }
    assert(row@.take(i as int) =~= row@);
    names
}

/// The parameters of the columns that a statement can set.
pub open spec fn bound_row(row: Seq<ColumnDatum>, doubles: Seq<DoubleText>) -> Result<
    Seq<Bound>,
    SqlFault,
>
    decreases row.len(),
{
    if row.len() == 0 {
        Ok(Seq::empty())
    } else {
        match bound_row(row.drop_last(), doubles) {
            Err(fault) => Err(fault),
            Ok(list) => if writable(row.last()) {
                match bound_datum(row.last().datum, doubles) {
                    Ok(value) => Ok(list.push(value)),
                    Err(fault) => Err(fault),
                }
            } else {
                Ok(list)
            },
        }
    }
}

proof fn lemma_bound_row_fault(row: Seq<ColumnDatum>, doubles: Seq<DoubleText>, n: int)
    requires
        0 <= n <= row.len(),
        bound_row(row.take(n), doubles) is Err,
    ensures
        bound_row(row, doubles) == bound_row(row.take(n), doubles),
    decreases row.len() - n,
{
    if n < row.len() {
        assert(row.take(n + 1).drop_last() =~= row.take(n));
        lemma_bound_row_fault(row, doubles, n + 1);
    } else {
        assert(row.take(n) =~= row);
    }
}

/// Parameters, or why there are none.
pub open spec fn bounds_of(result: Result<Vec<SqlValue>, SqlError>) -> Result<Seq<Bound>, SqlFault> {
    match result {
        Ok(params) => Ok(bounds(params@)),
        Err(error) => Err(error.fault()),
    }
}

fn bind_columns(row: &Vec<ColumnDatum>, doubles: &Vec<DoubleText>) -> (result: Result<
    Vec<SqlValue>,
    SqlError,
>)
    ensures
        bounds_of(result) == bound_row(row@, doubles@),
{
    let mut params: Vec<SqlValue> = Vec::new();
    let mut i: usize = 0;
    assert(row@.take(0) =~= Seq::empty());
    assert(bounds(params@) =~= Seq::empty());
    while i < row.len()
        invariant
            i <= row@.len(),
            bound_row(row@.take(i as int), doubles@) == Ok::<_, SqlFault>(bounds(params@)),
        decreases row@.len() - i,
    {
        assert(row@.take(i + 1).drop_last() =~= row@.take(i as int));
        if is_writable(&row[i]) {
            match bind_datum(&row[i].datum, doubles) {
                Ok(value) => {
                    let ghost before = bounds(params@);
                    params.push(value);
                    assert(bounds(params@) =~= before.push(value@));
                },
                Err(error) => {
                    proof {
                        lemma_bound_row_fault(row@, doubles@, i + 1);
                    }
                    return Err(error);
                },
            }
        }
        i += 1;
    }
    assert(row@.take(i as int) =~= row@);
    Ok(params)
}

/// Every column that a statement names has a parameter.
pub proof fn law_every_written_column_is_bound(row: Seq<ColumnDatum>, doubles: Seq<DoubleText>)
    ensures
        bound_row(row, doubles) matches Ok(list) ==> list.len() == writable_names(row).len(),
    decreases row.len(),
{
    if row.len() > 0 {
        law_every_written_column_is_bound(row.drop_last(), doubles);
    }
}

/// As many placeholders.
pub open spec fn placeholders(count: nat) -> Seq<Seq<char>> {
    Seq::new(count, |i: int| "?"@)
}

fn list_placeholders(count: usize) -> (result: Vec<String>)
    ensures
        texts(result@) == placeholders(count as nat),
{
    let mut marks: Vec<String> = Vec::new();
    let mut i: usize = 0;
    while i < count
        invariant
            i <= count,
            marks@.len() == i,
            forall|k: int| 0 <= k < i ==> (#[trigger] marks@[k])@ == "?"@,
        decreases count - i,
    {
        marks.push("?".to_owned());
        i += 1;
    }
    assert(texts(marks@) =~= placeholders(count as nat));
    marks
}

/// The text of an INSERT statement.
pub open spec fn insert_text(table: Seq<char>, names: Seq<Seq<char>>) -> Seq<char> {
    "INSERT INTO "@ + table + " ("@ + join(names, ", "@) + ") VALUES ("@ + join(
        placeholders(names.len()),
        ", "@,
    ) + ");"@
}

fn write_insert_text(table: &str, names: &Vec<String>) -> (result: String)
    ensures
        result@ == insert_text(table@, texts(names@)),
{
    let columns = join_texts(names, ", ");
    let marks = list_placeholders(names.len());
    let marked = join_texts(&marks, ", ");
    let head = concat5("INSERT INTO ", table, " (", columns.as_str(), ") VALUES (");
    let text = concat3(head.as_str(), marked.as_str(), ");");
    assert(text@ =~= insert_text(table@, texts(names@)));
    text
}

/// The INSERT statement for a row, or why there is none.
pub open spec fn inserted(
    table: Seq<char>,
    row: Seq<ColumnDatum>,
    doubles: Seq<DoubleText>,
    nothing: Seq<char>,
) -> Result<(Seq<char>, Seq<Bound>), SqlFault> {
    let names = writable_names(row);
    if names.len() == 0 {
        Err(incapable(nothing))
    } else {
        match bound_row(row, doubles) {
            Ok(params) => Ok((insert_text(table, names), params)),
            Err(fault) => Err(fault),
        }
    }
}

pub(crate) fn insert_row(
    table: &str,
    row: &Vec<ColumnDatum>,
    doubles: &Vec<DoubleText>,
    nothing: &str,
) -> (result: Result<(String, Vec<SqlValue>), SqlError>)
    ensures
        prepared(result) == inserted(table@, row@, doubles@, nothing@),
{
    let names = list_writable_names(row);
    assert(texts(names@).len() == names@.len());
    if names.len() == 0 {
        return Err(SqlError::capability(nothing));
    }
    match bind_columns(row, doubles) {
        Ok(params) => Ok((write_insert_text(table, &names), params)),
        Err(error) => Err(error),
    }
}

/// Names with a placeholder behind each.
pub open spec fn assigned(names: Seq<Seq<char>>) -> Seq<Seq<char>> {
    Seq::new(names.len(), |i: int| names[i] + " = ?"@)
}

fn assign(names: &Vec<String>) -> (result: String)
    ensures
        result@ == join(assigned(texts(names@)), ", "@),
{
    let mut pieces: Vec<String> = Vec::new();
    let mut i: usize = 0;
    while i < names.len()
        invariant
            i <= names@.len(),
            pieces@.len() == i,
            forall|k: int| 0 <= k < i ==> (#[trigger] pieces@[k])@ == names@[k]@ + " = ?"@,
        decreases names@.len() - i,
    {
        pieces.push(concat(names[i].as_str(), " = ?"));
        i += 1;
    }
    assert(texts(pieces@) =~= assigned(texts(names@)));
    join_texts(&pieces, ", ")
}

// ---------------------------------------------------------------------------
// Keys
// ---------------------------------------------------------------------------

pub open spec fn key_place(column: ColumnDatum) -> int {
    column.primary_key_ordinal->0 as int
}

/// The key columns with one more, behind those of no higher place.
pub open spec fn with_key_column(keys: Seq<ColumnDatum>, column: ColumnDatum) -> Seq<ColumnDatum>
    decreases keys.len(),
{
    if keys.len() == 0 || key_place(keys.last()) <= key_place(column) {
        keys.push(column)
    } else {
        with_key_column(keys.drop_last(), column).push(keys.last())
    }
}

/// The key columns of a row, by their place in the key.
pub open spec fn key_columns(row: Seq<ColumnDatum>) -> Seq<ColumnDatum>
    decreases row.len(),
{
    if row.len() == 0 {
        Seq::empty()
    } else if row.last().primary_key_ordinal is Some {
        with_key_column(key_columns(row.drop_last()), row.last())
    } else {
        key_columns(row.drop_last())
    }
}

proof fn lemma_with_key_column(keys: Seq<ColumnDatum>, column: ColumnDatum, at: int)
    requires
        0 <= at <= keys.len(),
        forall|i: int| at <= i < keys.len() ==> key_place(#[trigger] keys[i]) > key_place(column),
        at > 0 ==> key_place(keys[at - 1]) <= key_place(column),
    ensures
        with_key_column(keys, column) == keys.insert(at, column),
    decreases keys.len(),
{
    if keys.len() == 0 || at == keys.len() {
        assert(keys.insert(at, column) =~= keys.push(column));
    } else {
        lemma_with_key_column(keys.drop_last(), column, at);
        assert(keys.insert(at, column) =~= keys.drop_last().insert(at, column).push(keys.last()));
    }
}

/// The columns at these places of a row.
pub open spec fn columns_at(row: Seq<ColumnDatum>, places: Seq<usize>) -> Seq<ColumnDatum> {
    Seq::new(places.len(), |i: int| row[places[i] as int])
}

fn place_of(column: &ColumnDatum) -> (result: usize)
    requires
        column.primary_key_ordinal is Some,
    ensures
        result as int == key_place(*column),
{
    match column.primary_key_ordinal {
        Some(place) => place,
        None => 0,
    }
}

fn find_key_columns(row: &Vec<ColumnDatum>) -> (result: Vec<usize>)
    ensures
        columns_at(row@, result@) == key_columns(row@),
        forall|k: int| 0 <= k < result@.len() ==> #[trigger] result@[k] < row@.len(),
{
    let mut places: Vec<usize> = Vec::new();
    let mut i: usize = 0;
    assert(row@.take(0) =~= Seq::empty());
    assert(columns_at(row@, places@) =~= Seq::empty());
    while i < row.len()
        invariant
            i <= row@.len(),
            columns_at(row@, places@) == key_columns(row@.take(i as int)),
            forall|k: int|
                0 <= k < places@.len() ==> #[trigger] places@[k] < row@.len()
                    && row@[places@[k] as int].primary_key_ordinal is Some,
        decreases row@.len() - i,
    {
        assert(row@.take(i + 1).drop_last() =~= row@.take(i as int));
        if row[i].primary_key_ordinal.is_some() {
            let own: usize = place_of(&row[i]);
            let mut at: usize = places.len();
            while at > 0 && place_of(&row[places[at - 1]]) > own
                invariant
                    at <= places@.len(),
                    own == key_place(row@[i as int]),
                    forall|k: int|
                        0 <= k < places@.len() ==> #[trigger] places@[k] < row@.len()
                            && row@[places@[k] as int].primary_key_ordinal is Some,
                    forall|k: int|
                        at <= k < places@.len() ==> key_place(
                            row@[#[trigger] places@[k] as int],
                        ) > own,
                decreases at,
            {
                at -= 1;
            }
            let ghost keys = columns_at(row@, places@);
            proof {
                assert forall|k: int| at <= k < keys.len() implies key_place(#[trigger] keys[k])
                    > key_place(row@[i as int]) by {
                    assert(keys[k] == row@[places@[k] as int]);
                }
                lemma_with_key_column(keys, row@[i as int], at as int);
            }
            let ghost before = places@;
            places.insert(at, i);
            assert(columns_at(row@, places@) =~= keys.insert(at as int, row@[i as int]));
            assert forall|k: int| 0 <= k < places@.len() implies #[trigger] places@[k] < row@.len()
                && row@[places@[k] as int].primary_key_ordinal is Some by {
                if k < at {
                    assert(places@[k] == before[k]);
                } else if k > at {
                    assert(places@[k] == before[k - 1]);
                }
            }
        }
        i += 1;
    }
    assert(row@.take(i as int) =~= row@);
    places
}

/// Whether equal values can be told apart by their bytes only.
pub open spec fn bytewise(value: LogicalValue) -> bool {
    value is Text || value is Binary
}

fn is_bytewise(value: &LogicalValue) -> (result: bool)
    ensures
        result == bytewise(*value),
{
    match value {
        LogicalValue::Text { .. } => true,
        LogicalValue::Binary { .. } => true,
        _ => false,
    }
}

/// The condition that a key column sets, and its parameter.
pub open spec fn predicate(column: ColumnDatum, doubles: Seq<DoubleText>) -> Result<
    (Seq<char>, Seq<Bound>),
    SqlFault,
> {
    let name = quoted(column.name@);
    match column.datum {
        Datum::Null => Ok((name + " IS NULL"@, Seq::empty())),
        Datum::Value(value) => match bound(value, doubles) {
            Err(fault) => Err(fault),
            Ok(param) => if bytewise(value) {
                Ok(("CAST("@ + name + " AS BINARY) = CAST(? AS BINARY)"@, seq![param]))
            } else {
                Ok((name + " = ?"@, seq![param]))
            },
        },
        _ => Err(incapable("cannot use an absent value as a predicate"@)),
    }
}

fn write_predicate(column: &ColumnDatum, doubles: &Vec<DoubleText>) -> (result: Result<
    (String, Vec<SqlValue>),
    SqlError,
>)
    ensures
        prepared(result) == predicate(*column, doubles@),
{
    let name = quote_identifier(column.name.as_str());
    match &column.datum {
        Datum::Null => {
            let params: Vec<SqlValue> = Vec::new();
            assert(bounds(params@) =~= Seq::empty());
            Ok((concat(name.as_str(), " IS NULL"), params))
        },
        Datum::Value(value) => match bind_logical_value(value, doubles) {
            Err(error) => Err(error),
            Ok(param) => {
                let ghost kept = param@;
                let mut params: Vec<SqlValue> = Vec::new();
                params.push(param);
                assert(bounds(params@) =~= seq![kept]);
                if is_bytewise(value) {
                    Ok(
                        (
                            concat3("CAST(", name.as_str(), " AS BINARY) = CAST(? AS BINARY)"),
                            params,
                        ),
                    )
                } else {
                    Ok((concat(name.as_str(), " = ?"), params))
                }
            },
        },
        _ => Err(SqlError::capability("cannot use an absent value as a predicate")),
    }
}

/// The conditions that key columns set, and their parameters.
pub open spec fn predicates(keys: Seq<ColumnDatum>, doubles: Seq<DoubleText>) -> Result<
    (Seq<Seq<char>>, Seq<Bound>),
    SqlFault,
>
    decreases keys.len(),
{
    if keys.len() == 0 {
        Ok((Seq::empty(), Seq::empty()))
    } else {
        match predicates(keys.drop_last(), doubles) {
            Err(fault) => Err(fault),
            Ok((pieces, params)) => match predicate(keys.last(), doubles) {
                Err(fault) => Err(fault),
                Ok((piece, param)) => Ok((pieces.push(piece), params + param)),
            },
        }
    }
}

proof fn lemma_predicates_fault(keys: Seq<ColumnDatum>, doubles: Seq<DoubleText>, n: int)
    requires
        0 <= n <= keys.len(),
        predicates(keys.take(n), doubles) is Err,
    ensures
        predicates(keys, doubles) == predicates(keys.take(n), doubles),
    decreases keys.len() - n,
{
    if n < keys.len() {
        assert(keys.take(n + 1).drop_last() =~= keys.take(n));
        lemma_predicates_fault(keys, doubles, n + 1);
    } else {
        assert(keys.take(n) =~= keys);
    }
}

/// The condition that locates a row by its key.
pub open spec fn key_condition(row: Seq<ColumnDatum>, doubles: Seq<DoubleText>) -> Result<
    (Seq<char>, Seq<Bound>),
    SqlFault,
> {
    let keys = key_columns(row);
    if keys.len() == 0 {
        Err(incapable("table has no primary key; first Sink version requires one"@))
    } else {
        match predicates(keys, doubles) {
            Err(fault) => Err(fault),
            Ok((pieces, params)) => Ok((join(pieces, " AND "@), params)),
        }
    }
}

fn key_predicates(row: &Vec<ColumnDatum>, doubles: &Vec<DoubleText>) -> (result: Result<
    (String, Vec<SqlValue>),
    SqlError,
>)
    ensures
        prepared(result) == key_condition(row@, doubles@),
{
    let places = find_key_columns(row);
    let ghost keys = key_columns(row@);
    if places.len() == 0 {
        return Err(
            SqlError::capability("table has no primary key; first Sink version requires one"),
        );
    }
    let mut pieces: Vec<String> = Vec::new();
    let mut params: Vec<SqlValue> = Vec::new();
    let mut i: usize = 0;
    assert(keys.take(0) =~= Seq::empty());
    assert(texts(pieces@) =~= Seq::empty());
    assert(bounds(params@) =~= Seq::empty());
    while i < places.len()
        invariant
            i <= places@.len() == keys.len(),
            keys == columns_at(row@, places@),
            keys == key_columns(row@),
            keys.len() > 0,
            forall|k: int| 0 <= k < places@.len() ==> #[trigger] places@[k] < row@.len(),
            predicates(keys.take(i as int), doubles@) == Ok::<_, SqlFault>(
                (texts(pieces@), bounds(params@)),
            ),
        decreases places@.len() - i,
    {
        assert(keys.take(i + 1).drop_last() =~= keys.take(i as int));
        assert(keys[i as int] == row@[places@[i as int] as int]);
        match write_predicate(&row[places[i]], doubles) {
            Err(error) => {
                proof {
                    lemma_predicates_fault(keys, doubles@, i + 1);
                }
                return Err(error);
            },
            Ok((piece, mut param)) => {
                let ghost before = texts(pieces@);
                let ghost bound_before = bounds(params@);
                let ghost bound_more = bounds(param@);
                pieces.push(piece);
                params.append(&mut param);
                assert(texts(pieces@) =~= before.push(piece@));
                assert(bounds(params@) =~= bound_before + bound_more);
            },
        }
        i += 1;
    }
    assert(keys.take(i as int) =~= keys);
    Ok((join_texts(&pieces, " AND "), params))
}

// ---------------------------------------------------------------------------
// Statements
// ---------------------------------------------------------------------------

/// The UPDATE statement for a row, or why there is none.
pub open spec fn updated(
    table: Seq<char>,
    before: Seq<ColumnDatum>,
    after: Seq<ColumnDatum>,
    doubles: Seq<DoubleText>,
) -> Result<(Seq<char>, Seq<Bound>), SqlFault> {
    let names = writable_names(after);
    if before.len() == 0 {
        Err(incapable("UPDATE before image has no columns"@))
    } else if after.len() == 0 {
        Err(incapable("UPDATE after image has no columns"@))
    } else if names.len() == 0 {
        Err(incapable("UPDATE has no writable columns"@))
    } else {
        match bound_row(after, doubles) {
            Err(fault) => Err(fault),
            Ok(values) => match key_condition(before, doubles) {
                Err(fault) => Err(fault),
                Ok((condition, keys)) => Ok(
                    (
                        "UPDATE "@ + table + " SET "@ + join(assigned(names), ", "@) + " WHERE "@
                            + condition + ";"@,
                        values + keys,
                    ),
                ),
            },
        }
    }
}

fn write_update(
    table: &str,
    before: &Vec<ColumnDatum>,
    after: &Vec<ColumnDatum>,
    doubles: &Vec<DoubleText>,
) -> (result: Result<(String, Vec<SqlValue>), SqlError>)
    ensures
        prepared(result) == updated(table@, before@, after@, doubles@),
{
    if before.len() == 0 {
        return Err(SqlError::capability("UPDATE before image has no columns"));
    }
    if after.len() == 0 {
        return Err(SqlError::capability("UPDATE after image has no columns"));
    }
    let names = list_writable_names(after);
    assert(texts(names@).len() == names@.len());
    if names.len() == 0 {
        return Err(SqlError::capability("UPDATE has no writable columns"));
    }
    let assignments = assign(&names);
    let mut params = match bind_columns(after, doubles) {
        Ok(params) => params,
        Err(error) => return Err(error),
    };
    let (condition, mut keys) = match key_predicates(before, doubles) {
        Ok(found) => found,
        Err(error) => return Err(error),
    };
    let ghost values = bounds(params@);
    let ghost more = bounds(keys@);
    params.append(&mut keys);
    assert(bounds(params@) =~= values + more);
    let head = concat4("UPDATE ", table, " SET ", assignments.as_str());
    let text = concat4(head.as_str(), " WHERE ", condition.as_str(), ";");
    Ok((text, params))
}

/// The DELETE statement for a row, or why there is none.
pub open spec fn deleted(
    table: Seq<char>,
    before: Seq<ColumnDatum>,
    doubles: Seq<DoubleText>,
) -> Result<(Seq<char>, Seq<Bound>), SqlFault> {
    if before.len() == 0 {
        Err(incapable("DELETE before image has no columns"@))
    } else {
        match key_condition(before, doubles) {
            Err(fault) => Err(fault),
            Ok((condition, keys)) => Ok(
                ("DELETE FROM "@ + table + " WHERE "@ + condition + ";"@, keys),
            ),
        }
    }
}

fn write_delete(table: &str, before: &Vec<ColumnDatum>, doubles: &Vec<DoubleText>) -> (result: Result<
    (String, Vec<SqlValue>),
    SqlError,
>)
    ensures
        prepared(result) == deleted(table@, before@, doubles@),
{
    if before.len() == 0 {
        return Err(SqlError::capability("DELETE before image has no columns"));
    }
    match key_predicates(before, doubles) {
        Ok((condition, keys)) => Ok(
            (concat5("DELETE FROM ", table, " WHERE ", condition.as_str(), ";"), keys),
        ),
        Err(error) => Err(error),
    }
}

/// The statement for a change, or why there is none.
pub open spec fn changed(change: RowChange, doubles: Seq<DoubleText>) -> Result<
    (Seq<char>, Seq<Bound>),
    SqlFault,
> {
    let table = table_name(change.schema@, change.table@);
    match change.operation {
        Operation::Insert => if change.after->0@.len() == 0 {
            Err(incapable("INSERT image has no columns"@))
        } else {
            inserted(table, change.after->0@, doubles, "INSERT has no writable columns"@)
        },
        Operation::Update => updated(table, change.before->0@, change.after->0@, doubles),
        Operation::Delete => deleted(table, change.before->0@, doubles),
    }
}

/// Statements are written for changes whose images fit their operation.
pub(crate) fn write_change(change: &RowChange, doubles: &Vec<DoubleText>) -> (result: Result<
    (String, Vec<SqlValue>),
    SqlError,
>)
    requires
        shape_fits(*change),
    ensures
        prepared(result) == changed(*change, doubles@),
{
    let table = qualified_table(change.schema.as_str(), change.table.as_str());
    match (change.operation, &change.before, &change.after) {
        (Operation::Insert, _, Some(after)) => {
            if after.len() == 0 {
                return Err(SqlError::capability("INSERT image has no columns"));
            }
            insert_row(table.as_str(), after, doubles, "INSERT has no writable columns")
        },
        (Operation::Update, Some(before), Some(after)) => write_update(
            table.as_str(),
            before,
            after,
            doubles,
        ),
        (Operation::Delete, Some(before), _) => write_delete(table.as_str(), before, doubles),
        _ => {
            assert(false);
            Err(SqlError::other("the change lacks an image"))
        },
    }
}

/// The query that locks the row which a change replaces or removes.
pub open spec fn probe(change: RowChange, doubles: Seq<DoubleText>) -> Result<
    Option<(Seq<char>, Seq<Bound>)>,
    SqlFault,
> {
    match change.operation {
        Operation::Insert => Ok(None),
        _ => match key_condition(change.before->0@, doubles) {
            Err(fault) => Err(fault),
            Ok((condition, keys)) => Ok(
                Some(
                    (
                        "SELECT 1 FROM "@ + table_name(change.schema@, change.table@) + " WHERE "@
                            + condition + " LIMIT 2 FOR UPDATE"@,
                        keys,
                    ),
                ),
            ),
        },
    }
}

/// A probe, where there is one.
pub open spec fn probe_of(result: Result<Option<(String, Vec<SqlValue>)>, SqlError>) -> Result<
    Option<(Seq<char>, Seq<Bound>)>,
    SqlFault,
> {
    match result {
        Ok(Some((text, params))) => Ok(Some((text@, bounds(params@)))),
        Ok(None) => Ok(None),
        Err(error) => Err(error.fault()),
    }
}

pub(crate) fn write_probe(change: &RowChange, doubles: &Vec<DoubleText>) -> (result: Result<
    Option<(String, Vec<SqlValue>)>,
    SqlError,
>)
    requires
        shape_fits(*change),
    ensures
        probe_of(result) == probe(*change, doubles@),
{
    match (change.operation, &change.before) {
        (Operation::Insert, _) => Ok(None),
        (_, Some(before)) => match key_predicates(before, doubles) {
            Err(error) => Err(error),
            Ok((condition, keys)) => {
                let table = qualified_table(change.schema.as_str(), change.table.as_str());
                Ok(
                    Some(
                        (
                            concat5(
                                "SELECT 1 FROM ",
                                table.as_str(),
                                " WHERE ",
                                condition.as_str(),
                                " LIMIT 2 FOR UPDATE",
                            ),
                            keys,
                        ),
                    ),
                )
            },
        },
        _ => {
            assert(false);
            Ok(None)
        },
    }
}

// ---------------------------------------------------------------------------
// What a target can hold
// ---------------------------------------------------------------------------

/// A truth value or a UUID must come from a column of that type, and cannot be
/// converted in a key.
pub open spec fn source_type_fault(native_type: Seq<char>, value: LogicalValue, key: bool) -> Option<
    SqlFault,
> {
    let name = lower(trim(native_type));
    if value is Boolean && name != "boolean"@ {
        Some(incapable("Boolean value does not match its source type"@))
    } else if value is Uuid && name != "uuid"@ {
        Some(incapable("Uuid value does not match its source type"@))
    } else if (value is Boolean || value is Uuid) && key {
        Some(incapable("Boolean and Uuid conversions cannot be used for a key"@))
    } else {
        None
    }
}

fn ensure_source_value_type(native_type: &str, value: &LogicalValue, key: bool) -> (result: Result<
    (),
    SqlError,
>)
    ensures
        fault_of(result) == source_type_fault(native_type@, *value, key),
{
    let kept = trimmed(native_type);
    let name = to_lower(kept.as_str());
    match value {
        LogicalValue::Boolean { .. } => if !same(name.as_str(), "boolean") {
            return Err(SqlError::capability("Boolean value does not match its source type"));
        },
        LogicalValue::Uuid { .. } => if !same(name.as_str(), "uuid") {
            return Err(SqlError::capability("Uuid value does not match its source type"));
        },
        _ => return Ok(()),
    }
    if key {
        return Err(
            SqlError::capability("Boolean and Uuid conversions cannot be used for a key"),
        );
    }
    Ok(())
}

/// Why the target cannot hold a column.
pub open spec fn column_fault(column: ColumnDatum, doubles: Seq<DoubleText>) -> Option<SqlFault> {
    if column.generated {
        None
    } else {
        match column.datum {
            Datum::Value(value) => match source_type_fault(
                column.native_type@,
                value,
                column.primary_key_ordinal is Some,
            ) {
                Some(fault) => Some(fault),
                None => match bound(value, doubles) {
                    Ok(_) => None,
                    Err(fault) => Some(
                        incapable("column "@ + column.name@ + ": "@ + shown(fault)),
                    ),
                },
            },
            _ => None,
        }
    }
}

fn ensure_supported_column(column: &ColumnDatum, doubles: &Vec<DoubleText>) -> (result: Result<
    (),
    SqlError,
>)
    ensures
        fault_of(result) == column_fault(*column, doubles@),
{
    if column.generated {
        return Ok(());
    }
    match &column.datum {
        Datum::Value(value) => {
            match ensure_source_value_type(
                column.native_type.as_str(),
                value,
                column.primary_key_ordinal.is_some(),
            ) {
                Ok(_) => {},
                Err(error) => return Err(error),
            }
            match bind_logical_value(value, doubles) {
                Ok(_) => Ok(()),
                Err(error) => {
                    let message = error.message();
                    let detail = concat4("column ", column.name.as_str(), ": ", message.as_str());
                    Err(SqlError::capability(detail.as_str()))
                },
            }
        },
        _ => Ok(()),
    }
}

/// Why the target cannot hold a column from `from` on.
pub open spec fn columns_fault(row: Seq<ColumnDatum>, doubles: Seq<DoubleText>, from: int) -> Option<
    SqlFault,
>
    decreases row.len() - from,
{
    if from < 0 || from >= row.len() {
        None
    } else {
        match column_fault(row[from], doubles) {
            Some(fault) => Some(fault),
            None => columns_fault(row, doubles, from + 1),
        }
    }
}

/// Why the target cannot hold a row.
pub open spec fn image_fault(row: Seq<ColumnDatum>, doubles: Seq<DoubleText>) -> Option<SqlFault> {
    if !keyed_row(row) {
        Some(incapable("row has no primary key"@))
    } else {
        columns_fault(row, doubles, 0)
    }
}

pub(crate) fn ensure_supported_image(row: &Vec<ColumnDatum>, doubles: &Vec<DoubleText>) -> (result: Result<
    (),
    SqlError,
>)
    ensures
        fault_of(result) == image_fault(row@, doubles@),
{
    if !is_keyed_row(row) {
        return Err(SqlError::capability("row has no primary key"));
    }
    let mut i: usize = 0;
    while i < row.len()
        invariant
            i <= row@.len(),
            keyed_row(row@),
            image_fault(row@, doubles@) == columns_fault(row@, doubles@, i as int),
        decreases row@.len() - i,
    {
        match ensure_supported_column(&row[i], doubles) {
            Ok(_) => {},
            Err(error) => return Err(error),
        }
        i += 1;
    }
    Ok(())
}

/// Why the target cannot hold an image, where there is one.
pub open spec fn optional_image_fault(image: Option<Vec<ColumnDatum>>, doubles: Seq<DoubleText>) -> Option<
    SqlFault,
> {
    match image {
        Some(row) => image_fault(row@, doubles),
        None => None,
    }
}

/// Why the target cannot hold a change. The new row is looked at first.
pub open spec fn change_fault(change: RowChange, doubles: Seq<DoubleText>) -> Option<SqlFault> {
    match optional_image_fault(change.after, doubles) {
        Some(fault) => Some(fault),
        None => optional_image_fault(change.before, doubles),
    }
}

pub(crate) fn ensure_supported_change(change: &RowChange, doubles: &Vec<DoubleText>) -> (result: Result<
    (),
    SqlError,
>)
    ensures
        fault_of(result) == change_fault(*change, doubles@),
{
    if let Some(after) = &change.after {
        match ensure_supported_image(after, doubles) {
            Ok(_) => {},
            Err(error) => return Err(error),
        }
    }
    if let Some(before) = &change.before {
        match ensure_supported_image(before, doubles) {
            Ok(_) => {},
            Err(error) => return Err(error),
        }
    }
    Ok(())
}

// ---------------------------------------------------------------------------
// What a statement does
// ---------------------------------------------------------------------------

/// These are the places of the columns of a row that are not generated and have
/// a value or null, from left to right.
pub open spec fn lists_written(row: Seq<ColumnDatum>, places: Seq<int>) -> bool {
    &&& forall|i: int|
        0 <= i < places.len() ==> 0 <= #[trigger] places[i] < row.len()
            && !row[places[i]].generated && (row[places[i]].datum is Null
            || row[places[i]].datum is Value)
    &&& forall|i: int, j: int|
        #![trigger places[i], places[j]]
        0 <= i < j < places.len() ==> places[i] < places[j]
    &&& forall|k: int|
        0 <= k < row.len() && !(#[trigger] row[k]).generated && (row[k].datum is Null
            || row[k].datum is Value) ==> places.contains(k)
}

/// These are the places of the key columns of a row, by their place in the key
/// and, where that is the same, from left to right.
pub open spec fn lists_keys(row: Seq<ColumnDatum>, places: Seq<int>) -> bool {
    &&& forall|i: int|
        0 <= i < places.len() ==> 0 <= #[trigger] places[i] < row.len()
            && row[places[i]].primary_key_ordinal is Some
    &&& forall|i: int, j: int|
        #![trigger places[i], places[j]]
        0 <= i < j < places.len() ==> {
            let first = row[places[i]].primary_key_ordinal->0;
            let later = row[places[j]].primary_key_ordinal->0;
            first < later || first == later && places[i] < places[j]
        }
    &&& forall|k: int|
        0 <= k < row.len() && (#[trigger] row[k]).primary_key_ordinal is Some ==> places.contains(k)
}

/// Without its last column a row has one place less, where that column has one.
proof fn lemma_places_of_the_rest(row: Seq<ColumnDatum>, places: Seq<int>, at: int)
    requires
        row.len() > 0,
        0 <= at < places.len(),
        places[at] == row.len() - 1,
        lists_written(row, places) || lists_keys(row, places),
    ensures
        lists_written(row, places) ==> lists_written(row.drop_last(), places.remove(at)),
        lists_keys(row, places) ==> lists_keys(row.drop_last(), places.remove(at)),
{
    let rest = row.drop_last();
    let left = places.remove(at);
    assert forall|i: int| 0 <= i < left.len() implies 0 <= #[trigger] left[i] < rest.len()
        && rest[left[i]] == row[left[i]] by {
        let j = if i < at {
            i
        } else {
            i + 1
        };
        assert(left[i] == places[j]);
        if j < at {
            assert(places[j] != places[at]);
        } else {
            assert(places[at] != places[j]);
        }
    }
    assert forall|i: int, j: int|
        #![trigger left[i], left[j]]
        0 <= i < j < left.len() implies exists|x: int, y: int|
        #![trigger places[x], places[y]]
        0 <= x < y < places.len() && left[i] == places[x] && left[j] == places[y] by {
        let x = if i < at {
            i
        } else {
            i + 1
        };
        let y = if j < at {
            j
        } else {
            j + 1
        };
        assert(left[i] == places[x] && left[j] == places[y]);
    }
    assert forall|k: int| 0 <= k < rest.len() && places.contains(k) implies left.contains(k) by {
        let x = choose|x: int| 0 <= x < places.len() && places[x] == k;
        if x < at {
            assert(left[x] == k);
        } else {
            assert(left[x - 1] == k);
        }
    }
    assert forall|k: int| 0 <= k < rest.len() implies #[trigger] rest[k] == row[k] by {}
}

/// A row without its last column has the same places, where that column has
/// none.
proof fn lemma_same_places_of_the_rest(row: Seq<ColumnDatum>, places: Seq<int>)
    requires
        row.len() > 0,
        !places.contains(row.len() - 1),
    ensures
        lists_written(row, places) ==> lists_written(row.drop_last(), places),
        lists_keys(row, places) ==> lists_keys(row.drop_last(), places),
{
    let rest = row.drop_last();
    assert forall|i: int| 0 <= i < places.len() implies #[trigger] places[i] != row.len() - 1 by {
        assert(places.contains(places[i]));
    }
    assert forall|k: int| 0 <= k < rest.len() implies #[trigger] rest[k] == row[k] by {}
}

proof fn lemma_written(row: Seq<ColumnDatum>, doubles: Seq<DoubleText>, places: Seq<int>)
    requires
        lists_written(row, places),
    ensures
        writable_names(row) == Seq::new(places.len(), |i: int| quoted(row[places[i]].name@)),
        bound_row(row, doubles) matches Ok(list) ==> list.len() == places.len() && forall|i: int|
            0 <= i < places.len() ==> Ok::<_, SqlFault>(#[trigger] list[i]) == bound_datum(
                row[places[i]].datum,
                doubles,
            ),
        bound_row(row, doubles) is Ok <==> forall|i: int|
            0 <= i < places.len() ==> bound_datum(row[#[trigger] places[i]].datum, doubles) is Ok,
    decreases row.len(),
{
    if row.len() > 0 {
        let rest = row.drop_last();
        let last = row.len() - 1;
        assert(row[last] == row.last());
        if places.contains(last) {
            let at = choose|at: int| 0 <= at < places.len() && places[at] == last;
            if at < places.len() - 1 {
                assert(places[at] < places[at + 1]);
            }
            let left = places.remove(at);
            assert(left =~= places.drop_last());
            lemma_places_of_the_rest(row, places, at);
            lemma_written(rest, doubles, left);
            assert forall|i: int| 0 <= i < left.len() implies #[trigger] left[i] == places[i]
                && rest[left[i]] == row[places[i]] by {}
            assert(places[places.len() - 1] == last);
            assert(writable_names(row) =~= Seq::new(
                places.len(),
                |i: int| quoted(row[places[i]].name@),
            ));
            if forall|i: int|
                0 <= i < places.len() ==> bound_datum(row[#[trigger] places[i]].datum, doubles)
                    is Ok {
                assert forall|i: int| 0 <= i < left.len() implies bound_datum(
                    rest[#[trigger] left[i]].datum,
                    doubles,
                ) is Ok by {
                    assert(bound_datum(row[places[i]].datum, doubles) is Ok);
                }
                assert(bound_datum(row[places[places.len() - 1]].datum, doubles) is Ok);
            }
            if bound_row(row, doubles) is Ok {
                assert forall|i: int| 0 <= i < places.len() implies bound_datum(
                    row[#[trigger] places[i]].datum,
                    doubles,
                ) is Ok by {
                    if i < left.len() {
                        assert(bound_datum(rest[left[i]].datum, doubles) is Ok);
                    }
                }
                let list = bound_row(row, doubles)->Ok_0;
                let front = bound_row(rest, doubles)->Ok_0;
                assert forall|i: int| 0 <= i < places.len() implies Ok::<_, SqlFault>(
                    #[trigger] list[i],
                ) == bound_datum(row[places[i]].datum, doubles) by {
                    if i < left.len() {
                        assert(list[i] == front[i]);
                    }
                }
            }
        } else {
            lemma_same_places_of_the_rest(row, places);
            lemma_written(rest, doubles, places);
            assert forall|i: int| 0 <= i < places.len() implies row[#[trigger] places[i]]
                == rest[places[i]] by {
                assert(places.contains(places[i]));
            }
            assert(!writable(row.last()));
            assert(writable_names(row) =~= Seq::new(
                places.len(),
                |i: int| quoted(row[places[i]].name@),
            ));
        }
    } else {
        assert(places.len() == 0) by {
            if places.len() > 0 {
                assert(0 <= places[0] < row.len());
            }
        }
        assert(writable_names(row) =~= Seq::new(
            places.len(),
            |i: int| quoted(row[places[i]].name@),
        ));
    }
}

proof fn lemma_keys(row: Seq<ColumnDatum>, places: Seq<int>)
    requires
        lists_keys(row, places),
    ensures
        key_columns(row) == Seq::new(places.len(), |i: int| row[places[i]]),
    decreases row.len(),
{
    let wanted = Seq::new(places.len(), |i: int| row[places[i]]);
    if row.len() > 0 {
        let rest = row.drop_last();
        let last = row.len() - 1;
        assert(row[last] == row.last());
        if places.contains(last) {
            let at = choose|at: int| 0 <= at < places.len() && places[at] == last;
            let left = places.remove(at);
            lemma_places_of_the_rest(row, places, at);
            lemma_keys(rest, left);
            let keys = key_columns(rest);
            assert forall|i: int| 0 <= i < left.len() implies #[trigger] keys[i] == row[places[if i
                < at {
                i
            } else {
                i + 1
            }]] by {
                assert(0 <= left[i] < rest.len());
            }
            assert forall|i: int| at <= i < keys.len() implies key_place(#[trigger] keys[i])
                > key_place(row.last()) by {
                assert(places[at] == last && 0 <= places[i + 1] < row.len());
            }
            if at > 0 {
                assert(places[at - 1] < row.len() && places[at] == last);
                assert(keys[at - 1] == row[places[at - 1]]);
            }
            lemma_with_key_column(keys, row.last(), at);
            assert(keys.insert(at, row.last()) =~= wanted);
        } else {
            lemma_same_places_of_the_rest(row, places);
            lemma_keys(rest, places);
            assert forall|i: int| 0 <= i < places.len() implies row[#[trigger] places[i]]
                == rest[places[i]] by {
                assert(places.contains(places[i]));
            }
            assert(row.last().primary_key_ordinal is None);
            assert(key_columns(row) =~= wanted);
        }
    } else {
        if places.len() > 0 {
            assert(0 <= places[0] < row.len());
        }
        assert(key_columns(row) =~= wanted);
    }
}

proof fn lemma_predicates(keys: Seq<ColumnDatum>, doubles: Seq<DoubleText>)
    ensures
        predicates(keys, doubles) matches Ok((pieces, params)) ==> {
            &&& pieces.len() == keys.len()
            &&& forall|i: int|
                0 <= i < keys.len() ==> predicate(keys[i], doubles) is Ok && predicate(
                    keys[i],
                    doubles,
                )->Ok_0.0 == (#[trigger] pieces[i])
            &&& (forall|i: int| 0 <= i < keys.len() ==> (#[trigger] keys[i]).datum is Value) ==> {
                &&& params.len() == keys.len()
                &&& forall|i: int|
                    0 <= i < keys.len() ==> bound(keys[i].datum->Value_0, doubles) == Ok::<
                        _,
                        SqlFault,
                    >(#[trigger] params[i])
            }
        },
        predicates(keys, doubles) is Ok <==> forall|i: int|
            0 <= i < keys.len() ==> predicate(#[trigger] keys[i], doubles) is Ok,
    decreases keys.len(),
{
    if keys.len() > 0 {
        let rest = keys.drop_last();
        lemma_predicates(rest, doubles);
        assert forall|i: int| 0 <= i < rest.len() implies #[trigger] rest[i] == keys[i] by {}
        assert(keys[keys.len() - 1] == keys.last());
        if forall|i: int| 0 <= i < keys.len() ==> predicate(#[trigger] keys[i], doubles) is Ok {
            assert forall|i: int| 0 <= i < rest.len() implies predicate(#[trigger] rest[i], doubles)
                is Ok by {
                assert(predicate(keys[i], doubles) is Ok);
            }
            assert(predicate(keys[keys.len() - 1], doubles) is Ok);
        }
        if predicates(keys, doubles) is Ok {
            let (pieces, params) = predicates(keys, doubles)->Ok_0;
            let (front, bound_front) = predicates(rest, doubles)->Ok_0;
            assert forall|i: int| 0 <= i < keys.len() implies predicate(
                #[trigger] keys[i],
                doubles,
            ) is Ok by {
                if i < rest.len() {
                    assert(predicate(rest[i], doubles) is Ok);
                }
            }
            assert forall|i: int| 0 <= i < keys.len() implies predicate(keys[i], doubles) is Ok
                && predicate(keys[i], doubles)->Ok_0.0 == (#[trigger] pieces[i]) by {
                if i < rest.len() {
                    assert(pieces[i] == front[i]);
                    assert(predicate(rest[i], doubles)->Ok_0.0 == front[i]);
                }
            }
            if forall|i: int| 0 <= i < keys.len() ==> (#[trigger] keys[i]).datum is Value {
                assert forall|i: int| 0 <= i < rest.len() implies (#[trigger] rest[i]).datum
                    is Value by {
                    assert(keys[i].datum is Value);
                }
                assert(keys[keys.len() - 1].datum is Value);
                assert forall|i: int| 0 <= i < keys.len() implies bound(
                    keys[i].datum->Value_0,
                    doubles,
                ) == Ok::<_, SqlFault>(#[trigger] params[i]) by {
                    if i < rest.len() {
                        assert(params[i] == bound_front[i]);
                        assert(bound(rest[i].datum->Value_0, doubles) == Ok::<_, SqlFault>(
                            bound_front[i],
                        ));
                    }
                }
            }
        }
    }
}

/// A row is located by every column of its key, in the order of the key, and by
/// nothing else. Texts and bytes are compared byte by byte, and the parameters
/// are the values of those columns. Only a key without a value that the target
/// can hold, or no key at all, locates nothing.
pub proof fn law_a_row_is_located_by_its_whole_key(
    row: Seq<ColumnDatum>,
    doubles: Seq<DoubleText>,
    keys: Seq<int>,
)
    requires
        lists_keys(row, keys),
    ensures
        key_condition(row, doubles) is Ok <==> keys.len() > 0 && forall|i: int|
            0 <= i < keys.len() ==> row[#[trigger] keys[i]].datum is Null || (
            row[keys[i]].datum is Value && bound(row[keys[i]].datum->Value_0, doubles) is Ok),
        key_condition(row, doubles) matches Ok((condition, params)) ==> {
            &&& condition == join(
                Seq::new(
                    keys.len(),
                    |i: int|
                        {
                            let name = quoted(row[keys[i]].name@);
                            match row[keys[i]].datum {
                                Datum::Value(LogicalValue::Text { .. }) => "CAST("@ + name
                                    + " AS BINARY) = CAST(? AS BINARY)"@,
                                Datum::Value(LogicalValue::Binary { .. }) => "CAST("@ + name
                                    + " AS BINARY) = CAST(? AS BINARY)"@,
                                Datum::Value(_) => name + " = ?"@,
                                _ => name + " IS NULL"@,
                            }
                        },
                ),
                " AND "@,
            )
            &&& (forall|i: int| 0 <= i < keys.len() ==> row[#[trigger] keys[i]].datum is Value) ==> {
                &&& params.len() == keys.len()
                &&& forall|i: int|
                    0 <= i < keys.len() ==> Ok::<_, SqlFault>(#[trigger] params[i]) == bound(
                        row[keys[i]].datum->Value_0,
                        doubles,
                    )
            }
        },
{
    lemma_keys(row, keys);
    let list = key_columns(row);
    lemma_predicates(list, doubles);
    assert forall|i: int| 0 <= i < keys.len() implies #[trigger] list[i] == row[keys[i]] by {}
    if keys.len() > 0 && forall|i: int|
        0 <= i < keys.len() ==> row[#[trigger] keys[i]].datum is Null || (
        row[keys[i]].datum is Value && bound(row[keys[i]].datum->Value_0, doubles) is Ok) {
        assert forall|i: int| 0 <= i < list.len() implies predicate(#[trigger] list[i], doubles)
            is Ok by {
            assert(row[keys[i]].datum is Null || row[keys[i]].datum is Value);
        }
    }
    if key_condition(row, doubles) is Ok {
        assert forall|i: int| 0 <= i < keys.len() implies row[#[trigger] keys[i]].datum is Null || (
        row[keys[i]].datum is Value && bound(row[keys[i]].datum->Value_0, doubles) is Ok) by {
            assert(predicate(list[i], doubles) is Ok);
        }
        let (pieces, params) = predicates(list, doubles)->Ok_0;
        assert(pieces =~= Seq::new(
            keys.len(),
            |i: int|
                {
                    let name = quoted(row[keys[i]].name@);
                    match row[keys[i]].datum {
                        Datum::Value(LogicalValue::Text { .. }) => "CAST("@ + name
                            + " AS BINARY) = CAST(? AS BINARY)"@,
                        Datum::Value(LogicalValue::Binary { .. }) => "CAST("@ + name
                            + " AS BINARY) = CAST(? AS BINARY)"@,
                        Datum::Value(_) => name + " = ?"@,
                        _ => name + " IS NULL"@,
                    }
                },
        ));
        if forall|i: int| 0 <= i < keys.len() ==> row[#[trigger] keys[i]].datum is Value {
            assert forall|i: int| 0 <= i < list.len() implies (#[trigger] list[i]).datum
                is Value by {
                assert(row[keys[i]].datum is Value);
            }
        }
    }
}

/// An UPDATE finds the row that was there before and writes the row behind the
/// change: its leading parameters are the values of the new row that can be
/// written, its condition and its last parameters are those of the old row's
/// key, whatever the new key is.
pub proof fn law_an_update_replaces_the_old_row(
    change: RowChange,
    doubles: Seq<DoubleText>,
    written: Seq<int>,
    keys: Seq<int>,
)
    requires
        change.operation is Update,
        change.before is Some && lists_keys(change.before->0@, keys),
        change.after is Some && lists_written(change.after->0@, written),
    ensures
        changed(change, doubles) is Ok <==> {
            &&& written.len() > 0
            &&& forall|i: int|
                0 <= i < written.len() ==> bound_datum(
                    change.after->0@[#[trigger] written[i]].datum,
                    doubles,
                ) is Ok
            &&& key_condition(change.before->0@, doubles) is Ok
        },
        changed(change, doubles) matches Ok((text, params)) ==> {
            &&& text == "UPDATE "@ + table_name(change.schema@, change.table@) + " SET "@ + join(
                Seq::new(
                    written.len(),
                    |i: int| quoted(change.after->0@[written[i]].name@) + " = ?"@,
                ),
                ", "@,
            ) + " WHERE "@ + key_condition(change.before->0@, doubles)->Ok_0.0 + ";"@
            &&& params.len() == written.len() + key_condition(
                change.before->0@,
                doubles,
            )->Ok_0.1.len()
            &&& params.skip(written.len() as int) == key_condition(
                change.before->0@,
                doubles,
            )->Ok_0.1
            &&& forall|i: int|
                0 <= i < written.len() ==> Ok::<_, SqlFault>(#[trigger] params[i]) == bound_datum(
                    change.after->0@[written[i]].datum,
                    doubles,
                )
            &&& (forall|i: int|
                0 <= i < keys.len() ==> change.before->0@[#[trigger] keys[i]].datum is Value) ==> {
                &&& params.len() == written.len() + keys.len()
                &&& forall|i: int|
                    #![trigger keys[i]]
                    0 <= i < keys.len() ==> Ok::<_, SqlFault>(params[written.len() + i]) == bound(
                        change.before->0@[keys[i]].datum->Value_0,
                        doubles,
                    )
            }
        },
{
    let before = change.before->0@;
    let after = change.after->0@;
    lemma_written(after, doubles, written);
    law_a_row_is_located_by_its_whole_key(before, doubles, keys);
    if keys.len() > 0 {
        assert(0 <= keys[0] < before.len());
    }
    if written.len() > 0 {
        assert(0 <= written[0] < after.len());
    }
    if changed(change, doubles) is Ok {
        let (text, params) = changed(change, doubles)->Ok_0;
        let values = bound_row(after, doubles)->Ok_0;
        let located = key_condition(before, doubles)->Ok_0.1;
        assert(params == values + located);
        assert(params.skip(written.len() as int) =~= located);
        assert(assigned(writable_names(after)) =~= Seq::new(
            written.len(),
            |i: int| quoted(after[written[i]].name@) + " = ?"@,
        ));
        assert forall|i: int| 0 <= i < written.len() implies Ok::<_, SqlFault>(
            #[trigger] params[i],
        ) == bound_datum(after[written[i]].datum, doubles) by {
            assert(params[i] == values[i]);
        }
        if forall|i: int| 0 <= i < keys.len() ==> before[#[trigger] keys[i]].datum is Value {
            assert forall|i: int| #![trigger keys[i]] 0 <= i < keys.len() implies Ok::<
                _,
                SqlFault,
            >(params[written.len() + i]) == bound(before[keys[i]].datum->Value_0, doubles) by {
                assert(params[written.len() + i] == located[i]);
            }
        }
    }
}

/// A DELETE removes the row that was there before, by its key alone. Whatever
/// could be a new row does not matter.
pub proof fn law_a_delete_removes_the_old_row(
    change: RowChange,
    doubles: Seq<DoubleText>,
    keys: Seq<int>,
)
    requires
        change.operation is Delete,
        change.before is Some && lists_keys(change.before->0@, keys),
    ensures
        changed(change, doubles) is Ok <==> key_condition(change.before->0@, doubles) is Ok,
        changed(change, doubles) matches Ok((text, params)) ==> {
            &&& text == "DELETE FROM "@ + table_name(change.schema@, change.table@) + " WHERE "@
                + key_condition(change.before->0@, doubles)->Ok_0.0 + ";"@
            &&& params == key_condition(change.before->0@, doubles)->Ok_0.1
            &&& (forall|i: int|
                0 <= i < keys.len() ==> change.before->0@[#[trigger] keys[i]].datum is Value) ==> {
                &&& params.len() == keys.len()
                &&& forall|i: int|
                    0 <= i < keys.len() ==> Ok::<_, SqlFault>(#[trigger] params[i]) == bound(
                        change.before->0@[keys[i]].datum->Value_0,
                        doubles,
                    )
            }
        },
{
    law_a_row_is_located_by_its_whole_key(change.before->0@, doubles, keys);
    if keys.len() > 0 {
        assert(0 <= keys[0] < change.before->0@.len());
    }
}

/// An INSERT writes the columns of the new row that can be written, each with
/// its own value, from left to right.
pub proof fn law_an_insert_writes_the_new_row(
    change: RowChange,
    doubles: Seq<DoubleText>,
    written: Seq<int>,
)
    requires
        change.operation is Insert,
        change.after is Some && lists_written(change.after->0@, written),
    ensures
        changed(change, doubles) is Ok <==> written.len() > 0 && forall|i: int|
            0 <= i < written.len() ==> bound_datum(
                change.after->0@[#[trigger] written[i]].datum,
                doubles,
            ) is Ok,
        changed(change, doubles) matches Ok((text, params)) ==> {
            &&& text == "INSERT INTO "@ + table_name(change.schema@, change.table@) + " ("@ + join(
                Seq::new(written.len(), |i: int| quoted(change.after->0@[written[i]].name@)),
                ", "@,
            ) + ") VALUES ("@ + join(Seq::new(written.len(), |i: int| "?"@), ", "@) + ");"@
            &&& params.len() == written.len()
            &&& forall|i: int|
                0 <= i < written.len() ==> Ok::<_, SqlFault>(#[trigger] params[i]) == bound_datum(
                    change.after->0@[written[i]].datum,
                    doubles,
                )
        },
{
    let after = change.after->0@;
    lemma_written(after, doubles, written);
    if written.len() > 0 {
        assert(0 <= written[0] < after.len());
    }
    assert(placeholders(writable_names(after).len()) =~= Seq::new(written.len(), |i: int| "?"@));
}

/// The row that is locked before a change is the very row that its statement
/// replaces or removes: both go by the key of the old row. An INSERT replaces
/// nothing, so nothing is locked for it.
pub proof fn law_the_locked_row_is_the_changed_row(change: RowChange, doubles: Seq<DoubleText>)
    requires
        change.operation is Insert || change.before is Some,
    ensures
        change.operation is Insert <==> probe(change, doubles) == Ok::<_, SqlFault>(
            None::<(Seq<char>, Seq<Bound>)>,
        ),
        probe(change, doubles) matches Ok(Some((text, params))) ==> {
            &&& key_condition(change.before->0@, doubles) matches Ok((condition, located))
            &&& params == located
            &&& text == "SELECT 1 FROM "@ + table_name(change.schema@, change.table@) + " WHERE "@
                + condition + " LIMIT 2 FOR UPDATE"@
            &&& changed(change, doubles) matches Ok((_, written)) ==> written.len() >= params.len()
                && written.skip(written.len() - params.len()) == params
        },
        changed(change, doubles) is Ok ==> probe(change, doubles) is Ok,
{
    if changed(change, doubles) is Ok && !(change.operation is Insert) {
        let written = changed(change, doubles)->Ok_0.1;
        let located = key_condition(change.before->0@, doubles)->Ok_0.1;
        assert(written.skip(written.len() - located.len()) =~= located);
    }
}

} // verus!
