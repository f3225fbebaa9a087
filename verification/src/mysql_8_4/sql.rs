//! The statements of a whole transaction or snapshot batch.
use crate::change_event::compatibility::values::json_text::DoubleText;
use crate::change_event::model::{Operation, RowChange, SourceCursor};
use crate::change_event::snapshot::{SnapshotBatch, ValidatedSnapshotBatch};
use crate::change_event::validate::{changes_fault, shape_fits, ValidatedTransaction};
use crate::json::{Contract, Doc};
use crate::mysql_8_4::error::{incapable, SqlError, SqlFault};
use crate::mysql_8_4::statement::{
    bounds, change_fault, changed, ensure_supported_change, ensure_supported_image, image_fault,
    insert_row, inserted, probe, write_change, write_probe,
};
use crate::mysql_source_contract::identifier::{qualified_table, table_name};
use crate::mysql_source_contract::wire::{Bound, SqlValue};
use crate::text::{
    chars_of, concat, concat3, eq_ignore_case, le, lemma_text_le_antisymmetric, lemma_text_le_total,
    lemma_text_le_transitive, same, same_ignoring_case, text_le,
};
use vstd::prelude::*;

verus! {

pub const TARGET_VERSION: &'static str = "8.4";

// ---------------------------------------------------------------------------
// Statements
// ---------------------------------------------------------------------------

/// A query with its parameters.
#[derive(Debug)]
pub struct PreparedQuery {
    pub sql: String,
    pub params: Vec<SqlValue>,
}

/// A statement with its parameters, and the query that has to find exactly one
/// row before it runs.
#[derive(Debug)]
pub struct PlannedStatement {
    pub sql: String,
    pub params: Vec<SqlValue>,
    pub probe: Option<PreparedQuery>,
    pub operation: Operation,
}

/// What a planned statement holds.
pub struct Planned {
    pub sql: Seq<char>,
    pub params: Seq<Bound>,
    pub probe: Option<(Seq<char>, Seq<Bound>)>,
    pub operation: Operation,
}

impl View for PlannedStatement {
    type V = Planned;

    open spec fn view(&self) -> Planned {
        Planned {
            sql: self.sql@,
            params: bounds(self.params@),
            probe: match self.probe {
                Some(query) => Some((query.sql@, bounds(query.params@))),
                None => None,
            },
            operation: self.operation,
        }
    }
}

/// The statement that a change is planned as, or why there is none.
pub open spec fn planned(change: RowChange, doubles: Seq<DoubleText>) -> Result<Planned, SqlFault> {
    match change_fault(change, doubles) {
        Some(fault) => Err(fault),
        None => match changed(change, doubles) {
            Err(fault) => Err(fault),
            Ok((sql, params)) => match probe(change, doubles) {
                Err(fault) => Err(fault),
                Ok(probe) => Ok(Planned { sql, params, probe, operation: change.operation }),
            },
        },
    }
}

/// What planning has given.
pub open spec fn planned_of(result: Result<PlannedStatement, SqlError>) -> Result<
    Planned,
    SqlFault,
> {
    match result {
        Ok(statement) => Ok(statement@),
        Err(error) => Err(error.fault()),
    }
}

fn plan_change(change: &RowChange, doubles: &Vec<DoubleText>) -> (result: Result<
    PlannedStatement,
    SqlError,
>)
    requires
        shape_fits(*change),
    ensures
        planned_of(result) == planned(*change, doubles@),
{
    match ensure_supported_change(change, doubles) {
        Ok(_) => {},
        Err(error) => return Err(error),
    }
    let (sql, params) = match write_change(change, doubles) {
        Ok(written) => written,
        Err(error) => return Err(error),
    };
    let probe = match write_probe(change, doubles) {
        Ok(Some((sql, params))) => Some(PreparedQuery { sql, params }),
        Ok(None) => None,
        Err(error) => return Err(error),
    };
    Ok(PlannedStatement { sql, params, probe, operation: change.operation })
}

/// What the statements hold.
pub open spec fn statements_view(statements: Seq<PlannedStatement>) -> Seq<Planned> {
    Seq::new(statements.len(), |i: int| statements[i]@)
}

/// The statements that changes are planned as, or the first reason why there
/// are none.
pub open spec fn planned_changes(changes: Seq<RowChange>, doubles: Seq<DoubleText>) -> Result<
    Seq<Planned>,
    SqlFault,
>
    decreases changes.len(),
{
    if changes.len() == 0 {
        Ok(Seq::empty())
    } else {
        match planned_changes(changes.drop_last(), doubles) {
            Err(fault) => Err(fault),
            Ok(list) => match planned(changes.last(), doubles) {
                Err(fault) => Err(fault),
                Ok(statement) => Ok(list.push(statement)),
            },
        }
    }
}

proof fn lemma_planned_fault(changes: Seq<RowChange>, doubles: Seq<DoubleText>, n: int)
    requires
        0 <= n <= changes.len(),
        planned_changes(changes.take(n), doubles) is Err,
    ensures
        planned_changes(changes, doubles) == planned_changes(changes.take(n), doubles),
    decreases changes.len() - n,
{
    if n < changes.len() {
        assert(changes.take(n + 1).drop_last() =~= changes.take(n));
        lemma_planned_fault(changes, doubles, n + 1);
    } else {
        assert(changes.take(n) =~= changes);
    }
}

/// One statement is planned for each change, in order.
pub proof fn law_one_statement_for_each_change(
    changes: Seq<RowChange>,
    doubles: Seq<DoubleText>,
    i: int,
)
    requires
        planned_changes(changes, doubles) is Ok,
        0 <= i < changes.len(),
    ensures
        planned_changes(changes, doubles)->Ok_0.len() == changes.len(),
        planned(changes[i], doubles) == Ok::<_, SqlFault>(
            planned_changes(changes, doubles)->Ok_0[i],
        ),
    decreases changes.len(),
{
    reveal_with_fuel(planned_changes, 2);
    if changes.len() > 1 {
        law_one_statement_for_each_change(
            changes.drop_last(),
            doubles,
            if i < changes.len() - 1 {
                i
            } else {
                0
            },
        );
    }
}

/// Validated changes have the images of their operation.
proof fn lemma_shapes(changes: Seq<RowChange>, from: int)
    requires
        0 <= from <= changes.len(),
        changes_fault(changes, from) is None,
    ensures
        forall|i: int| from <= i < changes.len() ==> shape_fits(#[trigger] changes[i]),
    decreases changes.len() - from,
{
    if from < changes.len() {
        lemma_shapes(changes, from + 1);
    }
}

// ---------------------------------------------------------------------------
// Tables
// ---------------------------------------------------------------------------

pub type TableKey = (Seq<char>, Seq<char>);

/// Tables are ordered by schema, and then by name.
pub open spec fn table_le(left: TableKey, right: TableKey) -> bool {
    if left.0 == right.0 {
        text_le(left.1, right.1)
    } else {
        text_le(left.0, right.0)
    }
}

/// The tables with one more, which stands once in its place.
pub open spec fn with_table(tables: Seq<TableKey>, table: TableKey) -> Seq<TableKey>
    decreases tables.len(),
{
    if tables.len() == 0 {
        seq![table]
    } else if tables.last() == table {
        tables
    } else if table_le(tables.last(), table) {
        tables.push(table)
    } else {
        with_table(tables.drop_last(), table).push(tables.last())
    }
}

/// The tables that changes touch: each once, in order.
pub open spec fn touched_tables(changes: Seq<RowChange>) -> Seq<TableKey>
    decreases changes.len(),
{
    if changes.len() == 0 {
        Seq::empty()
    } else {
        with_table(
            touched_tables(changes.drop_last()),
            (changes.last().schema@, changes.last().table@),
        )
    }
}

pub open spec fn tables_view(tables: Seq<(String, String)>) -> Seq<TableKey> {
    Seq::new(tables.len(), |i: int| (tables[i].0@, tables[i].1@))
}

proof fn lemma_with_table(tables: Seq<TableKey>, table: TableKey, at: int)
    requires
        0 <= at <= tables.len(),
        forall|i: int|
            at <= i < tables.len() ==> tables[i] != table && !table_le(#[trigger] tables[i], table),
        at > 0 ==> tables[at - 1] == table || table_le(tables[at - 1], table),
    ensures
        with_table(tables, table) == if at > 0 && tables[at - 1] == table {
            tables
        } else {
            tables.insert(at, table)
        },
    decreases tables.len(),
{
    if tables.len() == 0 {
        assert(tables.insert(at, table) =~= seq![table]);
    } else if at == tables.len() {
        assert(tables.insert(at, table) =~= tables.push(table));
    } else {
        assert(tables.last() == tables[tables.len() - 1]);
        lemma_with_table(tables.drop_last(), table, at);
        assert(tables.drop_last().push(tables.last()) =~= tables);
        assert(tables.insert(at, table) =~= tables.drop_last().insert(at, table).push(
            tables.last(),
        ));
    }
}

fn is_table(entry: &(String, String), schema: &str, table: &str) -> (result: bool)
    ensures
        result == ((entry.0@, entry.1@) == (schema@, table@)),
{
    same(entry.0.as_str(), schema) && same(entry.1.as_str(), table)
}

fn is_table_le(entry: &(String, String), schema: &str, table: &str) -> (result: bool)
    ensures
        result == table_le((entry.0@, entry.1@), (schema@, table@)),
{
    if same(entry.0.as_str(), schema) {
        le(entry.1.as_str(), table)
    } else {
        le(entry.0.as_str(), schema)
    }
}

fn add_table(tables: &mut Vec<(String, String)>, schema: &str, table: &str)
    ensures
        tables_view(final(tables)@) == with_table(tables_view(old(tables)@), (schema@, table@)),
{
    let ghost key = (schema@, table@);
    let ghost before = tables_view(tables@);
    let mut at: usize = tables.len();
    while at > 0 && !is_table(&tables[at - 1], schema, table) && !is_table_le(
        &tables[at - 1],
        schema,
        table,
    )
        invariant
            at <= tables@.len(),
            before == tables_view(tables@),
            key == (schema@, table@),
            forall|i: int|
                at <= i < before.len() ==> before[i] != key && !table_le(
                    #[trigger] before[i],
                    key,
                ),
        decreases at,
    {
        assert(before[at - 1] == (tables@[at - 1].0@, tables@[at - 1].1@));
        at -= 1;
    }
    proof {
        if at > 0 {
            assert(before[at - 1] == (tables@[at - 1].0@, tables@[at - 1].1@));
        }
        lemma_with_table(before, key, at as int);
    }
    if at > 0 && is_table(&tables[at - 1], schema, table) {
        return;
    }
    tables.insert(at, (schema.to_owned(), table.to_owned()));
    assert(tables_view(tables@) =~= before.insert(at as int, key));
}

fn list_tables(changes: &Vec<RowChange>) -> (result: Vec<(String, String)>)
    ensures
        tables_view(result@) == touched_tables(changes@),
{
    let mut tables: Vec<(String, String)> = Vec::new();
    let mut i: usize = 0;
    assert(changes@.take(0) =~= Seq::empty());
    assert(tables_view(tables@) =~= Seq::empty());
    while i < changes.len()
        invariant
            i <= changes@.len(),
            tables_view(tables@) == touched_tables(changes@.take(i as int)),
        decreases changes@.len() - i,
    {
        assert(changes@.take(i + 1).drop_last() =~= changes@.take(i as int));
        add_table(&mut tables, changes[i].schema.as_str(), changes[i].table.as_str());
        i += 1;
    }
    assert(changes@.take(i as int) =~= changes@);
    tables
}

/// Tables stand in order, each once.
pub open spec fn tables_ascend(tables: Seq<TableKey>) -> bool {
    forall|i: int, j: int|
        #![trigger tables[i], tables[j]]
        0 <= i < j < tables.len() ==> tables[i] != tables[j] && table_le(tables[i], tables[j])
}

proof fn lemma_table_order(a: TableKey, b: TableKey, c: TableKey)
    ensures
        table_le(a, b) || table_le(b, a),
        table_le(a, b) && table_le(b, a) ==> a == b,
        table_le(a, b) && table_le(b, c) ==> table_le(a, c),
{
    lemma_text_le_total(a.0, b.0);
    lemma_text_le_total(a.1, b.1);
    if text_le(a.0, b.0) && text_le(b.0, a.0) {
        lemma_text_le_antisymmetric(a.0, b.0);
    }
    if text_le(a.1, b.1) && text_le(b.1, a.1) {
        lemma_text_le_antisymmetric(a.1, b.1);
    }
    if text_le(b.0, c.0) && text_le(c.0, b.0) {
        lemma_text_le_antisymmetric(b.0, c.0);
    }
    if text_le(a.0, b.0) && text_le(b.0, c.0) {
        lemma_text_le_transitive(a.0, b.0, c.0);
    }
    if text_le(a.1, b.1) && text_le(b.1, c.1) {
        lemma_text_le_transitive(a.1, b.1, c.1);
    }
}

proof fn lemma_with_table_keeps(tables: Seq<TableKey>, table: TableKey)
    requires
        tables_ascend(tables),
    ensures
        tables_ascend(with_table(tables, table)),
        forall|key: TableKey| #[trigger]
            with_table(tables, table).contains(key) <==> key == table || tables.contains(key),
    decreases tables.len(),
{
    let result = with_table(tables, table);
    if tables.len() == 0 {
        assert(result[0] == table);
    } else if tables.last() == table {
        assert(tables[tables.len() - 1] == table);
    } else if table_le(tables.last(), table) {
        assert forall|i: int, j: int|
            #![trigger result[i], result[j]]
            0 <= i < j < result.len() implies result[i] != result[j]
            && table_le(result[i], result[j]) by {
            if j == tables.len() {
                assert(tables.last() == tables[tables.len() - 1]);
                lemma_table_order(result[i], tables.last(), table);
                lemma_table_order(tables.last(), result[i], table);
            } else {
                assert(result[i] == tables[i] && result[j] == tables[j]);
            }
        }
        assert forall|key: TableKey| #[trigger] result.contains(key) <==> key == table
            || tables.contains(key) by {
            assert(result[tables.len() as int] == table);
            if tables.contains(key) {
                let k = tables.index_of(key);
                assert(result[k] == key);
            }
            if result.contains(key) {
                let k = result.index_of(key);
                if k < tables.len() {
                    assert(tables[k] == key);
                }
            }
        }
    } else {
        let rest = tables.drop_last();
        let inner = with_table(rest, table);
        let last = tables.last();
        assert forall|i: int, j: int|
            #![trigger rest[i], rest[j]]
            0 <= i < j < rest.len() implies rest[i] != rest[j]
            && table_le(rest[i], rest[j]) by {
            assert(rest[i] == tables[i] && rest[j] == tables[j]);
        }
        lemma_with_table_keeps(rest, table);
        lemma_table_order(last, table, last);
        assert forall|i: int, j: int|
            #![trigger result[i], result[j]]
            0 <= i < j < result.len() implies result[i] != result[j]
            && table_le(result[i], result[j]) by {
            if j == inner.len() {
                assert(inner.contains(result[i])) by {
                    assert(inner[i] == result[i]);
                }
                if result[i] != table {
                    let k = rest.index_of(result[i]);
                    assert(rest.contains(result[i]));
                    assert(tables[k] == result[i]);
                    assert(tables[tables.len() - 1] == last);
                }
            } else {
                assert(result[i] == inner[i] && result[j] == inner[j]);
            }
        }
        assert forall|key: TableKey| #[trigger] result.contains(key) <==> key == table
            || tables.contains(key) by {
            if result.contains(key) {
                let k = result.index_of(key);
                if k < inner.len() {
                    assert(inner[k] == key);
                    assert(inner.contains(key));
                    if key != table {
                        let m = rest.index_of(key);
                        assert(tables[m] == key);
                    }
                } else {
                    assert(tables[tables.len() - 1] == key);
                }
            }
            if key == table || tables.contains(key) {
                if key == last {
                    assert(result[inner.len() as int] == key);
                } else {
                    if key != table {
                        let m = tables.index_of(key);
                        assert(rest[m] == key);
                        assert(rest.contains(key));
                    }
                    assert(inner.contains(key));
                    let m = inner.index_of(key);
                    assert(result[m] == key);
                }
            }
        }
    }
}

/// The tables of a plan are exactly those of its changes, each once and in
/// order.
pub proof fn law_tables_are_those_of_the_changes(changes: Seq<RowChange>)
    ensures
        tables_ascend(touched_tables(changes)),
        forall|key: TableKey| #[trigger]
            touched_tables(changes).contains(key) <==> exists|i: int|
                0 <= i < changes.len() && (#[trigger] changes[i]).schema@ == key.0
                    && changes[i].table@ == key.1,
    decreases changes.len(),
{
    if changes.len() > 0 {
        let rest = changes.drop_last();
        let own = (changes.last().schema@, changes.last().table@);
        law_tables_are_those_of_the_changes(rest);
        lemma_with_table_keeps(touched_tables(rest), own);
        assert forall|key: TableKey| #[trigger]
            touched_tables(changes).contains(key) <==> exists|i: int|
                0 <= i < changes.len() && (#[trigger] changes[i]).schema@ == key.0
                    && changes[i].table@ == key.1 by {
            if touched_tables(changes).contains(key) {
                if key == own {
                    assert(changes[changes.len() - 1].schema@ == key.0);
                } else {
                    let i = choose|i: int|
                        0 <= i < rest.len() && (#[trigger] rest[i]).schema@ == key.0
                            && rest[i].table@ == key.1;
                    assert(changes[i] == rest[i]);
                }
            }
            if exists|i: int|
                0 <= i < changes.len() && (#[trigger] changes[i]).schema@ == key.0
                    && changes[i].table@ == key.1 {
                let i = choose|i: int|
                    0 <= i < changes.len() && (#[trigger] changes[i]).schema@ == key.0
                        && changes[i].table@ == key.1;
                if i < rest.len() {
                    assert(rest[i] == changes[i]);
                } else {
                    assert(key == own);
                }
            }
        }
    }
}

// ---------------------------------------------------------------------------
// Transactions
// ---------------------------------------------------------------------------

/// A transaction as statements.
#[derive(Debug)]
pub struct SqlTransaction {
    source_transaction_id: String,
    source_uuid: String,
    commit_cursor: SourceCursor,
    tables: Vec<(String, String)>,
    statements: Vec<PlannedStatement>,
}

/// What a plan holds.
pub struct Plan {
    pub id: Seq<char>,
    pub source: Seq<char>,
    pub commit_cursor: Doc,
    pub tables: Seq<TableKey>,
    pub statements: Seq<Planned>,
}

/// A comment that stays on its line.
pub open spec fn one_line(text: Seq<char>) -> Seq<char> {
    Seq::new(
        text.len(),
        |i: int|
            if text[i] == '\r' || text[i] == '\n' {
                ' '
            } else {
                text[i]
            },
    )
}

fn sanitize_comment(text: &str) -> (result: String)
    ensures
        result@ == one_line(text@),
{
    let chars = chars_of(text);
    let mut kept = String::new();
    let mut i: usize = 0;
    assert(kept@ =~= one_line(chars@.take(0)));
    while i < chars.len()
        invariant
            i <= chars@.len(),
            kept@ == one_line(chars@.take(i as int)),
        decreases chars@.len() - i,
    {
        if chars[i] == '\r' || chars[i] == '\n' {
            kept.push(' ');
        } else {
            kept.push(chars[i]);
        }
        assert(kept@ =~= one_line(chars@.take(i + 1)));
        i += 1;
    }
    assert(chars@.take(i as int) =~= chars@);
    kept
}

/// The statements of a script, each on its line.
pub open spec fn statement_lines(statements: Seq<Planned>) -> Seq<char>
    decreases statements.len(),
{
    if statements.len() == 0 {
        Seq::empty()
    } else {
        statement_lines(statements.drop_last()) + statements.last().sql + "\n"@
    }
}

/// The script of a plan.
pub open spec fn script_text(plan: Plan) -> Seq<char> {
    "-- cdc transaction="@ + one_line(plan.id) + " target=mysql-8.4\nSTART TRANSACTION;\n"@
        + statement_lines(plan.statements) + "COMMIT;\n"@
}

impl SqlTransaction {
    /// What the plan holds.
    pub closed spec fn plan(&self) -> Plan {
        Plan {
            id: self.source_transaction_id@,
            source: self.source_uuid@,
            commit_cursor: self.commit_cursor.doc(),
            tables: tables_view(self.tables@),
            statements: statements_view(self.statements@),
        }
    }

    pub fn source_transaction_id(&self) -> (result: &str)
        ensures
            result@ == self.plan().id,
    {
        self.source_transaction_id.as_str()
    }

    pub fn source_uuid(&self) -> (result: &str)
        ensures
            result@ == self.plan().source,
    {
        self.source_uuid.as_str()
    }

    pub fn commit_cursor(&self) -> (result: &SourceCursor)
        ensures
            result.doc() == self.plan().commit_cursor,
    {
        &self.commit_cursor
    }

    /// The tables that the plan touches.
    pub fn tables(&self) -> (result: &Vec<(String, String)>)
        ensures
            tables_view(result@) == self.plan().tables,
    {
        &self.tables
    }

    /// The statements with their probes.
    pub fn planned_statements(&self) -> (result: &Vec<PlannedStatement>)
        ensures
            statements_view(result@) == self.plan().statements,
    {
        &self.statements
    }

    /// The texts of the statements.
    pub fn statements(&self) -> (result: Vec<&str>)
        ensures
            result@.len() == self.plan().statements.len(),
            forall|i: int|
                0 <= i < result@.len() ==> (#[trigger] result@[i])@
                    == self.plan().statements[i].sql,
    {
        let mut list: Vec<&str> = Vec::new();
        let mut i: usize = 0;
        while i < self.statements.len()
            invariant
                i <= self.statements@.len(),
                list@.len() == i,
                forall|k: int|
                    0 <= k < i ==> (#[trigger] list@[k])@ == self.statements@[k]@.sql,
            decreases self.statements@.len() - i,
        {
            list.push(self.statements[i].sql.as_str());
            i += 1;
        }
        list
    }

    /// The parameters of the statements.
    pub fn parameters(&self) -> (result: Vec<&Vec<SqlValue>>)
        ensures
            result@.len() == self.plan().statements.len(),
            forall|i: int|
                0 <= i < result@.len() ==> bounds((#[trigger] result@[i])@)
                    == self.plan().statements[i].params,
    {
        let mut list: Vec<&Vec<SqlValue>> = Vec::new();
        let mut i: usize = 0;
        while i < self.statements.len()
            invariant
                i <= self.statements@.len(),
                list@.len() == i,
                forall|k: int|
                    0 <= k < i ==> bounds((#[trigger] list@[k])@) == self.statements@[k]@.params,
            decreases self.statements@.len() - i,
        {
            list.push(&self.statements[i].params);
            i += 1;
        }
        list
    }

    /// The plan as a script, without its parameters.
    pub fn script(&self) -> (result: String)
        ensures
            result@ == script_text(self.plan()),
    {
        let kept = sanitize_comment(self.source_transaction_id.as_str());
        let mut output = concat3(
            "-- cdc transaction=",
            kept.as_str(),
            " target=mysql-8.4\nSTART TRANSACTION;\n",
        );
        let ghost head = output@;
        let ghost all = statements_view(self.statements@);
        let mut i: usize = 0;
        assert(all.take(0) =~= Seq::empty());
        assert(output@ =~= head + statement_lines(all.take(0)));
        while i < self.statements.len()
            invariant
                i <= self.statements@.len(),
                all == statements_view(self.statements@),
                output@ == head + statement_lines(all.take(i as int)),
            decreases self.statements@.len() - i,
        {
            assert(all.take(i + 1).drop_last() =~= all.take(i as int));
            assert(all.take(i + 1).last() == self.statements@[i as int]@);
            output = concat3(output.as_str(), self.statements[i].sql.as_str(), "\n");
            assert(output@ =~= head + statement_lines(all.take(i + 1)));
            i += 1;
        }
        assert(all.take(i as int) =~= all);
        output = concat(output.as_str(), "COMMIT;\n");
        assert(output@ =~= script_text(self.plan()));
        output
    }
}

/// The plan of a transaction, or why there is none.
pub open spec fn transaction_plan(
    transaction: crate::change_event::model::ChangeTransaction,
    doubles: Seq<DoubleText>,
) -> Result<Plan, SqlFault> {
    match planned_changes(transaction.changes@, doubles) {
        Err(fault) => Err(fault),
        Ok(statements) => Ok(
            Plan {
                id: transaction.id@,
                source: transaction.source.id@,
                commit_cursor: transaction.commit_cursor.doc(),
                tables: touched_tables(transaction.changes@),
                statements,
            },
        ),
    }
}

/// What planning a transaction has given.
pub open spec fn plan_of(result: Result<SqlTransaction, SqlError>) -> Result<Plan, SqlFault> {
    match result {
        Ok(plan) => Ok(plan.plan()),
        Err(error) => Err(error.fault()),
    }
}

/// Plan the statements of a validated transaction. The texts of JSON doubles
/// are given.
pub fn sql(validated: &ValidatedTransaction, doubles: &Vec<DoubleText>) -> (result: Result<
    SqlTransaction,
    SqlError,
>)
    ensures
        plan_of(result) == transaction_plan(validated.inner(), doubles@),
{
    let transaction = validated.transaction();
    let changes = &transaction.changes;
    proof {
        lemma_shapes(changes@, 0);
    }
    let mut statements: Vec<PlannedStatement> = Vec::new();
    let mut i: usize = 0;
    assert(changes@.take(0) =~= Seq::empty());
    assert(statements_view(statements@) =~= Seq::empty());
    while i < changes.len()
        invariant
            i <= changes@.len(),
            *transaction == validated.inner(),
            changes@ == transaction.changes@,
            forall|k: int| 0 <= k < changes@.len() ==> shape_fits(#[trigger] changes@[k]),
            planned_changes(changes@.take(i as int), doubles@) == Ok::<_, SqlFault>(
                statements_view(statements@),
            ),
        decreases changes@.len() - i,
    {
        assert(changes@.take(i + 1).drop_last() =~= changes@.take(i as int));
        assert(changes@.take(i + 1).last() == changes@[i as int]);
        match plan_change(&changes[i], doubles) {
            Ok(statement) => {
                let ghost before = statements_view(statements@);
                let ghost own = statement@;
                statements.push(statement);
                assert(statements_view(statements@) =~= before.push(own));
            },
            Err(error) => {
                proof {
                    lemma_planned_fault(changes@, doubles@, i + 1);
                }
                return Err(error);
            },
        }
        i += 1;
    }
    assert(changes@.take(i as int) =~= changes@);
    Ok(
        SqlTransaction {
            source_transaction_id: transaction.id.clone(),
            source_uuid: transaction.source.id.clone(),
            commit_cursor: transaction.commit_cursor.clone(),
            tables: list_tables(changes),
            statements,
        },
    )
}

// ---------------------------------------------------------------------------
// Snapshots
// ---------------------------------------------------------------------------

/// The statements of a snapshot batch. They carry no invented source
/// transaction and no cursor.
#[derive(Debug)]
pub struct SnapshotSql {
    statements: Vec<String>,
    parameters: Vec<Vec<SqlValue>>,
}

/// Statements with their parameters.
pub open spec fn inserts_view(statements: Seq<String>, parameters: Seq<Vec<SqlValue>>) -> Seq<
    (Seq<char>, Seq<Bound>),
> {
    Seq::new(statements.len(), |i: int| (statements[i]@, bounds(parameters[i]@)))
}

impl SnapshotSql {
    #[verifier::type_invariant]
    spec fn paired(&self) -> bool {
        self.statements@.len() == self.parameters@.len()
    }

    /// The statements with their parameters.
    pub closed spec fn inserts(&self) -> Seq<(Seq<char>, Seq<Bound>)> {
        inserts_view(self.statements@, self.parameters@)
    }

    pub fn statements(&self) -> (result: &Vec<String>)
        ensures
            result@.len() == self.inserts().len(),
            forall|i: int|
                0 <= i < result@.len() ==> (#[trigger] result@[i])@ == self.inserts()[i].0,
    {
        &self.statements
    }

    pub fn parameters(&self) -> (result: &Vec<Vec<SqlValue>>)
        ensures
            result@.len() == self.inserts().len(),
            forall|i: int|
                0 <= i < result@.len() ==> bounds((#[trigger] result@[i])@)
                    == self.inserts()[i].1,
    {
        proof {
            use_type_invariant(self);
        }
        &self.parameters
    }
}

/// The schema that holds replication control data.
pub open spec fn reserved_schema(schema: Seq<char>) -> bool {
    same_ignoring_case(schema, "CDC"@)
}

/// The statement that a snapshot row is written with, or why there is none.
pub open spec fn planned_row(
    table: Seq<char>,
    row: Seq<crate::change_event::model::ColumnDatum>,
    doubles: Seq<DoubleText>,
) -> Result<(Seq<char>, Seq<Bound>), SqlFault> {
    match image_fault(row, doubles) {
        Some(fault) => Err(fault),
        None => inserted(table, row, doubles, "snapshot has no writable columns"@),
    }
}

/// The statements that snapshot rows are written with.
pub open spec fn planned_rows(
    table: Seq<char>,
    rows: Seq<Vec<crate::change_event::model::ColumnDatum>>,
    doubles: Seq<DoubleText>,
) -> Result<Seq<(Seq<char>, Seq<Bound>)>, SqlFault>
    decreases rows.len(),
{
    if rows.len() == 0 {
        Ok(Seq::empty())
    } else {
        match planned_rows(table, rows.drop_last(), doubles) {
            Err(fault) => Err(fault),
            Ok(list) => match planned_row(table, rows.last()@, doubles) {
                Err(fault) => Err(fault),
                Ok(statement) => Ok(list.push(statement)),
            },
        }
    }
}

proof fn lemma_planned_rows_fault(
    table: Seq<char>,
    rows: Seq<Vec<crate::change_event::model::ColumnDatum>>,
    doubles: Seq<DoubleText>,
    n: int,
)
    requires
        0 <= n <= rows.len(),
        planned_rows(table, rows.take(n), doubles) is Err,
    ensures
        planned_rows(table, rows, doubles) == planned_rows(table, rows.take(n), doubles),
    decreases rows.len() - n,
{
    if n < rows.len() {
        assert(rows.take(n + 1).drop_last() =~= rows.take(n));
        lemma_planned_rows_fault(table, rows, doubles, n + 1);
    } else {
        assert(rows.take(n) =~= rows);
    }
}

/// The statements of a snapshot batch, or why there are none.
pub open spec fn batch_plan(batch: SnapshotBatch, doubles: Seq<DoubleText>) -> Result<
    Seq<(Seq<char>, Seq<Bound>)>,
    SqlFault,
> {
    if reserved_schema(batch.schema@) {
        Err(incapable("CDC is reserved"@))
    } else {
        planned_rows(table_name(batch.schema@, batch.table@), batch.rows@, doubles)
    }
}

/// What planning a batch has given.
pub open spec fn inserts_of(result: Result<SnapshotSql, SqlError>) -> Result<
    Seq<(Seq<char>, Seq<Bound>)>,
    SqlFault,
> {
    match result {
        Ok(plan) => Ok(plan.inserts()),
        Err(error) => Err(error.fault()),
    }
}

/// Plan the statements of a validated snapshot batch. The texts of JSON doubles
/// are given.
pub fn snapshot_sql(validated: &ValidatedSnapshotBatch, doubles: &Vec<DoubleText>) -> (result: Result<
    SnapshotSql,
    SqlError,
>)
    ensures
        inserts_of(result) == batch_plan(validated.inner(), doubles@),
{
    let batch = validated.batch();
    let table = qualified_table(batch.schema.as_str(), batch.table.as_str());
    if eq_ignore_case(batch.schema.as_str(), "CDC") {
        return Err(SqlError::capability("CDC is reserved"));
    }
    let rows = &batch.rows;
    let mut statements: Vec<String> = Vec::new();
    let mut parameters: Vec<Vec<SqlValue>> = Vec::new();
    let mut i: usize = 0;
    assert(rows@.take(0) =~= Seq::empty());
    assert(inserts_view(statements@, parameters@) =~= Seq::empty());
    while i < rows.len()
        invariant
            i <= rows@.len(),
            *batch == validated.inner(),
            rows@ == batch.rows@,
            !reserved_schema(batch.schema@),
            table@ == table_name(batch.schema@, batch.table@),
            statements@.len() == parameters@.len(),
            planned_rows(table@, rows@.take(i as int), doubles@) == Ok::<_, SqlFault>(
                inserts_view(statements@, parameters@),
            ),
        decreases rows@.len() - i,
    {
        assert(rows@.take(i + 1).drop_last() =~= rows@.take(i as int));
        assert(rows@.take(i + 1).last() == rows@[i as int]);
        match ensure_supported_image(&rows[i], doubles) {
            Ok(_) => {},
            Err(error) => {
                proof {
                    lemma_planned_rows_fault(table@, rows@, doubles@, i + 1);
                }
                return Err(error);
            },
        }
        match insert_row(table.as_str(), &rows[i], doubles, "snapshot has no writable columns") {
            Ok((statement, params)) => {
                let ghost before = inserts_view(statements@, parameters@);
                let ghost own = (statement@, bounds(params@));
                statements.push(statement);
                parameters.push(params);
                assert(inserts_view(statements@, parameters@) =~= before.push(own));
            },
            Err(error) => {
                proof {
                    lemma_planned_rows_fault(table@, rows@, doubles@, i + 1);
                }
                return Err(error);
            },
        }
        i += 1;
    }
    assert(rows@.take(i as int) =~= rows@);
    Ok(SnapshotSql { statements, parameters })
}

} // verus!
