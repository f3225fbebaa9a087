//! Decisions while a plan is applied. The driver performs each step and hands
//! the reply back.
use crate::change_event::failure::TargetApplyErrorKind;
use crate::change_event::model::Operation;
use crate::change_event::snapshot::SnapshotTable;
use crate::mysql_8_4::error::{fault_of, incapable, other, SqlError, SqlFault};
use crate::mysql_8_4::sql::{reserved_schema, Plan, SqlTransaction, TARGET_VERSION};
use crate::mysql_source_contract::identifier::{qualified_table, table_name};
use crate::number::{decimal, decimal_text};
use crate::text::{
    concat, concat3, concat4, eq_ignore_case, has_prefix, same, same_ignoring_case, starts_with,
};
use vstd::prelude::*;

verus! {

// ---------------------------------------------------------------------------
// Errors
// ---------------------------------------------------------------------------

/// How an operation of the system has failed.
#[derive(Debug, Clone, Copy, PartialEq, Eq, Structural)]
pub enum IoFailure {
    TimedOut,
    ConnectionReset,
    ConnectionAborted,
    BrokenPipe,
    UnexpectedEof,
    Other,
}

/// How applying a plan has failed.
#[derive(Debug, Clone, Copy, PartialEq, Eq, Structural)]
pub enum ApplyFailure {
    /// The acknowledgement of a COMMIT was lost.
    CommitUnknown,
    /// The target lacks a capability.
    Capability,
    /// The driver reports an error, perhaps with the code of the server.
    Driver { connectivity: bool, server_code: Option<u16> },
    Io(IoFailure),
}

/// A failed COMMIT acknowledgement must never be blindly retried.
pub fn commit_outcome_unknown(failure: &ApplyFailure) -> (result: bool)
    ensures
        result == (failure is CommitUnknown),
{
    match failure {
        ApplyFailure::CommitUnknown => true,
        _ => false,
    }
}

/// A lock wait timeout or a deadlock: both roll back the whole transaction and
/// are safe to replay.
pub open spec fn lock_code(code: u16) -> bool {
    code == 1205 || code == 1213
}

/// A row breaks a constraint of the target.
pub open spec fn constraint_code(code: u16) -> bool {
    code == 1022 || code == 1062 || code == 1216 || code == 1217 || code == 1451 || code == 1452
        || code == 1048
}

/// The stable category of a failure.
pub open spec fn apply_category(failure: ApplyFailure) -> TargetApplyErrorKind {
    match failure {
        ApplyFailure::CommitUnknown => TargetApplyErrorKind::CommitUnknown,
        ApplyFailure::Capability => TargetApplyErrorKind::Capability,
        ApplyFailure::Driver { connectivity, server_code } => if connectivity {
            TargetApplyErrorKind::Connection
        } else {
            match server_code {
                Some(code) => if lock_code(code) {
                    TargetApplyErrorKind::LockTimeout
                } else if constraint_code(code) {
                    TargetApplyErrorKind::Constraint
                } else {
                    TargetApplyErrorKind::Sql
                },
                None => TargetApplyErrorKind::Sql,
            }
        },
        ApplyFailure::Io(IoFailure::Other) => TargetApplyErrorKind::Sql,
        ApplyFailure::Io(_) => TargetApplyErrorKind::Connection,
    }
}

/// Classify an apply failure without exposing driver errors to the caller.
pub fn classify_apply_error(failure: &ApplyFailure) -> (result: TargetApplyErrorKind)
    ensures
        result == apply_category(*failure),
{
    match *failure {
        ApplyFailure::CommitUnknown => TargetApplyErrorKind::CommitUnknown,
        ApplyFailure::Capability => TargetApplyErrorKind::Capability,
        ApplyFailure::Driver { connectivity, server_code } => {
            if connectivity {
                return TargetApplyErrorKind::Connection;
            }
            match server_code {
                Some(code) => if code == 1205 || code == 1213 {
                    TargetApplyErrorKind::LockTimeout
                } else if code == 1022 || code == 1062 || code == 1216 || code == 1217 || code
                    == 1451 || code == 1452 || code == 1048 {
                    TargetApplyErrorKind::Constraint
                } else {
                    TargetApplyErrorKind::Sql
                },
                None => TargetApplyErrorKind::Sql,
            }
        },
        ApplyFailure::Io(IoFailure::Other) => TargetApplyErrorKind::Sql,
        ApplyFailure::Io(_) => TargetApplyErrorKind::Connection,
    }
}

/// A lost acknowledgement, and nothing else, leaves a commit in doubt; what may
/// be retried does not.
pub proof fn law_a_lost_acknowledgement_is_never_retried(failure: ApplyFailure)
    ensures
        failure is CommitUnknown <==> apply_category(failure).retry() is CommitUnknown,
        apply_category(failure).retry() is Retryable ==> !(failure is CommitUnknown),
{
}

// ---------------------------------------------------------------------------
// Single checks
// ---------------------------------------------------------------------------

/// Why a server cannot be written to.
pub open spec fn server_fault(version: Seq<char>) -> Option<SqlFault> {
    if has_prefix(version, TARGET_VERSION@) {
        None
    } else {
        Some(incapable("mysql_8.4 cannot write target version "@ + version))
    }
}

pub fn check_server(version: &str) -> (result: Result<(), SqlError>)
    ensures
        fault_of(result) == server_fault(version@),
{
    if starts_with(version, TARGET_VERSION) {
        return Ok(());
    }
    let detail = concat("mysql_8.4 cannot write target version ", version);
    Err(SqlError::capability(detail.as_str()))
}

pub open spec fn schema_fault(schema: Seq<char>) -> Option<SqlFault> {
    if reserved_schema(schema) {
        Some(incapable("CDC is reserved for replication control data"@))
    } else {
        None
    }
}

fn check_schema(schema: &str) -> (result: Result<(), SqlError>)
    ensures
        fault_of(result) == schema_fault(schema@),
{
    if eq_ignore_case(schema, "CDC") {
        return Err(SqlError::capability("CDC is reserved for replication control data"));
    }
    Ok(())
}

/// A storage engine that has transactions.
pub open spec fn transactional(engine: Option<String>) -> bool {
    engine matches Some(name) && name@ == "InnoDB"@
}

fn is_transactional(engine: &Option<String>) -> (result: bool)
    ensures
        result == transactional(*engine),
{
    match engine {
        Some(name) => same(name.as_str(), "InnoDB"),
        None => false,
    }
}

pub open spec fn engine_fault(engine: Option<String>) -> Option<SqlFault> {
    if transactional(engine) {
        None
    } else {
        Some(incapable("atomic Sink writes require InnoDB business tables"@))
    }
}

pub open spec fn triggers_fault(triggers: u64) -> Option<SqlFault> {
    if triggers != 0 {
        Some(
            incapable(
                "Sink triggers require separate qualification; transaction rolled back"@,
            ),
        )
    } else {
        None
    }
}

/// A row locator has to match exactly one row.
pub open spec fn probe_fault(rows: usize) -> Option<SqlFault> {
    if rows != 1 {
        Some(
            other(
                "row locator matched "@ + decimal(rows as nat)
                    + " rows; transaction rolled back"@,
            ),
        )
    } else {
        None
    }
}

fn check_probe(rows: usize) -> (result: Result<(), SqlError>)
    ensures
        fault_of(result) == probe_fault(rows),
{
    if rows != 1 {
        let count = decimal_text(rows as u128);
        let detail = concat3(
            "row locator matched ",
            count.as_str(),
            " rows; transaction rolled back",
        );
        return Err(SqlError::other(detail.as_str()));
    }
    Ok(())
}

/// The count of rows that an operation may affect. An UPDATE that sets what is
/// there affects none.
pub open spec fn expected_count(operation: Operation, affected: u64) -> bool {
    match operation {
        Operation::Update => affected <= 1,
        _ => affected == 1,
    }
}

pub open spec fn applied_fault(operation: Operation, warnings: u16, affected: u64) -> Option<
    SqlFault,
> {
    if warnings != 0 {
        Some(other("target reported SQL warnings; transaction rolled back"@))
    } else if !expected_count(operation, affected) {
        Some(
            other(
                "unexpected affected row count "@ + decimal(affected as nat)
                    + "; transaction rolled back"@,
            ),
        )
    } else {
        None
    }
}

fn check_applied(operation: Operation, warnings: u16, affected: u64) -> (result: Result<
    (),
    SqlError,
>)
    ensures
        fault_of(result) == applied_fault(operation, warnings, affected),
{
    if warnings != 0 {
        return Err(SqlError::other("target reported SQL warnings; transaction rolled back"));
    }
    let expected = match operation {
        Operation::Update => affected <= 1,
        _ => affected == 1,
    };
    if !expected {
        let count = decimal_text(affected as u128);
        let detail = concat3(
            "unexpected affected row count ",
            count.as_str(),
            "; transaction rolled back",
        );
        return Err(SqlError::other(detail.as_str()));
    }
    Ok(())
}

// ---------------------------------------------------------------------------
// Steps
// ---------------------------------------------------------------------------

/// What the driver does next inside the transaction. The numbers are places in
/// the tables and in the statements of the plan.
#[derive(Debug, Clone, Copy, PartialEq, Eq, Structural)]
pub enum Step {
    /// Read no row of a table, which holds a metadata lock until the end, so
    /// that its engine cannot be altered behind the next check.
    Lock(usize),
    ReadEngine(usize),
    CountTriggers(usize),
    Probe(usize),
    Execute(usize),
    /// Every statement has been applied: COMMIT.
    Commit,
}

/// What came back.
#[derive(Debug)]
pub enum Reply {
    Locked,
    Engine(Option<String>),
    Count(u64),
    Rows(usize),
    Applied { warnings: u16, affected: u64 },
}

/// The reply is one that the step can get.
pub open spec fn answers(step: Step, reply: Reply) -> bool {
    match step {
        Step::Lock(_) => reply is Locked,
        Step::ReadEngine(_) => reply is Engine,
        Step::CountTriggers(_) => reply is Count,
        Step::Probe(_) => reply is Rows,
        Step::Execute(_) => reply is Applied,
        Step::Commit => false,
    }
}

/// The step belongs to the plan.
pub open spec fn step_fits(plan: Plan, step: Step) -> bool {
    match step {
        Step::Lock(i) => i < plan.tables.len(),
        Step::ReadEngine(i) => i < plan.tables.len(),
        Step::CountTriggers(i) => i < plan.tables.len(),
        Step::Probe(k) => k < plan.statements.len() && plan.statements[k as int].probe is Some,
        Step::Execute(k) => k < plan.statements.len(),
        Step::Commit => true,
    }
}

/// The first step of a statement.
pub open spec fn statement_step(plan: Plan, at: int) -> Step {
    if at >= plan.statements.len() {
        Step::Commit
    } else if plan.statements[at].probe is Some {
        Step::Probe(at as usize)
    } else {
        Step::Execute(at as usize)
    }
}

/// The first step of a table.
pub open spec fn table_step(plan: Plan, at: int) -> Result<Step, SqlFault> {
    if at >= plan.tables.len() {
        Ok(statement_step(plan, 0))
    } else {
        match schema_fault(plan.tables[at].0) {
            Some(fault) => Err(fault),
            None => Ok(Step::Lock(at as usize)),
        }
    }
}

/// A step, unless there is a fault.
pub open spec fn unless(fault: Option<SqlFault>, step: Step) -> Result<Step, SqlFault> {
    match fault {
        Some(fault) => Err(fault),
        None => Ok(step),
    }
}

/// The step that follows another one and its reply. Every table is checked
/// before the first statement runs.
pub open spec fn following(plan: Plan, step: Step, reply: Reply) -> Result<Step, SqlFault> {
    match (step, reply) {
        (Step::Lock(i), _) => Ok(Step::ReadEngine(i)),
        (Step::ReadEngine(i), Reply::Engine(engine)) => unless(
            engine_fault(engine),
            Step::CountTriggers(i),
        ),
        (Step::CountTriggers(i), Reply::Count(triggers)) => match triggers_fault(triggers) {
            Some(fault) => Err(fault),
            None => table_step(plan, i + 1),
        },
        (Step::Probe(k), Reply::Rows(rows)) => unless(probe_fault(rows), Step::Execute(k)),
        (Step::Execute(k), Reply::Applied { warnings, affected }) => unless(
            applied_fault(plan.statements[k as int].operation, warnings, affected),
            statement_step(plan, k + 1),
        ),
        _ => Ok(Step::Commit),
    }
}

/// What a decision has given.
pub open spec fn step_of(result: Result<Step, SqlError>) -> Result<Step, SqlFault> {
    match result {
        Ok(step) => Ok(step),
        Err(error) => Err(error.fault()),
    }
}

fn begin_statement(plan: &SqlTransaction, at: usize) -> (result: Step)
    ensures
        result == statement_step(plan.plan(), at as int),
{
    let statements = plan.planned_statements();
    assert(plan.plan().statements.len() == statements@.len());
    if at >= statements.len() {
        Step::Commit
    } else {
        assert(plan.plan().statements[at as int] == statements@[at as int]@);
        if statements[at].probe.is_some() {
            Step::Probe(at)
        } else {
            Step::Execute(at)
        }
    }
}

fn begin_table(plan: &SqlTransaction, at: usize) -> (result: Result<Step, SqlError>)
    ensures
        step_of(result) == table_step(plan.plan(), at as int),
{
    let tables = plan.tables();
    assert(plan.plan().tables.len() == tables@.len());
    if at >= tables.len() {
        return Ok(begin_statement(plan, 0));
    }
    assert(plan.plan().tables[at as int].0 == tables@[at as int].0@);
    match check_schema(tables[at].0.as_str()) {
        Ok(_) => Ok(Step::Lock(at)),
        Err(error) => Err(error),
    }
}

/// The first step of applying a plan.
pub fn first_step(plan: &SqlTransaction) -> (result: Result<Step, SqlError>)
    ensures
        step_of(result) == table_step(plan.plan(), 0),
{
    begin_table(plan, 0)
}

/// The next step of applying a plan, or why the transaction is rolled back.
pub fn next_step(plan: &SqlTransaction, step: Step, reply: &Reply) -> (result: Result<
    Step,
    SqlError,
>)
    requires
        step_fits(plan.plan(), step),
        answers(step, *reply),
    ensures
        step_of(result) == following(plan.plan(), step, *reply),
        result matches Ok(next) ==> step_fits(plan.plan(), next),
{
    match (step, reply) {
        (Step::Lock(i), _) => Ok(Step::ReadEngine(i)),
        (Step::ReadEngine(i), Reply::Engine(engine)) => {
            if !is_transactional(engine) {
                return Err(
                    SqlError::capability("atomic Sink writes require InnoDB business tables"),
                );
            }
            Ok(Step::CountTriggers(i))
        },
        (Step::CountTriggers(i), Reply::Count(triggers)) => {
            if *triggers != 0 {
                return Err(
                    SqlError::capability(
                        "Sink triggers require separate qualification; transaction rolled back",
                    ),
                );
            }
            let count: usize = plan.tables().len();
            assert(i < count);
            begin_table(plan, i + 1)
        },
        (Step::Probe(k), Reply::Rows(rows)) => match check_probe(*rows) {
            Ok(_) => Ok(Step::Execute(k)),
            Err(error) => Err(error),
        },
        (Step::Execute(k), Reply::Applied { warnings, affected }) => {
            let statements = plan.planned_statements();
            let count: usize = statements.len();
            assert(k < count);
            assert(plan.plan().statements[k as int] == statements@[k as int]@);
            match check_applied(statements[k].operation, *warnings, *affected) {
                Ok(_) => Ok(begin_statement(plan, k + 1)),
                Err(error) => Err(error),
            }
        },
        _ => {
            assert(false);
            Ok(Step::Commit)
        },
    }
}

/// Where a run stands after some replies.
pub open spec fn run(plan: Plan, replies: Seq<Reply>) -> Result<Step, SqlFault>
    decreases replies.len(),
{
    if replies.len() == 0 {
        table_step(plan, 0)
    } else {
        match run(plan, replies.drop_last()) {
            Err(fault) => Err(fault),
            Ok(step) => following(plan, step, replies.last()),
        }
    }
}

/// The replies answer the steps of a run.
pub open spec fn run_fits(plan: Plan, replies: Seq<Reply>) -> bool
    decreases replies.len(),
{
    replies.len() > 0 ==> run_fits(plan, replies.drop_last()) && (run(
        plan,
        replies.drop_last(),
    ) matches Ok(step) ==> answers(step, replies.last()))
}

/// How many tables a run has checked, and how many statements it has applied.
pub open spec fn progress(plan: Plan, replies: Seq<Reply>) -> (int, int)
    decreases replies.len(),
{
    if replies.len() == 0 {
        (0, 0)
    } else {
        let (tables, statements) = progress(plan, replies.drop_last());
        match (run(plan, replies.drop_last()), run(plan, replies)) {
            (Ok(Step::CountTriggers(_)), Ok(_)) => (tables + 1, statements),
            (Ok(Step::Execute(_)), Ok(_)) => (tables, statements + 1),
            _ => (tables, statements),
        }
    }
}

/// The progress that a step stands for.
pub open spec fn progress_at(plan: Plan, step: Step) -> (int, int) {
    match step {
        Step::Lock(i) => (i as int, 0),
        Step::ReadEngine(i) => (i as int, 0),
        Step::CountTriggers(i) => (i as int, 0),
        Step::Probe(k) => (plan.tables.len() as int, k as int),
        Step::Execute(k) => (plan.tables.len() as int, k as int),
        Step::Commit => (plan.tables.len() as int, plan.statements.len() as int),
    }
}

proof fn lemma_progress(plan: Plan, replies: Seq<Reply>)
    requires
        plan.tables.len() <= usize::MAX,
        plan.statements.len() <= usize::MAX,
        run_fits(plan, replies),
    ensures
        run(plan, replies) matches Ok(step) ==> step_fits(plan, step) && progress(plan, replies)
            == progress_at(plan, step),
    decreases replies.len(),
{
    if replies.len() > 0 {
        lemma_progress(plan, replies.drop_last());
    }
}

/// A run commits only when every table has been checked and every statement has
/// been applied.
pub proof fn law_commit_needs_the_whole_plan(plan: Plan, replies: Seq<Reply>)
    requires
        plan.tables.len() <= usize::MAX,
        plan.statements.len() <= usize::MAX,
        run_fits(plan, replies),
        run(plan, replies) == Ok::<_, SqlFault>(Step::Commit),
    ensures
        progress(plan, replies) == (plan.tables.len() as int, plan.statements.len() as int),
{
    lemma_progress(plan, replies);
}

/// A refused reply ends a run: nothing after it commits.
pub proof fn law_a_refused_run_never_commits(plan: Plan, replies: Seq<Reply>, n: int)
    requires
        0 <= n <= replies.len(),
        run(plan, replies.take(n)) is Err,
    ensures
        run(plan, replies) == run(plan, replies.take(n)),
    decreases replies.len() - n,
{
    if n < replies.len() {
        assert(replies.take(n + 1).drop_last() =~= replies.take(n));
        law_a_refused_run_never_commits(plan, replies, n + 1);
    } else {
        assert(replies.take(n) =~= replies);
    }
}

/// The reply at a place was one to the step, and the run went on.
pub open spec fn asked(plan: Plan, replies: Seq<Reply>, at: int, step: Step) -> bool {
    0 <= at < replies.len() && run(plan, replies.take(at)) == Ok::<_, SqlFault>(step)
}

/// At a place the target has said that a table takes part in transactions, and
/// next that it has no triggers.
pub open spec fn table_taken(plan: Plan, replies: Seq<Reply>, at: int, table: usize) -> bool {
    &&& asked(plan, replies, at, Step::ReadEngine(table))
    &&& asked(plan, replies, at + 1, Step::CountTriggers(table))
    &&& replies[at] matches Reply::Engine(Some(name)) && name@ == "InnoDB"@
    &&& replies[at + 1] == Reply::Count(0)
    &&& !same_ignoring_case(plan.tables[table as int].0, "CDC"@)
}

/// At a place a statement was run without a warning: an insertion and a deletion
/// on one row, an update on one or, where the row was the same, on none; and where
/// it looks for its row, it had found exactly one just before.
pub open spec fn statement_applied(plan: Plan, replies: Seq<Reply>, at: int, statement: usize) -> bool {
    let planned = plan.statements[statement as int];
    &&& asked(plan, replies, at, Step::Execute(statement))
    &&& replies[at] matches Reply::Applied { warnings, affected }
    &&& warnings == 0
    &&& affected == 1 || (planned.operation is Update && affected == 0)
    &&& planned.probe is Some ==> asked(plan, replies, at - 1, Step::Probe(statement)) && replies[at
        - 1] == Reply::Rows(1)
}

/// The table has been taken at some place.
pub open spec fn was_taken(plan: Plan, replies: Seq<Reply>, table: usize) -> bool {
    exists|at: int| table_taken(plan, replies, at, table)
}

/// The statement has been applied at some place.
pub open spec fn was_applied(plan: Plan, replies: Seq<Reply>, statement: usize) -> bool {
    exists|at: int| statement_applied(plan, replies, at, statement)
}

spec fn behind(plan: Plan, replies: Seq<Reply>, step: Step) -> bool {
    let (tables, statements) = progress_at(plan, step);
    &&& forall|i: usize| i < tables ==> #[trigger] was_taken(plan, replies, i)
    &&& forall|k: usize| k < statements ==> #[trigger] was_applied(plan, replies, k)
    &&& step matches Step::CountTriggers(i) ==> asked(
        plan,
        replies,
        replies.len() - 1,
        Step::ReadEngine(i),
    ) && (replies.last() matches Reply::Engine(Some(name)) && name@ == "InnoDB"@)
    &&& step matches Step::Lock(i) ==> !reserved_schema(plan.tables[i as int].0)
    &&& step matches Step::ReadEngine(i) ==> !reserved_schema(plan.tables[i as int].0)
    &&& step matches Step::CountTriggers(i) ==> !reserved_schema(plan.tables[i as int].0)
    &&& step matches Step::Execute(k) ==> plan.statements[k as int].probe is Some ==> asked(
        plan,
        replies,
        replies.len() - 1,
        Step::Probe(k),
    ) && replies.last() == Reply::Rows(1)
}

proof fn lemma_asked_before(plan: Plan, replies: Seq<Reply>, at: int, step: Step)
    requires
        replies.len() > 0,
        asked(plan, replies.drop_last(), at, step),
    ensures
        asked(plan, replies, at, step),
        replies.drop_last()[at] == replies[at],
{
    assert(replies.drop_last().take(at) =~= replies.take(at));
}

proof fn lemma_behind(plan: Plan, replies: Seq<Reply>)
    requires
        plan.tables.len() <= usize::MAX,
        plan.statements.len() <= usize::MAX,
        run_fits(plan, replies),
    ensures
        run(plan, replies) matches Ok(step) ==> step_fits(plan, step) && behind(
            plan,
            replies,
            step,
        ),
    decreases replies.len(),
{
    lemma_progress(plan, replies);
    if replies.len() > 0 && run(plan, replies) is Ok {
        let earlier = replies.drop_last();
        lemma_behind(plan, earlier);
        let last = replies.len() - 1;
        let before = run(plan, earlier)->Ok_0;
        let step = run(plan, replies)->Ok_0;
        assert(replies.take(last) =~= earlier);
        assert(asked(plan, replies, last, before));
        assert forall|i: usize| i < progress_at(plan, step).0 implies #[trigger] was_taken(
            plan,
            replies,
            i,
        ) by {
            if i < progress_at(plan, before).0 {
                assert(was_taken(plan, earlier, i));
                let at = choose|at: int| table_taken(plan, earlier, at, i);
                lemma_asked_before(plan, replies, at, Step::ReadEngine(i));
                lemma_asked_before(plan, replies, at + 1, Step::CountTriggers(i));
                assert(table_taken(plan, replies, at, i));
            } else {
                assert(before == Step::CountTriggers(i));
                lemma_asked_before(plan, replies, last - 1, Step::ReadEngine(i));
                assert(earlier.last() == replies[last - 1]);
                assert(table_taken(plan, replies, last - 1, i));
            }
        }
        assert forall|k: usize| k < progress_at(plan, step).1 implies #[trigger] was_applied(
            plan,
            replies,
            k,
        ) by {
            let planned = plan.statements[k as int];
            if k < progress_at(plan, before).1 {
                assert(was_applied(plan, earlier, k));
                let at = choose|at: int| statement_applied(plan, earlier, at, k);
                lemma_asked_before(plan, replies, at, Step::Execute(k));
                if planned.probe is Some {
                    lemma_asked_before(plan, replies, at - 1, Step::Probe(k));
                }
                assert(statement_applied(plan, replies, at, k));
            } else {
                assert(before == Step::Execute(k));
                if planned.probe is Some {
                    lemma_asked_before(plan, replies, last - 1, Step::Probe(k));
                    assert(earlier.last() == replies[last - 1]);
                }
                assert(statement_applied(plan, replies, last, k));
            }
        }
    }
}

/// Behind a commit every table has been taken and every statement applied: each
/// table takes part in transactions, has no triggers and lies outside the schema
/// of the control data, and each statement did what it was to do to exactly its
/// row.
pub proof fn law_a_commit_follows_a_clean_run(plan: Plan, replies: Seq<Reply>)
    requires
        plan.tables.len() <= usize::MAX,
        plan.statements.len() <= usize::MAX,
        run_fits(plan, replies),
        run(plan, replies) == Ok::<_, SqlFault>(Step::Commit),
    ensures
        forall|i: usize| i < plan.tables.len() ==> #[trigger] was_taken(plan, replies, i),
        forall|k: usize| k < plan.statements.len() ==> #[trigger] was_applied(plan, replies, k),
{
    lemma_behind(plan, replies);
}

/// Statements are run one by one in the order of the plan: after one has been
/// run, the next is looked at, and after the last comes the commit.
pub proof fn law_statements_are_run_in_order(plan: Plan, statement: usize, reply: Reply)
    requires
        statement < plan.statements.len() <= usize::MAX,
        reply == (Reply::Applied { warnings: 0, affected: 1 }),
    ensures
        following(plan, Step::Execute(statement), reply) == Ok::<_, SqlFault>(
            if statement + 1 == plan.statements.len() {
                Step::Commit
            } else if plan.statements[statement + 1].probe is Some {
                Step::Probe((statement + 1) as usize)
            } else {
                Step::Execute((statement + 1) as usize)
            },
        ),
{
}

/// Exactly a lost connection, a wait for a lock that took too long and a deadlock
/// may be tried again.
pub proof fn law_exactly_passing_failures_are_retried(failure: ApplyFailure)
    ensures
        apply_category(failure).retry() is Retryable <==> match failure {
            ApplyFailure::Driver { connectivity, server_code } => connectivity || server_code
                == Some(1205u16) || server_code == Some(1213u16),
            ApplyFailure::Io(kind) => kind != IoFailure::Other,
            _ => false,
        },
{
}

/// The query that holds the metadata lock of a table.
pub fn lock_query(schema: &str, table: &str) -> (result: String)
    ensures
        result@ == "SELECT * FROM "@ + table_name(schema@, table@) + " LIMIT 0"@,
{
    let name = qualified_table(schema, table);
    concat3("SELECT * FROM ", name.as_str(), " LIMIT 0")
}

// ---------------------------------------------------------------------------
// Snapshot targets
// ---------------------------------------------------------------------------

/// What is known of a snapshot target.
#[derive(Debug)]
pub struct SnapshotTarget {
    /// The table holds a row.
    pub present: bool,
    pub engine: Option<String>,
    pub triggers: u64,
    pub foreign_keys: u64,
}

/// Why a table cannot be asked about.
pub open spec fn snapshot_schema_fault(schema: Seq<char>) -> Option<SqlFault> {
    if reserved_schema(schema) {
        Some(incapable("CDC is reserved"@))
    } else {
        None
    }
}

/// The query that finds a row of a snapshot target, or why it is not asked.
pub fn snapshot_probe(table: &SnapshotTable, lock: bool) -> (result: Result<String, SqlError>)
    ensures
        fault_of(result) == snapshot_schema_fault(table.schema@),
        result matches Ok(query) ==> query@ == "SELECT 1 FROM "@ + table_name(
            table.schema@,
            table.table@,
        ) + " LIMIT 1"@ + if lock {
            " FOR UPDATE"@
        } else {
            ""@
        },
{
    if eq_ignore_case(table.schema.as_str(), "CDC") {
        return Err(SqlError::capability("CDC is reserved"));
    }
    let name = qualified_table(table.schema.as_str(), table.table.as_str());
    Ok(
        concat4(
            "SELECT 1 FROM ",
            name.as_str(),
            " LIMIT 1",
            if lock {
                " FOR UPDATE"
            } else {
                ""
            },
        ),
    )
}

/// Why a snapshot cannot be written to its tables at all.
pub open spec fn scope_fault(tables: Seq<SnapshotTable>) -> Option<SqlFault> {
    if tables.len() == 0 {
        Some(incapable("snapshot scope is empty"@))
    } else {
        None
    }
}

pub fn check_snapshot_scope(tables: &Vec<SnapshotTable>) -> (result: Result<(), SqlError>)
    ensures
        fault_of(result) == scope_fault(tables@),
{
    if tables.len() == 0 {
        return Err(SqlError::capability("snapshot scope is empty"));
    }
    Ok(())
}

/// Why a table cannot take a snapshot. It has to be empty, transactional and
/// free of triggers and foreign keys.
pub open spec fn target_fault(name: Seq<char>, target: SnapshotTarget) -> Option<SqlFault> {
    if target.present {
        Some(other("全量同步要求目的表为空："@ + name + "；未删除任何已有数据"@))
    } else if !transactional(target.engine) {
        Some(incapable("snapshot targets require InnoDB"@))
    } else if target.triggers != 0 || target.foreign_keys != 0 {
        Some(incapable(name + ": 第一版全量同步暂不支持目的端触发器或外键"@))
    } else {
        None
    }
}

pub fn check_snapshot_target(table: &SnapshotTable, target: &SnapshotTarget) -> (result: Result<
    (),
    SqlError,
>)
    ensures
        fault_of(result) == target_fault(table_name(table.schema@, table.table@), *target),
{
    let name = qualified_table(table.schema.as_str(), table.table.as_str());
    if target.present {
        let detail = concat3(
            "全量同步要求目的表为空：",
            name.as_str(),
            "；未删除任何已有数据",
        );
        return Err(SqlError::other(detail.as_str()));
    }
    if !is_transactional(&target.engine) {
        return Err(SqlError::capability("snapshot targets require InnoDB"));
    }
    if target.triggers != 0 || target.foreign_keys != 0 {
        let detail = concat(name.as_str(), ": 第一版全量同步暂不支持目的端触发器或外键");
        return Err(SqlError::capability(detail.as_str()));
    }
    Ok(())
}

/// Why a snapshot row was not written.
pub open spec fn insert_fault(warnings: u16, affected: u64) -> Option<SqlFault> {
    if warnings != 0 || affected != 1 {
        Some(other("snapshot INSERT warnings or unexpected affected rows; rolling back"@))
    } else {
        None
    }
}

pub fn check_snapshot_insert(warnings: u16, affected: u64) -> (result: Result<(), SqlError>)
    ensures
        fault_of(result) == insert_fault(warnings, affected),
{
    if warnings != 0 || affected != 1 {
        return Err(
            SqlError::other(
                "snapshot INSERT warnings or unexpected affected rows; rolling back",
            ),
        );
    }
    Ok(())
}

/// Exactly an empty transactional table without triggers and foreign keys is
/// filled from a snapshot, and a row counts as written exactly where it alone was
/// and nothing was warned of.
pub proof fn law_a_snapshot_fills_an_empty_table(
    name: Seq<char>,
    target: SnapshotTarget,
    warnings: u16,
    affected: u64,
)
    ensures
        target_fault(name, target) is None <==> !target.present && target.triggers == 0
            && target.foreign_keys == 0 && (target.engine matches Some(engine) && engine@
            == "InnoDB"@),
        insert_fault(warnings, affected) is None <==> warnings == 0 && affected == 1,
{
}

} // verus!
