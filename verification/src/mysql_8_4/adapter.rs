//! The Sink side of the MySQL 8.4 connector.
use crate::change_event::adapter::CapabilityManifest;
use crate::change_event::compatibility::values::json_text::DoubleText;
use crate::change_event::model::FORMAT;
use crate::change_event::validate::ValidatedTransaction;
use crate::mysql_8_4::error::{fault_of, SqlError};
use crate::mysql_8_4::sql::{plan_of, sql, transaction_plan, SqlTransaction};
use vstd::prelude::*;

verus! {

/// How a target is reached.
pub struct TargetConfig {
    pub host: String,
    pub port: u16,
    pub user: String,
    pub password: String,
}

impl TargetConfig {
    pub fn new(host: &str, user: &str, password: &str) -> (result: Self)
        ensures
            result.host@ == host@,
            result.port == 3306,
            result.user@ == user@,
            result.password@ == password@,
    {
        Self {
            host: host.to_owned(),
            port: 3306,
            user: user.to_owned(),
            password: password.to_owned(),
        }
    }
}

/// What has been applied.
#[derive(Debug, PartialEq, Eq)]
pub struct ApplyResult {
    pub source_transaction_id: String,
    pub statements_executed: usize,
}

/// The result of a plan that has been applied.
pub fn applied(plan: &SqlTransaction) -> (result: ApplyResult)
    ensures
        result.source_transaction_id@ == plan.plan().id,
        result.statements_executed == plan.plan().statements.len(),
{
    ApplyResult {
        source_transaction_id: plan.source_transaction_id().to_owned(),
        statements_executed: plan.planned_statements().len(),
    }
}

/// The names of the types that the Sink takes.
pub open spec fn supported_logical_types() -> Seq<&'static str> {
    seq![
        "boolean",
        "uuid",
        "integer",
        "decimal",
        "float",
        "text",
        "binary",
        "bit_string",
        "date",
        "local_datetime",
        "duration",
        "instant",
        "year",
        "json",
        "enum",
        "set",
    ]
}

/// The static summary is the one of this Sink.
pub open spec fn summary(manifest: CapabilityManifest) -> bool {
    &&& manifest.connector@ == "mysql_8_4"@
    &&& manifest.target@ == "mysql-8.4"@
    &&& manifest.contract@ == FORMAT@
    &&& manifest.supported_logical_types@ == supported_logical_types()
    &&& manifest.supported_presence@ == seq!["value", "null", "unchanged", "unavailable"]
    &&& manifest.requires_primary_key
}

/// The static summary that this Sink publishes.
pub fn capability_manifest() -> (result: CapabilityManifest)
    ensures
        summary(result),
{
    let types: Vec<&'static str> = vec![
        "boolean",
        "uuid",
        "integer",
        "decimal",
        "float",
        "text",
        "binary",
        "bit_string",
        "date",
        "local_datetime",
        "duration",
        "instant",
        "year",
        "json",
        "enum",
        "set",
    ];
    let presence: Vec<&'static str> = vec!["value", "null", "unchanged", "unavailable"];
    assert(types@ =~= supported_logical_types());
    assert(presence@ =~= seq!["value", "null", "unchanged", "unavailable"]);
    CapabilityManifest {
        connector: "mysql_8_4",
        target: "mysql-8.4",
        contract: FORMAT,
        supported_logical_types: types,
        supported_presence: presence,
        requires_primary_key: true,
    }
}

/// The Sink side of the connector. It holds the texts of JSON doubles, which
/// the caller spells.
#[derive(Debug)]
pub struct SinkAdapter {
    doubles: Vec<DoubleText>,
}

impl SinkAdapter {
    /// The texts of JSON doubles.
    pub closed spec fn doubles(&self) -> Seq<DoubleText> {
        self.doubles@
    }

    /// An adapter for transactions without JSON doubles.
    pub fn new() -> (result: Self)
        ensures
            result.doubles() == Seq::<DoubleText>::empty(),
    {
        Self { doubles: Vec::new() }
    }

    /// An adapter for transactions whose JSON doubles have these texts.
    pub fn with_doubles(doubles: Vec<DoubleText>) -> (result: Self)
        ensures
            result.doubles() == doubles@,
    {
        Self { doubles }
    }
}

impl crate::change_event::adapter::SinkAdapter for SinkAdapter {
    type Plan = SqlTransaction;

    type Error = SqlError;

    fn capability_manifest(&self) -> (result: CapabilityManifest)
        ensures
            summary(result),
    {
        capability_manifest()
    }

    fn qualify(&self, transaction: &ValidatedTransaction) -> (result: Result<(), SqlError>)
        ensures
            fault_of(result) == match transaction_plan(transaction.inner(), self.doubles()) {
                Ok(_) => None,
                Err(fault) => Some(fault),
            },
    {
        match sql(transaction, &self.doubles) {
            Ok(_) => Ok(()),
            Err(error) => Err(error),
        }
    }

    fn plan(&self, transaction: &ValidatedTransaction) -> (result: Result<SqlTransaction, SqlError>)
        ensures
            plan_of(result) == transaction_plan(transaction.inner(), self.doubles()),
    {
        sql(transaction, &self.doubles)
    }
}

} // verus!
