//! The boundaries that connectors implement.
use crate::change_event::compatibility::error::CompatibilityError;
use crate::change_event::compatibility::plan::{CompatibilityInput, CompatibilityResult};
use crate::change_event::compatibility::planner::explain::{ended, explanation, plan_stands};
use crate::change_event::validate::ValidatedTransaction;
use vstd::prelude::*;

verus! {

/// The static summary that a target connector publishes.
#[derive(Debug, PartialEq, Eq)]
pub struct CapabilityManifest {
    pub connector: &'static str,
    pub target: &'static str,
    pub contract: &'static str,
    pub supported_logical_types: Vec<&'static str>,
    pub supported_presence: Vec<&'static str>,
    pub requires_primary_key: bool,
}

/// The database-neutral boundary that every target connector implements.
pub trait SinkAdapter {
    type Plan;

    type Error;

    fn capability_manifest(&self) -> CapabilityManifest;

    fn qualify(&self, transaction: &ValidatedTransaction) -> Result<(), Self::Error>;

    fn plan(&self, transaction: &ValidatedTransaction) -> Result<Self::Plan, Self::Error>;
}

/// The structured compatibility boundary that preflight, activation and runtime
/// callers share. Every target connector has it, with the database-neutral
/// planner behind it: no pair of a source and a target is told apart.
pub trait SinkCompatibilityAdapter: SinkAdapter {
    fn explain_compatibility(&self, input: CompatibilityInput<'_>) -> (result: Result<
        CompatibilityResult,
        CompatibilityError,
    >)
        ensures
            ended(result) == explanation(input),
            plan_stands(result, input),
    {
        crate::change_event::compatibility::planner::explain::explain_compatibility(input)
    }

    fn plan_compatibility(&self, input: CompatibilityInput<'_>) -> (result: Result<
        CompatibilityResult,
        CompatibilityError,
    >)
        ensures
            ended(result) == explanation(input),
            plan_stands(result, input),
    {
        crate::change_event::compatibility::planner::explain::plan_compatibility(input)
    }
}

impl<T: SinkAdapter> SinkCompatibilityAdapter for T {

}

/// The database-neutral boundary of a source connector that publishes complete,
/// validated transactions. The error stays with the connector, so that the core
/// depends on no driver.
pub trait SourceAdapter {
    type Error;

    fn next_transaction(&mut self) -> Result<Option<ValidatedTransaction>, Self::Error>;
}

} // verus!
