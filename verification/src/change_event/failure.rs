//! Stable categories of failure.
use crate::json::{Contract, Doc, Json};
use vstd::prelude::*;

verus! {

/// Whose contract a failure breaks.
#[derive(Debug, Clone, Copy, PartialEq, Eq, Hash, Structural)]
pub enum FailureClass {
    ChangeEventValidation,
    SourceContract,
    InvalidInput,
    TargetCapability,
    MissingConfirmation,
    StaleInput,
    TransientTarget,
    CommitUnknown,
}

impl FailureClass {
    /// The name that the value is written as.
    pub open spec fn label_spec(self) -> Seq<char> {
        match self {
            FailureClass::ChangeEventValidation => "CHANGE_EVENT_VALIDATION"@,
            FailureClass::SourceContract => "SOURCE_CONTRACT"@,
            FailureClass::InvalidInput => "INVALID_INPUT"@,
            FailureClass::TargetCapability => "TARGET_CAPABILITY"@,
            FailureClass::MissingConfirmation => "MISSING_CONFIRMATION"@,
            FailureClass::StaleInput => "STALE_INPUT"@,
            FailureClass::TransientTarget => "TRANSIENT_TARGET"@,
            FailureClass::CommitUnknown => "COMMIT_UNKNOWN"@,
        }
    }

    pub fn label(self) -> (result: &'static str)
        ensures
            result@ == self.label_spec(),
    {
        match self {
            FailureClass::ChangeEventValidation => "CHANGE_EVENT_VALIDATION",
            FailureClass::SourceContract => "SOURCE_CONTRACT",
            FailureClass::InvalidInput => "INVALID_INPUT",
            FailureClass::TargetCapability => "TARGET_CAPABILITY",
            FailureClass::MissingConfirmation => "MISSING_CONFIRMATION",
            FailureClass::StaleInput => "STALE_INPUT",
            FailureClass::TransientTarget => "TRANSIENT_TARGET",
            FailureClass::CommitUnknown => "COMMIT_UNKNOWN",
        }
    }
}

impl Contract for FailureClass {
    open spec fn doc(&self) -> Doc {
        Doc::Str(self.label_spec())
    }

    fn to_json(&self) -> (result: Json) {
        Json::Text(self.label().to_owned())
    }

    fn duplicate(&self) -> (result: Self) {
        *self
    }
}

/// When a failure was found.
#[derive(Debug, Clone, Copy, PartialEq, Eq, Hash, Structural)]
pub enum FailurePhase {
    InputValidation,
    SourceContract,
    CapabilityQualification,
    PlanConstruction,
    Conversion,
    Locator,
    Apply,
    Commit,
}

impl FailurePhase {
    /// The name that the value is written as.
    pub open spec fn label_spec(self) -> Seq<char> {
        match self {
            FailurePhase::InputValidation => "INPUT_VALIDATION"@,
            FailurePhase::SourceContract => "SOURCE_CONTRACT"@,
            FailurePhase::CapabilityQualification => "CAPABILITY_QUALIFICATION"@,
            FailurePhase::PlanConstruction => "PLAN_CONSTRUCTION"@,
            FailurePhase::Conversion => "CONVERSION"@,
            FailurePhase::Locator => "LOCATOR"@,
            FailurePhase::Apply => "APPLY"@,
            FailurePhase::Commit => "COMMIT"@,
        }
    }

    pub fn label(self) -> (result: &'static str)
        ensures
            result@ == self.label_spec(),
    {
        match self {
            FailurePhase::InputValidation => "INPUT_VALIDATION",
            FailurePhase::SourceContract => "SOURCE_CONTRACT",
            FailurePhase::CapabilityQualification => "CAPABILITY_QUALIFICATION",
            FailurePhase::PlanConstruction => "PLAN_CONSTRUCTION",
            FailurePhase::Conversion => "CONVERSION",
            FailurePhase::Locator => "LOCATOR",
            FailurePhase::Apply => "APPLY",
            FailurePhase::Commit => "COMMIT",
        }
    }
}

impl Contract for FailurePhase {
    open spec fn doc(&self) -> Doc {
        Doc::Str(self.label_spec())
    }

    fn to_json(&self) -> (result: Json) {
        Json::Text(self.label().to_owned())
    }

    fn duplicate(&self) -> (result: Self) {
        *self
    }
}

/// Whether the work may be tried again.
#[derive(Debug, Clone, Copy, PartialEq, Eq, Hash, Structural)]
pub enum RetryClassification {
    NotRetryable,
    Retryable,
    CommitUnknown,
}

impl RetryClassification {
    /// The name that the value is written as.
    pub open spec fn label_spec(self) -> Seq<char> {
        match self {
            RetryClassification::NotRetryable => "NOT_RETRYABLE"@,
            RetryClassification::Retryable => "RETRYABLE"@,
            RetryClassification::CommitUnknown => "COMMIT_UNKNOWN"@,
        }
    }

    pub fn label(self) -> (result: &'static str)
        ensures
            result@ == self.label_spec(),
    {
        match self {
            RetryClassification::NotRetryable => "NOT_RETRYABLE",
            RetryClassification::Retryable => "RETRYABLE",
            RetryClassification::CommitUnknown => "COMMIT_UNKNOWN",
        }
    }
}

impl Contract for RetryClassification {
    open spec fn doc(&self) -> Doc {
        Doc::Str(self.label_spec())
    }

    fn to_json(&self) -> (result: Json) {
        Json::Text(self.label().to_owned())
    }

    fn duplicate(&self) -> (result: Self) {
        *self
    }
}

/// The outcome of checking the destination's authoritative replication
/// metadata after a commit acknowledgement was lost.
#[derive(Debug, Clone, Copy, PartialEq, Eq, Hash, Structural)]
pub enum CommitResolution {
    Applied,
    NotApplied,
    Unprovable,
}

impl CommitResolution {
    /// The name that the value is written as.
    pub open spec fn label_spec(self) -> Seq<char> {
        match self {
            CommitResolution::Applied => "APPLIED"@,
            CommitResolution::NotApplied => "NOT_APPLIED"@,
            CommitResolution::Unprovable => "UNPROVABLE"@,
        }
    }

    pub fn label(self) -> (result: &'static str)
        ensures
            result@ == self.label_spec(),
    {
        match self {
            CommitResolution::Applied => "APPLIED",
            CommitResolution::NotApplied => "NOT_APPLIED",
            CommitResolution::Unprovable => "UNPROVABLE",
        }
    }
}

impl Contract for CommitResolution {
    open spec fn doc(&self) -> Doc {
        Doc::Str(self.label_spec())
    }

    fn to_json(&self) -> (result: Json) {
        Json::Text(self.label().to_owned())
    }

    fn duplicate(&self) -> (result: Self) {
        *self
    }
}

/// Stable runtime categories used by Sink adapters and the Web worker.
/// The category is deliberately independent of a vendor driver's error type.
/// It is the retry boundary: only connection and lock failures may replay the
/// complete source transaction. A commit acknowledgement is never classified
/// as an ordinary retry.
#[derive(Debug, Clone, Copy, PartialEq, Eq, Hash, Structural)]
pub enum TargetApplyErrorKind {
    Conversion,
    Capability,
    Constraint,
    Sql,
    Connection,
    LockTimeout,
    CommitUnknown,
    CheckpointConflict,
}

impl TargetApplyErrorKind {
    /// The name that the value is written as.
    pub open spec fn label_spec(self) -> Seq<char> {
        match self {
            TargetApplyErrorKind::Conversion => "CONVERSION"@,
            TargetApplyErrorKind::Capability => "CAPABILITY"@,
            TargetApplyErrorKind::Constraint => "CONSTRAINT"@,
            TargetApplyErrorKind::Sql => "SQL"@,
            TargetApplyErrorKind::Connection => "CONNECTION"@,
            TargetApplyErrorKind::LockTimeout => "LOCK_TIMEOUT"@,
            TargetApplyErrorKind::CommitUnknown => "COMMIT_UNKNOWN"@,
            TargetApplyErrorKind::CheckpointConflict => "CHECKPOINT_CONFLICT"@,
        }
    }

    pub fn label(self) -> (result: &'static str)
        ensures
            result@ == self.label_spec(),
    {
        match self {
            TargetApplyErrorKind::Conversion => "CONVERSION",
            TargetApplyErrorKind::Capability => "CAPABILITY",
            TargetApplyErrorKind::Constraint => "CONSTRAINT",
            TargetApplyErrorKind::Sql => "SQL",
            TargetApplyErrorKind::Connection => "CONNECTION",
            TargetApplyErrorKind::LockTimeout => "LOCK_TIMEOUT",
            TargetApplyErrorKind::CommitUnknown => "COMMIT_UNKNOWN",
            TargetApplyErrorKind::CheckpointConflict => "CHECKPOINT_CONFLICT",
        }
    }
}

impl Contract for TargetApplyErrorKind {
    open spec fn doc(&self) -> Doc {
        Doc::Str(self.label_spec())
    }

    fn to_json(&self) -> (result: Json) {
        Json::Text(self.label().to_owned())
    }

    fn duplicate(&self) -> (result: Self) {
        *self
    }
}

impl TargetApplyErrorKind {
    pub fn is_retryable(self) -> (result: bool)
        ensures
            result == (self is Connection || self is LockTimeout),
    {
        matches!(self, Self::Connection | Self::LockTimeout)
    }

    pub open spec fn retry(self) -> RetryClassification {
        match self {
            TargetApplyErrorKind::Connection
            | TargetApplyErrorKind::LockTimeout => RetryClassification::Retryable,
            TargetApplyErrorKind::CommitUnknown => RetryClassification::CommitUnknown,
            _ => RetryClassification::NotRetryable,
        }
    }

    pub fn retry_classification(self) -> (result: RetryClassification)
        ensures
            result == self.retry(),
    {
        match self {
            Self::Connection | Self::LockTimeout => RetryClassification::Retryable,
            Self::CommitUnknown => RetryClassification::CommitUnknown,
            Self::Conversion
            | Self::Capability
            | Self::Constraint
            | Self::Sql
            | Self::CheckpointConflict => RetryClassification::NotRetryable,
        }
    }

    pub fn failure_class(self) -> (result: FailureClass)
        ensures
            result == match self {
                TargetApplyErrorKind::Connection
                | TargetApplyErrorKind::LockTimeout => FailureClass::TransientTarget,
                TargetApplyErrorKind::CommitUnknown => FailureClass::CommitUnknown,
                TargetApplyErrorKind::Conversion
                | TargetApplyErrorKind::Capability => FailureClass::TargetCapability,
                _ => FailureClass::InvalidInput,
            },
    {
        match self {
            Self::Connection | Self::LockTimeout => FailureClass::TransientTarget,
            Self::CommitUnknown => FailureClass::CommitUnknown,
            Self::Conversion | Self::Capability => FailureClass::TargetCapability,
            Self::Constraint | Self::Sql | Self::CheckpointConflict => FailureClass::InvalidInput,
        }
    }

    pub fn phase(self) -> (result: FailurePhase)
        ensures
            result == match self {
                TargetApplyErrorKind::Conversion => FailurePhase::Conversion,
                TargetApplyErrorKind::Capability => FailurePhase::CapabilityQualification,
                TargetApplyErrorKind::CommitUnknown => FailurePhase::Commit,
                _ => FailurePhase::Apply,
            },
    {
        match self {
            Self::Conversion => FailurePhase::Conversion,
            Self::Capability => FailurePhase::CapabilityQualification,
            Self::Constraint | Self::Sql | Self::CheckpointConflict => FailurePhase::Apply,
            Self::Connection | Self::LockTimeout => FailurePhase::Apply,
            Self::CommitUnknown => FailurePhase::Commit,
        }
    }

    pub fn stable_code(self) -> (result: &'static str)
        ensures
            result@ == match self {
                TargetApplyErrorKind::Conversion => "target_apply.conversion_failed"@,
                TargetApplyErrorKind::Capability => "target_apply.capability_failed"@,
                TargetApplyErrorKind::Constraint => "target_apply.constraint_failed"@,
                TargetApplyErrorKind::Sql => "target_apply.sql_error"@,
                TargetApplyErrorKind::Connection => "target_apply.connection_failed"@,
                TargetApplyErrorKind::LockTimeout => "target_apply.lock_timeout"@,
                TargetApplyErrorKind::CommitUnknown => "target_apply.commit_unknown"@,
                TargetApplyErrorKind::CheckpointConflict => "target_apply.checkpoint_conflict"@,
            },
    {
        match self {
            Self::Conversion => "target_apply.conversion_failed",
            Self::Capability => "target_apply.capability_failed",
            Self::Constraint => "target_apply.constraint_failed",
            Self::Sql => "target_apply.sql_error",
            Self::Connection => "target_apply.connection_failed",
            Self::LockTimeout => "target_apply.lock_timeout",
            Self::CommitUnknown => "target_apply.commit_unknown",
            Self::CheckpointConflict => "target_apply.checkpoint_conflict",
        }
    }
}

/// Only connection and lock failures may replay a transaction, and a lost
/// commit acknowledgement is never an ordinary retry.
pub proof fn law_only_connection_and_lock_failures_retry(kind: TargetApplyErrorKind)
    ensures
        kind.retry() is Retryable <==> kind is Connection || kind is LockTimeout,
        kind.retry() is CommitUnknown <==> kind is CommitUnknown,
{
}

} // verus!
