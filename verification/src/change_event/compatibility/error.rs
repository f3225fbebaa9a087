//! The errors of compatibility planning.
use crate::change_event::compatibility::capability_failure::TargetCapabilityFailure;
use crate::change_event::compatibility::types::{failure_doc, CompatibilityFailure};
use crate::change_event::failure::{FailureClass, FailurePhase};
use crate::json::{Contract, Doc, Fields, Json};
use vstd::prelude::*;

verus! {

/// Malformed inputs, or an invalid or stale manifest or plan.
#[derive(Debug, PartialEq, Eq)]
pub enum CompatibilityError {
    InvalidInput(CompatibilityFailure),
    SourceContract(CompatibilityFailure),
    TargetCapability(Box<TargetCapabilityFailure>),
    StaleInput(CompatibilityFailure),
    PlanInvalidated(CompatibilityFailure),
}

/// A value under the name of its kind.
pub open spec fn named_doc(name: Seq<char>, value: Doc) -> Doc {
    Doc::Obj(Seq::<(Seq<char>, Doc)>::empty().push((name, value)))
}

/// The form of an error for a failure of the target.
pub open spec fn capability_error_doc(failure: Doc) -> Doc {
    named_doc("TargetCapability"@, failure)
}

/// The form of an error for an input that a request may not have.
pub open spec fn invalid_input_doc(code: Seq<char>, phase: FailurePhase, message: Seq<char>) -> Doc {
    named_doc("InvalidInput"@, failure_doc(FailureClass::InvalidInput, code, phase, message))
}

/// The form of an error for a source that breaks its contract.
pub open spec fn source_contract_doc(code: Seq<char>, phase: FailurePhase, message: Seq<char>) -> Doc {
    named_doc("SourceContract"@, failure_doc(FailureClass::SourceContract, code, phase, message))
}

/// The form of an error for an input that is out of date.
pub open spec fn stale_input_doc(code: Seq<char>, phase: FailurePhase, message: Seq<char>) -> Doc {
    named_doc("StaleInput"@, failure_doc(FailureClass::StaleInput, code, phase, message))
}

/// The form of an error for a plan that no longer stands.
pub open spec fn plan_invalidated_doc(code: Seq<char>, message: Seq<char>) -> Doc {
    named_doc(
        "PlanInvalidated"@,
        failure_doc(FailureClass::StaleInput, code, FailurePhase::PlanConstruction, message),
    )
}

fn named_json(name: &str, value: Json) -> (result: Json)
    ensures
        result@ == named_doc(name@, value@),
{
    let mut fields = Fields::new();
    fields.put(name, value);
    fields.finish()
}

impl Contract for CompatibilityError {
    open spec fn doc(&self) -> Doc {
        match *self {
            CompatibilityError::InvalidInput(failure) => named_doc(
                "InvalidInput"@,
                failure.doc(),
            ),
            CompatibilityError::SourceContract(failure) => named_doc(
                "SourceContract"@,
                failure.doc(),
            ),
            CompatibilityError::TargetCapability(failure) => capability_error_doc(failure.doc()),
            CompatibilityError::StaleInput(failure) => named_doc("StaleInput"@, failure.doc()),
            CompatibilityError::PlanInvalidated(failure) => named_doc(
                "PlanInvalidated"@,
                failure.doc(),
            ),
        }
    }

    fn to_json(&self) -> (result: Json) {
        match self {
            CompatibilityError::InvalidInput(failure) => named_json(
                "InvalidInput",
                failure.to_json(),
            ),
            CompatibilityError::SourceContract(failure) => named_json(
                "SourceContract",
                failure.to_json(),
            ),
            CompatibilityError::TargetCapability(failure) => named_json(
                "TargetCapability",
                failure.to_json(),
            ),
            CompatibilityError::StaleInput(failure) => named_json("StaleInput", failure.to_json()),
            CompatibilityError::PlanInvalidated(failure) => named_json(
                "PlanInvalidated",
                failure.to_json(),
            ),
        }
    }

    fn duplicate(&self) -> (result: Self) {
        match self {
            CompatibilityError::InvalidInput(failure) => CompatibilityError::InvalidInput(
                failure.duplicate(),
            ),
            CompatibilityError::SourceContract(failure) => CompatibilityError::SourceContract(
                failure.duplicate(),
            ),
            CompatibilityError::TargetCapability(failure) => CompatibilityError::TargetCapability(
                Box::new(failure.duplicate()),
            ),
            CompatibilityError::StaleInput(failure) => CompatibilityError::StaleInput(
                failure.duplicate(),
            ),
            CompatibilityError::PlanInvalidated(failure) => CompatibilityError::PlanInvalidated(
                failure.duplicate(),
            ),
        }
    }
}

impl Clone for CompatibilityError {
    fn clone(&self) -> (result: Self)
        ensures
            result.doc() == self.doc(),
    {
        self.duplicate()
    }
}

impl CompatibilityError {
    /// The class of the failure inside.
    pub open spec fn class_spec(&self) -> FailureClass {
        match *self {
            CompatibilityError::InvalidInput(failure) => failure.class,
            CompatibilityError::SourceContract(failure) => failure.class,
            CompatibilityError::StaleInput(failure) => failure.class,
            CompatibilityError::PlanInvalidated(failure) => failure.class,
            CompatibilityError::TargetCapability(_) => FailureClass::TargetCapability,
        }
    }

    /// The code of the failure inside.
    pub open spec fn code_spec(&self) -> Seq<char> {
        match *self {
            CompatibilityError::InvalidInput(failure) => failure.code@,
            CompatibilityError::SourceContract(failure) => failure.code@,
            CompatibilityError::StaleInput(failure) => failure.code@,
            CompatibilityError::PlanInvalidated(failure) => failure.code@,
            CompatibilityError::TargetCapability(failure) => failure.code@,
        }
    }

    /// The text of the failure inside.
    pub open spec fn text(&self) -> Seq<char> {
        match *self {
            CompatibilityError::InvalidInput(failure) => failure.message@,
            CompatibilityError::SourceContract(failure) => failure.message@,
            CompatibilityError::StaleInput(failure) => failure.message@,
            CompatibilityError::PlanInvalidated(failure) => failure.message@,
            CompatibilityError::TargetCapability(failure) => failure.text(),
        }
    }

    pub fn class(&self) -> (result: FailureClass)
        ensures
            result == self.class_spec(),
    {
        match self {
            CompatibilityError::InvalidInput(failure) => failure.class,
            CompatibilityError::SourceContract(failure) => failure.class,
            CompatibilityError::StaleInput(failure) => failure.class,
            CompatibilityError::PlanInvalidated(failure) => failure.class,
            CompatibilityError::TargetCapability(_) => FailureClass::TargetCapability,
        }
    }

    pub fn code(&self) -> (result: &str)
        ensures
            result@ == self.code_spec(),
    {
        match self {
            CompatibilityError::InvalidInput(failure) => failure.code.as_str(),
            CompatibilityError::SourceContract(failure) => failure.code.as_str(),
            CompatibilityError::StaleInput(failure) => failure.code.as_str(),
            CompatibilityError::PlanInvalidated(failure) => failure.code.as_str(),
            CompatibilityError::TargetCapability(failure) => failure.code.as_str(),
        }
    }

    pub fn message(&self) -> (result: String)
        ensures
            result@ == self.text(),
    {
        match self {
            CompatibilityError::InvalidInput(failure) => failure.message.clone(),
            CompatibilityError::SourceContract(failure) => failure.message.clone(),
            CompatibilityError::StaleInput(failure) => failure.message.clone(),
            CompatibilityError::PlanInvalidated(failure) => failure.message.clone(),
            CompatibilityError::TargetCapability(failure) => failure.message(),
        }
    }

    pub(crate) fn invalid_input(code: &str, phase: FailurePhase, message: &str) -> (result: Self)
        ensures
            result.doc() == invalid_input_doc(code@, phase, message@),
    {
        CompatibilityError::InvalidInput(
            CompatibilityFailure::new(FailureClass::InvalidInput, code, phase, message),
        )
    }

    pub(crate) fn source_contract(code: &str, phase: FailurePhase, message: &str) -> (result: Self)
        ensures
            result.doc() == source_contract_doc(code@, phase, message@),
    {
        CompatibilityError::SourceContract(
            CompatibilityFailure::new(FailureClass::SourceContract, code, phase, message),
        )
    }

    pub(crate) fn stale_input(code: &str, phase: FailurePhase, message: &str) -> (result: Self)
        ensures
            result.doc() == stale_input_doc(code@, phase, message@),
    {
        CompatibilityError::StaleInput(
            CompatibilityFailure::new(FailureClass::StaleInput, code, phase, message),
        )
    }

    pub(crate) fn plan_invalidated(code: &str, message: &str) -> (result: Self)
        ensures
            result.doc() == plan_invalidated_doc(code@, message@),
    {
        CompatibilityError::PlanInvalidated(
            CompatibilityFailure::new(
                FailureClass::StaleInput,
                code,
                FailurePhase::PlanConstruction,
                message,
            ),
        )
    }
}

} // verus!
