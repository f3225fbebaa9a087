//! What can go wrong when MySQL statements are planned or applied.
use crate::change_event::compatibility::capability_failure::{
    bare_failure_doc, sanitized, TargetCapabilityFailure,
};
use crate::json::Contract;
use crate::text::concat;
use vstd::prelude::*;

verus! {

/// The kind of an error.
#[derive(Debug, Clone, Copy, PartialEq, Eq, Structural)]
pub enum SqlErrorClass {
    /// The target cannot hold what the source sent.
    Capability,
    /// A value is not what its kind promises.
    InvalidData,
    Other,
}

/// An error, by its kind and what it is about.
pub type SqlFault = (SqlErrorClass, Seq<char>);

#[derive(Debug)]
pub struct SqlError {
    class: SqlErrorClass,
    detail: String,
}

pub open spec fn incapable(detail: Seq<char>) -> SqlFault {
    (SqlErrorClass::Capability, detail)
}

pub open spec fn invalid(detail: Seq<char>) -> SqlFault {
    (SqlErrorClass::InvalidData, detail)
}

pub open spec fn other(detail: Seq<char>) -> SqlFault {
    (SqlErrorClass::Other, detail)
}

/// What a capability failure says of itself.
pub open spec fn capability_cause(detail: Seq<char>) -> Seq<char> {
    "Target Capability Failure: "@ + detail
}

/// The text of an error.
pub open spec fn shown(fault: SqlFault) -> Seq<char> {
    match fault.0 {
        SqlErrorClass::Capability => "Target Capability Failure ["@
            + "target_capability.unspecified"@ + "]"@ + ": "@ + sanitized(
            capability_cause(fault.1),
        ),
        _ => fault.1,
    }
}

/// What a call has ended with.
pub open spec fn fault_of<T>(result: Result<T, SqlError>) -> Option<SqlFault> {
    match result {
        Ok(_) => None,
        Err(error) => Some(error.fault()),
    }
}

impl SqlError {
    pub closed spec fn fault(&self) -> SqlFault {
        (self.class, self.detail@)
    }

    pub fn capability(detail: &str) -> (result: Self)
        ensures
            result.fault() == incapable(detail@),
    {
        Self { class: SqlErrorClass::Capability, detail: detail.to_owned() }
    }

    pub fn invalid_data(detail: &str) -> (result: Self)
        ensures
            result.fault() == invalid(detail@),
    {
        Self { class: SqlErrorClass::InvalidData, detail: detail.to_owned() }
    }

    pub fn other(detail: &str) -> (result: Self)
        ensures
            result.fault() == other(detail@),
    {
        Self { class: SqlErrorClass::Other, detail: detail.to_owned() }
    }

    pub fn class(&self) -> (result: SqlErrorClass)
        ensures
            result == self.fault().0,
    {
        self.class
    }

    /// The structured failure, where the target lacks a capability.
    pub fn failure(&self) -> (result: Option<TargetCapabilityFailure>)
        ensures
            match result {
                Some(failure) => self.fault().0 is Capability && failure.doc() == bare_failure_doc(
                    "target_capability.unspecified"@,
                    capability_cause(self.fault().1),
                ),
                None => !(self.fault().0 is Capability),
            },
    {
        match self.class {
            SqlErrorClass::Capability => {
                let cause = concat("Target Capability Failure: ", self.detail.as_str());
                Some(TargetCapabilityFailure::new(cause.as_str()))
            },
            _ => None,
        }
    }

    /// The text of the error.
    pub fn message(&self) -> (result: String)
        ensures
            result@ == shown(self.fault()),
    {
        match self.class {
            SqlErrorClass::Capability => {
                let cause = concat("Target Capability Failure: ", self.detail.as_str());
                let failure = TargetCapabilityFailure::new(cause.as_str());
                failure.message()
            },
            _ => self.detail.clone(),
        }
    }
}

} // verus!
