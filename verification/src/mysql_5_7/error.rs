//! What can go wrong while changes are captured.
use crate::mysql_5_7::declaration::{Complaint, SourceTypeMappingError};
use vstd::prelude::*;

verus! {

#[derive(Debug, Clone, Copy, PartialEq, Eq, Structural)]
pub enum CaptureErrorKind {
    /// The source sent what its protocol or its declaration rules out.
    InvalidData,
    /// The capture was cancelled.
    Interrupted,
    Other,
}

/// An error, by its kind and its message.
pub type CaptureFault = (CaptureErrorKind, Seq<char>);

#[derive(Debug)]
pub struct CaptureError {
    kind: CaptureErrorKind,
    message: String,
}

pub open spec fn invalid_data(message: Seq<char>) -> CaptureFault {
    (CaptureErrorKind::InvalidData, message)
}

pub open spec fn other(message: Seq<char>) -> CaptureFault {
    (CaptureErrorKind::Other, message)
}

/// A complaint about a declaration.
pub open spec fn undeclared(complaint: Complaint) -> CaptureFault {
    other(complaint.0 + ": "@ + complaint.1)
}

/// What a call has ended with.
pub open spec fn capture_fault<T>(result: Result<T, CaptureError>) -> Option<CaptureFault> {
    match result {
        Ok(_) => None,
        Err(error) => Some(error.fault()),
    }
}

impl CaptureError {
    pub closed spec fn fault(&self) -> CaptureFault {
        (self.kind, self.message@)
    }

    pub fn invalid_data(message: &str) -> (result: Self)
        ensures
            result.fault() == invalid_data(message@),
    {
        Self { kind: CaptureErrorKind::InvalidData, message: message.to_owned() }
    }

    pub fn interrupted(message: &str) -> (result: Self)
        ensures
            result.fault() == (CaptureErrorKind::Interrupted, message@),
    {
        Self { kind: CaptureErrorKind::Interrupted, message: message.to_owned() }
    }

    pub fn other(message: &str) -> (result: Self)
        ensures
            result.fault() == other(message@),
    {
        Self { kind: CaptureErrorKind::Other, message: message.to_owned() }
    }

    pub(crate) fn undeclared(error: &SourceTypeMappingError) -> (result: Self)
        ensures
            result.fault() == undeclared(error.complaint()),
    {
        Self { kind: CaptureErrorKind::Other, message: error.message() }
    }

    pub fn kind(&self) -> (result: CaptureErrorKind)
        ensures
            result == self.fault().0,
    {
        self.kind
    }

    pub fn message(&self) -> (result: &str)
        ensures
            result@ == self.fault().1,
    {
        self.message.as_str()
    }
}

} // verus!
