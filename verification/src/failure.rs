//! How a request can fail, and how a failure is reported to the caller.

use vstd::prelude::*;

verus! {

/// The kinds of failure.
#[derive(Clone, Copy, Debug, PartialEq, Eq, Structural)]
pub enum ErrorKind {
    /// The submission itself is malformed.
    BadInput,
    /// The shared secret is missing or wrong.
    Unauthorized,
    /// The record breaks one of its completeness rules.
    ValidationFailed,
    /// Object storage, version control or the campaign service failed.
    UpstreamFailure,
    /// A value that the service needs was not configured.
    InternalConfiguration,
}

/// The stages of a request, in the order in which they run.
#[derive(Clone, Copy, Debug, PartialEq, Eq, Structural)]
pub enum Stage {
    Demultiplex,
    Authenticate,
    AcquireWorkingCopy,
    Upload,
    Resolve,
    Validate,
    Render,
    Commit,
    Campaign,
}

/// The three classes of status that a caller sees.
#[derive(Clone, Copy, Debug, PartialEq, Eq, Structural)]
pub enum StatusClass {
    BadInput,
    Unauthorized,
    Internal,
}

/// The class under which a kind of failure is reported.
pub open spec fn status_class_of(kind: ErrorKind) -> StatusClass {
    match kind {
        ErrorKind::BadInput | ErrorKind::ValidationFailed => StatusClass::BadInput,
        ErrorKind::Unauthorized => StatusClass::Unauthorized,
        ErrorKind::UpstreamFailure | ErrorKind::InternalConfiguration => StatusClass::Internal,
    }
}

/// The HTTP status code of a class.
pub open spec fn status_code_of(class: StatusClass) -> u16 {
    match class {
        StatusClass::BadInput => 400,
        StatusClass::Unauthorized => 401,
        StatusClass::Internal => 500,
    }
}

/// A failed request: the stage that failed, the kind of failure and a message
/// for the caller.
#[derive(Debug, PartialEq, Eq)]
pub struct Failure {
    pub stage: Stage,
    pub kind: ErrorKind,
    pub message: String,
}

pub struct FailureView {
    pub stage: Stage,
    pub kind: ErrorKind,
    pub message: Seq<char>,
}

impl View for Failure {
    type V = FailureView;

    open spec fn view(&self) -> FailureView {
        FailureView { stage: self.stage, kind: self.kind, message: self.message@ }
    }
}

impl Clone for Failure {
    fn clone(&self) -> (r: Self)
        ensures
            r@ == self@,
    {
        Failure { stage: self.stage, kind: self.kind, message: self.message.clone() }
    }
}

impl Failure {
    /// The class under which this failure is reported.
    pub fn status_class(&self) -> (class: StatusClass)
        ensures
            class == status_class_of(self.kind),
    {
        match self.kind {
            ErrorKind::BadInput | ErrorKind::ValidationFailed => StatusClass::BadInput,
            ErrorKind::Unauthorized => StatusClass::Unauthorized,
            ErrorKind::UpstreamFailure | ErrorKind::InternalConfiguration => StatusClass::Internal,
        }
    }

    /// The HTTP status code under which this failure is reported.
    pub fn status_code(&self) -> (code: u16)
        ensures
            code == status_code_of(status_class_of(self.kind)),
    {
        match self.status_class() {
            StatusClass::BadInput => 400,
            StatusClass::Unauthorized => 401,
            StatusClass::Internal => 500,
        }
    }
}

} // verus!
