//! Errors of the local control plane and the HTTP status each maps to.
use vstd::prelude::*;
use crate::text::concat3;

verus! {

broadcast use vstd::string::group_string_axioms;

/// Why a control-plane request failed.
#[derive(Debug)]
pub enum ControlPlaneError {
    InstanceNotFound(String),
    GroupNotFound(String),
    PolicyNotFound(String),
    GroupInUse(String),
    ValidationError(String),
    KernelError(String),
    InstanceNotReady(String),
}

/// The kind of a control-plane error, without its detail.
#[derive(Debug, Clone, Copy, PartialEq, Eq, Structural)]
pub enum ErrorKind {
    InstanceNotFound,
    GroupNotFound,
    PolicyNotFound,
    GroupInUse,
    Validation,
    Kernel,
    InstanceNotReady,
}

/// The kind and detail of an error.
pub open spec fn kind_and_detail(e: ControlPlaneError) -> (ErrorKind, Seq<char>) {
    match e {
        ControlPlaneError::InstanceNotFound(s) => (ErrorKind::InstanceNotFound, s@),
        ControlPlaneError::GroupNotFound(s) => (ErrorKind::GroupNotFound, s@),
        ControlPlaneError::PolicyNotFound(s) => (ErrorKind::PolicyNotFound, s@),
        ControlPlaneError::GroupInUse(s) => (ErrorKind::GroupInUse, s@),
        ControlPlaneError::ValidationError(s) => (ErrorKind::Validation, s@),
        ControlPlaneError::KernelError(s) => (ErrorKind::Kernel, s@),
        ControlPlaneError::InstanceNotReady(s) => (ErrorKind::InstanceNotReady, s@),
    }
}

/// The HTTP status of an error: 400 for invalid input, 404 for what is
/// missing, 409 for a group in use, 500 for a kernel failure, 503 for an
/// instance that is not ready.
pub open spec fn status_of(e: ControlPlaneError) -> u16 {
    match e {
        ControlPlaneError::ValidationError(_) => 400,
        ControlPlaneError::InstanceNotFound(_) => 404,
        ControlPlaneError::GroupNotFound(_) => 404,
        ControlPlaneError::PolicyNotFound(_) => 404,
        ControlPlaneError::GroupInUse(_) => 409,
        ControlPlaneError::KernelError(_) => 500,
        ControlPlaneError::InstanceNotReady(_) => 503,
    }
}

/// The text of an error: a fixed prefix per kind, then its detail.
pub open spec fn message_of(e: ControlPlaneError) -> Seq<char> {
    match e {
        ControlPlaneError::InstanceNotFound(s) => "Instance not found: "@ + s@,
        ControlPlaneError::GroupNotFound(s) => "Group not found: "@ + s@,
        ControlPlaneError::PolicyNotFound(s) => "Policy not found: "@ + s@,
        ControlPlaneError::GroupInUse(s) => "Group in use: "@ + s@,
        ControlPlaneError::ValidationError(s) => "Validation error: "@ + s@,
        ControlPlaneError::KernelError(s) => "Kernel error: "@ + s@,
        ControlPlaneError::InstanceNotReady(s) => "Instance not ready: "@ + s@,
    }
}

impl ControlPlaneError {
    /// The HTTP status that answers this error.
    pub fn status_code(&self) -> (r: u16)
        ensures
            r == status_of(*self),
    {
        match self {
            ControlPlaneError::ValidationError(_) => 400,
            ControlPlaneError::InstanceNotFound(_) | ControlPlaneError::GroupNotFound(_)
            | ControlPlaneError::PolicyNotFound(_) => 404,
            ControlPlaneError::GroupInUse(_) => 409,
            ControlPlaneError::KernelError(_) => 500,
            ControlPlaneError::InstanceNotReady(_) => 503,
        }
    }

    /// The text of this error, as it is displayed.
    pub fn message(&self) -> (r: String)
        ensures
            r@ == message_of(*self),
    {
        let r = match self {
            ControlPlaneError::InstanceNotFound(s) => concat3("Instance not found: ", s.as_str(), ""),
            ControlPlaneError::GroupNotFound(s) => concat3("Group not found: ", s.as_str(), ""),
            ControlPlaneError::PolicyNotFound(s) => concat3("Policy not found: ", s.as_str(), ""),
            ControlPlaneError::GroupInUse(s) => concat3("Group in use: ", s.as_str(), ""),
            ControlPlaneError::ValidationError(s) => concat3("Validation error: ", s.as_str(), ""),
            ControlPlaneError::KernelError(s) => concat3("Kernel error: ", s.as_str(), ""),
            ControlPlaneError::InstanceNotReady(s) => concat3("Instance not ready: ", s.as_str(), ""),
        };
        proof {
            reveal_strlit("");
        }
        assert(r@ =~= message_of(*self));
        r
    }
}

} // verus!
