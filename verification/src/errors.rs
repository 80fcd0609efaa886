//! Engine and native-host errors, their stable codes and their messages.
use vstd::prelude::*;

use crate::text::{append_str, string_of};

verus! {

/// Stable machine-readable engine error category.
#[derive(Clone, Copy, Debug, PartialEq, Eq)]
pub enum ErrorCode {
    InvalidInput,
    CapabilityUnavailable,
    BackendFailure,
    Cancelled,
    DeadlineExceeded,
    Closed,
    Internal,
}

/// Error returned by an engine operation.
#[derive(Debug, PartialEq, Eq)]
pub enum EngineError {
    InvalidInput { message: String },
    CapabilityUnavailable { capability: String },
    BackendFailure { backend: String, message: String },
    Cancelled,
    DeadlineExceeded,
    Closed,
    Internal { message: String },
}

/// The mathematical form of [`EngineError`].
pub enum EngineErrorModel {
    InvalidInput { message: Seq<char> },
    CapabilityUnavailable { capability: Seq<char> },
    BackendFailure { backend: Seq<char>, message: Seq<char> },
    Cancelled,
    DeadlineExceeded,
    Closed,
    Internal { message: Seq<char> },
}

impl View for EngineError {
    type V = EngineErrorModel;

    open spec fn view(&self) -> EngineErrorModel {
        match self {
            EngineError::InvalidInput { message } => EngineErrorModel::InvalidInput { message: message@ },
            EngineError::CapabilityUnavailable { capability } => EngineErrorModel::CapabilityUnavailable { capability: capability@ },
            EngineError::BackendFailure { backend, message } => EngineErrorModel::BackendFailure { backend: backend@, message: message@ },
            EngineError::Cancelled => EngineErrorModel::Cancelled,
            EngineError::DeadlineExceeded => EngineErrorModel::DeadlineExceeded,
            EngineError::Closed => EngineErrorModel::Closed,
            EngineError::Internal { message } => EngineErrorModel::Internal { message: message@ },
        }
    }
}

/// The code of an engine error.
pub open spec fn engine_error_code(e: EngineErrorModel) -> ErrorCode {
    match e {
        EngineErrorModel::InvalidInput { .. } => ErrorCode::InvalidInput,
        EngineErrorModel::CapabilityUnavailable { .. } => ErrorCode::CapabilityUnavailable,
        EngineErrorModel::BackendFailure { .. } => ErrorCode::BackendFailure,
        EngineErrorModel::Cancelled => ErrorCode::Cancelled,
        EngineErrorModel::DeadlineExceeded => ErrorCode::DeadlineExceeded,
        EngineErrorModel::Closed => ErrorCode::Closed,
        EngineErrorModel::Internal { .. } => ErrorCode::Internal,
    }
}

/// The human-readable message of an engine error.
pub open spec fn engine_error_message(e: EngineErrorModel) -> Seq<char> {
    match e {
        EngineErrorModel::InvalidInput { message } => "invalid input: "@ + message,
        EngineErrorModel::CapabilityUnavailable { capability } => "capability unavailable: "@ + capability,
        EngineErrorModel::BackendFailure { backend, message } => backend + " failed: "@ + message,
        EngineErrorModel::Cancelled => "request cancelled"@,
        EngineErrorModel::DeadlineExceeded => "request deadline exceeded"@,
        EngineErrorModel::Closed => "service is closed"@,
        EngineErrorModel::Internal { message } => "internal error: "@ + message,
    }
}

impl EngineError {
    /// An invalid-input error with the given message.
    pub fn invalid_input(message: &str) -> (e: EngineError)
        ensures
            e@ == (EngineErrorModel::InvalidInput { message: message@ }),
    {
        EngineError::InvalidInput { message: message.to_owned() }
    }

    /// A failure of the named backend.
    pub fn backend(backend: &str, message: &str) -> (e: EngineError)
        ensures
            e@ == (EngineErrorModel::BackendFailure { backend: backend@, message: message@ }),
    {
        EngineError::BackendFailure { backend: backend.to_owned(), message: message.to_owned() }
    }

    /// The stable category of this error.
    pub fn code(&self) -> (c: ErrorCode)
        ensures
            c == engine_error_code(self@),
    {
        match self {
            EngineError::InvalidInput { .. } => ErrorCode::InvalidInput,
            EngineError::CapabilityUnavailable { .. } => ErrorCode::CapabilityUnavailable,
            EngineError::BackendFailure { .. } => ErrorCode::BackendFailure,
            EngineError::Cancelled => ErrorCode::Cancelled,
            EngineError::DeadlineExceeded => ErrorCode::DeadlineExceeded,
            EngineError::Closed => ErrorCode::Closed,
            EngineError::Internal { .. } => ErrorCode::Internal,
        }
    }

    /// The human-readable message of this error.
    pub fn message(&self) -> (s: String)
        ensures
            s@ == engine_error_message(self@),
    {
        let mut out: Vec<char> = Vec::new();
        match self {
            EngineError::InvalidInput { message } => {
                append_str(&mut out, "invalid input: ");
                append_str(&mut out, message.as_str());
            },
            EngineError::CapabilityUnavailable { capability } => {
                append_str(&mut out, "capability unavailable: ");
                append_str(&mut out, capability.as_str());
            },
            EngineError::BackendFailure { backend, message } => {
                append_str(&mut out, backend.as_str());
                append_str(&mut out, " failed: ");
                append_str(&mut out, message.as_str());
            },
            EngineError::Cancelled => {
                append_str(&mut out, "request cancelled");
            },
            EngineError::DeadlineExceeded => {
                append_str(&mut out, "request deadline exceeded");
            },
            EngineError::Closed => {
                append_str(&mut out, "service is closed");
            },
            EngineError::Internal { message } => {
                append_str(&mut out, "internal error: ");
                append_str(&mut out, message.as_str());
            },
        }
        assert(out@ =~= engine_error_message(self@));
        string_of(&out)
    }
}

/// Failure produced by native filesystem scanning or watching.
#[derive(Debug, PartialEq, Eq)]
pub enum HostError {
    InvalidInput { message: String },
    BackendFailure { backend: String, message: String },
    Cancelled,
    DeadlineExceeded,
    Closed,
    Internal { message: String },
}

/// The mathematical form of [`HostError`].
pub enum HostErrorModel {
    InvalidInput { message: Seq<char> },
    BackendFailure { backend: Seq<char>, message: Seq<char> },
    Cancelled,
    DeadlineExceeded,
    Closed,
    Internal { message: Seq<char> },
}

impl View for HostError {
    type V = HostErrorModel;

    open spec fn view(&self) -> HostErrorModel {
        match self {
            HostError::InvalidInput { message } => HostErrorModel::InvalidInput { message: message@ },
            HostError::BackendFailure { backend, message } => HostErrorModel::BackendFailure { backend: backend@, message: message@ },
            HostError::Cancelled => HostErrorModel::Cancelled,
            HostError::DeadlineExceeded => HostErrorModel::DeadlineExceeded,
            HostError::Closed => HostErrorModel::Closed,
            HostError::Internal { message } => HostErrorModel::Internal { message: message@ },
        }
    }
}

/// The human-readable message of a host error.
pub open spec fn host_error_message(e: HostErrorModel) -> Seq<char> {
    match e {
        HostErrorModel::InvalidInput { message } => "invalid input: "@ + message,
        HostErrorModel::BackendFailure { backend, message } => backend + " failed: "@ + message,
        HostErrorModel::Cancelled => "operation cancelled"@,
        HostErrorModel::DeadlineExceeded => "operation deadline exceeded"@,
        HostErrorModel::Closed => "native host resource is closed"@,
        HostErrorModel::Internal { message } => "internal error: "@ + message,
    }
}

impl HostError {
    /// An invalid-input error with the given message.
    pub fn invalid_input(message: &str) -> (e: HostError)
        ensures
            e@ == (HostErrorModel::InvalidInput { message: message@ }),
    {
        HostError::InvalidInput { message: message.to_owned() }
    }

    /// A failure of the named backend.
    pub fn backend(backend: &str, message: &str) -> (e: HostError)
        ensures
            e@ == (HostErrorModel::BackendFailure { backend: backend@, message: message@ }),
    {
        HostError::BackendFailure { backend: backend.to_owned(), message: message.to_owned() }
    }

    /// The human-readable message of this error.
    pub fn message(&self) -> (s: String)
        ensures
            s@ == host_error_message(self@),
    {
        let mut out: Vec<char> = Vec::new();
        match self {
            HostError::InvalidInput { message } => {
                append_str(&mut out, "invalid input: ");
                append_str(&mut out, message.as_str());
            },
            HostError::BackendFailure { backend, message } => {
                append_str(&mut out, backend.as_str());
                append_str(&mut out, " failed: ");
                append_str(&mut out, message.as_str());
            },
            HostError::Cancelled => {
                append_str(&mut out, "operation cancelled");
            },
            HostError::DeadlineExceeded => {
                append_str(&mut out, "operation deadline exceeded");
            },
            HostError::Closed => {
                append_str(&mut out, "native host resource is closed");
            },
            HostError::Internal { message } => {
                append_str(&mut out, "internal error: ");
                append_str(&mut out, message.as_str());
            },
        }
        assert(out@ =~= host_error_message(self@));
        string_of(&out)
    }
}

} // verus!
