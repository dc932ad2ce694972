//! The errors of the wire contract.

use vstd::prelude::*;
use vstd::string::*;

use crate::text::{concat2, opt_view};

verus! {

/// The stable error codes of the first version of the contract.
#[derive(Debug, Clone, Copy, PartialEq, Eq, Structural)]
pub enum ErrorCode {
    Unauthorized,
    BadRequest,
    MissingField,
    InvalidDomain,
    IdempotencyConflict,
    NotFound,
    PayloadTooLarge,
    QueueFull,
    QueryTimeout,
    InternalError,
    NotImplemented,
    ShutdownInProgress,
    RedactionRequired,
    UnresolvedEvidenceTarget,
    LocalPathIdentityUnsupported,
    AmbiguousCommitPrefix,
    MissingEvidenceHandle,
    PatchStatusPinned,
    InlinePayloadExceedsCeiling,
}

/// The wire name of an error code.
pub open spec fn code_name(code: ErrorCode) -> Seq<char> {
    match code {
        ErrorCode::Unauthorized => "unauthorized"@,
        ErrorCode::BadRequest => "bad_request"@,
        ErrorCode::MissingField => "missing_field"@,
        ErrorCode::InvalidDomain => "invalid_domain"@,
        ErrorCode::IdempotencyConflict => "idempotency_conflict"@,
        ErrorCode::NotFound => "not_found"@,
        ErrorCode::PayloadTooLarge => "payload_too_large"@,
        ErrorCode::QueueFull => "queue_full"@,
        ErrorCode::QueryTimeout => "query_timeout"@,
        ErrorCode::InternalError => "internal_error"@,
        ErrorCode::NotImplemented => "not_implemented"@,
        ErrorCode::ShutdownInProgress => "shutdown_in_progress"@,
        ErrorCode::RedactionRequired => "redaction_required"@,
        ErrorCode::UnresolvedEvidenceTarget => "unresolved_evidence_target"@,
        ErrorCode::LocalPathIdentityUnsupported => "local_path_identity_unsupported"@,
        ErrorCode::AmbiguousCommitPrefix => "ambiguous_commit_prefix"@,
        ErrorCode::MissingEvidenceHandle => "missing_evidence_handle"@,
        ErrorCode::PatchStatusPinned => "patch_status_pinned"@,
        ErrorCode::InlinePayloadExceedsCeiling => "inline_payload_exceeds_ceiling"@,
    }
}

/// The HTTP status of an error code.
pub open spec fn code_status(code: ErrorCode) -> u16 {
    match code {
        ErrorCode::Unauthorized => 401,
        ErrorCode::BadRequest => 400,
        ErrorCode::MissingField => 400,
        ErrorCode::InvalidDomain => 400,
        ErrorCode::IdempotencyConflict => 409,
        ErrorCode::NotFound => 404,
        ErrorCode::PayloadTooLarge => 413,
        ErrorCode::QueueFull => 429,
        ErrorCode::QueryTimeout => 408,
        ErrorCode::InternalError => 500,
        ErrorCode::NotImplemented => 501,
        ErrorCode::ShutdownInProgress => 503,
        ErrorCode::RedactionRequired => 422,
        ErrorCode::UnresolvedEvidenceTarget => 422,
        ErrorCode::LocalPathIdentityUnsupported => 422,
        ErrorCode::AmbiguousCommitPrefix => 400,
        ErrorCode::MissingEvidenceHandle => 422,
        ErrorCode::PatchStatusPinned => 422,
        ErrorCode::InlinePayloadExceedsCeiling => 400,
    }
}

impl ErrorCode {
    /// The wire name.
    pub fn as_str(self) -> (r: &'static str)
        ensures
            r@ == code_name(self),
    {
        match self {
            ErrorCode::Unauthorized => "unauthorized",
            ErrorCode::BadRequest => "bad_request",
            ErrorCode::MissingField => "missing_field",
            ErrorCode::InvalidDomain => "invalid_domain",
            ErrorCode::IdempotencyConflict => "idempotency_conflict",
            ErrorCode::NotFound => "not_found",
            ErrorCode::PayloadTooLarge => "payload_too_large",
            ErrorCode::QueueFull => "queue_full",
            ErrorCode::QueryTimeout => "query_timeout",
            ErrorCode::InternalError => "internal_error",
            ErrorCode::NotImplemented => "not_implemented",
            ErrorCode::ShutdownInProgress => "shutdown_in_progress",
            ErrorCode::RedactionRequired => "redaction_required",
            ErrorCode::UnresolvedEvidenceTarget => "unresolved_evidence_target",
            ErrorCode::LocalPathIdentityUnsupported => "local_path_identity_unsupported",
            ErrorCode::AmbiguousCommitPrefix => "ambiguous_commit_prefix",
            ErrorCode::MissingEvidenceHandle => "missing_evidence_handle",
            ErrorCode::PatchStatusPinned => "patch_status_pinned",
            ErrorCode::InlinePayloadExceedsCeiling => "inline_payload_exceeds_ceiling",
        }
    }

    /// The HTTP status.
    pub fn http_status(self) -> (r: u16)
        ensures
            r == code_status(self),
    {
        match self {
            ErrorCode::Unauthorized => 401,
            ErrorCode::BadRequest => 400,
            ErrorCode::MissingField => 400,
            ErrorCode::InvalidDomain => 400,
            ErrorCode::IdempotencyConflict => 409,
            ErrorCode::NotFound => 404,
            ErrorCode::PayloadTooLarge => 413,
            ErrorCode::QueueFull => 429,
            ErrorCode::QueryTimeout => 408,
            ErrorCode::InternalError => 500,
            ErrorCode::NotImplemented => 501,
            ErrorCode::ShutdownInProgress => 503,
            ErrorCode::RedactionRequired => 422,
            ErrorCode::UnresolvedEvidenceTarget => 422,
            ErrorCode::LocalPathIdentityUnsupported => 422,
            ErrorCode::AmbiguousCommitPrefix => 400,
            ErrorCode::MissingEvidenceHandle => 422,
            ErrorCode::PatchStatusPinned => 422,
            ErrorCode::InlinePayloadExceedsCeiling => 400,
        }
    }
}

/// Every error code is answered with a status of a client or a server error.
pub proof fn law_errors_have_error_status(code: ErrorCode)
    ensures
        400 <= code_status(code) < 600,
{
}

/// An error of the contract.
#[derive(Debug, Clone, PartialEq, Eq)]
pub struct ApiError {
    pub status: u16,
    pub code: ErrorCode,
    pub message: String,
    pub field: Option<String>,
    pub retry_after_ms: Option<u64>,
    pub partial_result: Option<bool>,
}

/// The view of an [`ApiError`].
pub struct ErrorView {
    pub status: u16,
    pub code: ErrorCode,
    pub message: Seq<char>,
    pub field: Option<Seq<char>>,
    pub retry_after_ms: Option<u64>,
    pub partial_result: Option<bool>,
}

impl View for ApiError {
    type V = ErrorView;

    open spec fn view(&self) -> ErrorView {
        ErrorView {
            status: self.status,
            code: self.code,
            message: self.message@,
            field: opt_view(self.field),
            retry_after_ms: self.retry_after_ms,
            partial_result: self.partial_result,
        }
    }
}

/// An error with a code and a message and nothing else.
pub open spec fn plain_error(code: ErrorCode, message: Seq<char>) -> ErrorView {
    ErrorView {
        status: code_status(code),
        code,
        message,
        field: None,
        retry_after_ms: None,
        partial_result: None,
    }
}

/// A bad request.
pub open spec fn bad(message: Seq<char>) -> ErrorView {
    plain_error(ErrorCode::BadRequest, message)
}

/// A missing field.
pub open spec fn missing(field: Seq<char>) -> ErrorView {
    ErrorView {
        status: 400,
        code: ErrorCode::MissingField,
        message: "required field is missing: "@ + field,
        field: Some(field),
        retry_after_ms: None,
        partial_result: None,
    }
}

/// The error of a result, if it is one.
pub open spec fn error_of<T>(r: Result<T, ApiError>) -> Option<ErrorView> {
    match r {
        Ok(_) => None,
        Err(e) => Some(e@),
    }
}

impl ApiError {
    /// An error with a code and a message.
    pub fn new(code: ErrorCode, message: String) -> (r: Self)
        ensures
            r@ == plain_error(code, message@),
    {
        ApiError {
            status: code.http_status(),
            code,
            message,
            field: None,
            retry_after_ms: None,
            partial_result: None,
        }
    }

    /// A required field is missing.
    pub fn missing_field(field: &str) -> (r: Self)
        ensures
            r@ == missing(field@),
    {
        ApiError {
            status: 400,
            code: ErrorCode::MissingField,
            message: concat2("required field is missing: ", field),
            field: Some(field.to_owned()),
            retry_after_ms: None,
            partial_result: None,
        }
    }

    /// The bearer token is missing or wrong.
    pub fn unauthorized() -> (r: Self)
        ensures
            r@ == plain_error(ErrorCode::Unauthorized, "missing or invalid bearer token"@),
    {
        ApiError::new(ErrorCode::Unauthorized, "missing or invalid bearer token".to_owned())
    }

    /// The request is malformed.
    pub fn bad_request(message: String) -> (r: Self)
        ensures
            r@ == bad(message@),
    {
        ApiError::new(ErrorCode::BadRequest, message)
    }

    /// A field of the request is malformed.
    pub fn bad_request_field(message: &str, field: &str) -> (r: Self)
        ensures
            r@ == (ErrorView { field: Some(field@), ..bad(message@) }),
    {
        ApiError {
            status: 400,
            code: ErrorCode::BadRequest,
            message: message.to_owned(),
            field: Some(field.to_owned()),
            retry_after_ms: None,
            partial_result: None,
        }
    }

    /// The domain is not one of the contract.
    pub fn invalid_domain() -> (r: Self)
        ensures
            r@ == plain_error(ErrorCode::InvalidDomain, invalid_domain_text()),
    {
        ApiError::new(
            ErrorCode::InvalidDomain,
            "domain must be \"codegraph\", \"agent_memory\", \"verification\", or \"artifact\"".to_owned(),
        )
    }

    /// The named thing does not exist.
    pub fn not_found(message: String) -> (r: Self)
        ensures
            r@ == plain_error(ErrorCode::NotFound, message@),
    {
        ApiError::new(ErrorCode::NotFound, message)
    }

    /// The request conflicts with an earlier one.
    pub fn conflict(message: String) -> (r: Self)
        ensures
            r@ == plain_error(ErrorCode::IdempotencyConflict, message@),
    {
        ApiError::new(ErrorCode::IdempotencyConflict, message)
    }

    /// The body is too large.
    pub fn payload_too_large() -> (r: Self)
        ensures
            r@ == plain_error(ErrorCode::PayloadTooLarge, "request body exceeds maximum size"@),
    {
        ApiError::new(
            ErrorCode::PayloadTooLarge,
            "request body exceeds maximum size".to_owned(),
        )
    }

    /// The write queue is full.
    pub fn overloaded() -> (r: Self)
        ensures
            r@ == (ErrorView {
                retry_after_ms: Some(500),
                ..plain_error(ErrorCode::QueueFull, "write queue is full"@)
            }),
    {
        ApiError {
            status: 429,
            code: ErrorCode::QueueFull,
            message: "write queue is full".to_owned(),
            field: None,
            retry_after_ms: Some(500),
            partial_result: None,
        }
    }

    /// The daemon is shutting down.
    pub fn shutdown_in_progress() -> (r: Self)
        ensures
            r@ == (ErrorView {
                retry_after_ms: Some(2000),
                ..plain_error(ErrorCode::ShutdownInProgress, "daemon is shutting down"@)
            }),
    {
        ApiError {
            status: 503,
            code: ErrorCode::ShutdownInProgress,
            message: "daemon is shutting down".to_owned(),
            field: None,
            retry_after_ms: Some(2000),
            partial_result: None,
        }
    }

    /// The budget of a query has run out.
    pub fn query_timeout() -> (r: Self)
        ensures
            r@ == (ErrorView {
                partial_result: Some(false),
                ..plain_error(ErrorCode::QueryTimeout, "query budget expired"@)
            }),
    {
        ApiError {
            status: 408,
            code: ErrorCode::QueryTimeout,
            message: "query budget expired".to_owned(),
            field: None,
            retry_after_ms: None,
            partial_result: Some(false),
        }
    }

    /// Something failed that is not the fault of the client.
    pub fn internal(message: String) -> (r: Self)
        ensures
            r@ == plain_error(ErrorCode::InternalError, message@),
    {
        ApiError::new(ErrorCode::InternalError, message)
    }

    /// An inline payload is too long.
    pub fn inline_payload_exceeds_ceiling(message: String) -> (r: Self)
        ensures
            r@ == plain_error(ErrorCode::InlinePayloadExceedsCeiling, message@),
    {
        ApiError::new(ErrorCode::InlinePayloadExceedsCeiling, message)
    }

    /// A patch status may not be rewritten.
    pub fn patch_status_pinned(message: String) -> (r: Self)
        ensures
            r@ == plain_error(ErrorCode::PatchStatusPinned, message@),
    {
        ApiError::new(ErrorCode::PatchStatusPinned, message)
    }
}

/// The message of an invalid domain.
pub open spec fn invalid_domain_text() -> Seq<char> {
    "domain must be \"codegraph\", \"agent_memory\", \"verification\", or \"artifact\""@
}

} // verus!
