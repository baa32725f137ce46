//! Error taxonomy and response mapping.
//!
//! Every failure the pipeline can produce is mapped into one stable outward
//! shape: a category (the status class an HTTP boundary would send) and an
//! `ErrorResponse` of `{message, cause?}`. Authentication failures of every
//! kind — absent, malformed, wrong or expired credentials, and an unknown
//! identifier just as much as a wrong secret — map to one indistinguishable
//! response, so that nothing leaks which part failed. Internal faults never
//! expose detail.

use vstd::prelude::*;

verus! {

use vstd::string::{StrSliceExecFns, StringExecFns};
use crate::token::TokenError;

/// The status class of an outward error.
#[derive(PartialEq, Eq, Structural, Clone, Copy, Debug)]
pub enum ErrorCategory {
    /// The request carried no acceptable credential.
    Unauthenticated,
    /// The caller is authenticated but may not touch the target.
    Unauthorized,
    /// The client's input was malformed or semantically invalid.
    BadRequest,
    /// A fault of the service, never the client's to fix.
    Internal,
}

/// The outward error body: a message, and a cause only where the taxonomy
/// allows one.
pub struct ErrorResponse {
    /// Detail for the client, only where exposing it leaks nothing.
    pub cause: Option<String>,
    /// The stable public message.
    pub message: String,
}

impl Default for ErrorResponse {
    /// The generic internal-error body: no cause, a fixed message.
    fn default() -> (r: ErrorResponse)
        ensures
            r.cause is None,
            r.message@ == "An internal server error occurred"@,
    {
        ErrorResponse { cause: None, message: "An internal server error occurred".to_owned() }
    }
}

/// Why signup was refused.
#[derive(Debug, PartialEq, Eq)]
pub enum SignupError {
    /// The payload lacks a required field; structural, not semantic.
    InvalidPayload,
    /// A field is present but breaks its rule.
    Validation {
        /// The field that broke its rule.
        field: String,
        /// The bound it broke.
        reason: String,
    },
    /// The identifier is already taken.
    UserAlreadyExists(String),
    /// Hashing the secret failed; a service fault.
    PasswordHash,
}

/// Why an update was refused.
#[derive(Debug, PartialEq, Eq)]
pub enum UpdateError {
    /// The principal may not touch the target record.
    Forbidden {
        /// Who asked.
        requester: String,
        /// Whose record they asked for.
        requested: String,
    },
    /// A field is present but breaks its rule.
    Validation {
        /// The field that broke its rule.
        field: String,
        /// The bound it broke.
        reason: String,
    },
    /// No record with the target identifier exists.
    NotFound(String),
}

/// Why a sign-in or an authenticated request was rejected.
#[derive(Debug, PartialEq, Eq)]
pub enum AuthError {
    /// No credential, an unreadable one, an unknown identifier or a wrong
    /// secret: one variant, so the outcomes are indistinguishable.
    InvalidCredentials,
    /// A bearer token that failed verification; equally uninformative
    /// outward.
    InvalidToken(TokenError),
    /// A stored hash string could not be read: corruption, a service fault.
    MalformedStoredHash,
    /// The token backend failed; a service fault.
    Signing,
}

/// The response every authentication failure maps to: the single
/// indistinguishable rejection.
pub fn auth_failed_response() -> (r: ErrorResponse)
    ensures
        r.cause is None,
        r.message@ == "Authentication Failed"@,
{
    ErrorResponse { cause: None, message: "Authentication Failed".to_owned() }
}

/// Maps an authentication failure outward. Every client-caused failure —
/// missing, malformed, unknown or wrong credentials, bad or expired tokens —
/// yields `Unauthenticated` and the one fixed body; service faults yield
/// `Internal` and the generic body. Nothing of the failure's kind leaks.
pub fn auth_error_response(e: &AuthError) -> (r: (ErrorCategory, ErrorResponse))
    ensures
        (e matches AuthError::InvalidCredentials || (e matches AuthError::InvalidToken(t) && t
            != TokenError::Signing)) ==> (r.0 == ErrorCategory::Unauthenticated && r.1.cause
            is None && r.1.message@ == "Authentication Failed"@),
        (e matches AuthError::MalformedStoredHash || e matches AuthError::Signing || (e
            matches AuthError::InvalidToken(t) && t == TokenError::Signing)) ==> (r.0
            == ErrorCategory::Internal && r.1.cause is None && r.1.message@
            == "An internal server error occurred"@),
{
    match e {
        AuthError::InvalidCredentials => (ErrorCategory::Unauthenticated, auth_failed_response()),
        AuthError::InvalidToken(t) => {
            if let TokenError::Signing = t {
                (ErrorCategory::Internal, ErrorResponse::default())
            } else {
                (ErrorCategory::Unauthenticated, auth_failed_response())
            }
        },
        AuthError::MalformedStoredHash => (ErrorCategory::Internal, ErrorResponse::default()),
        AuthError::Signing => (ErrorCategory::Internal, ErrorResponse::default()),
    }
}

/// Maps a failed single-record read outward: an unknown key is the client's
/// mistake, reported tersely.
pub fn get_one_error_response(e: &crate::actions::GetOneError) -> (r: (
    ErrorCategory,
    ErrorResponse,
))
    ensures
        e matches crate::actions::GetOneError::NotFound(_) ==> (r.0 == ErrorCategory::BadRequest
            && r.1.cause is None && r.1.message@ == "No User found"@),
{
    match e {
        crate::actions::GetOneError::NotFound(_) => (
            ErrorCategory::BadRequest,
            ErrorResponse { cause: None, message: "No User found".to_owned() },
        ),
    }
}

/// Maps a failed account deletion outward: the target was gone already; the
/// message stays terse and names no identifier.
pub fn delete_error_response(e: &crate::actions::DeleteError) -> (r: (
    ErrorCategory,
    ErrorResponse,
))
    ensures
        e matches crate::actions::DeleteError::NotFound(_) ==> (r.0 == ErrorCategory::BadRequest
            && r.1.cause is None && r.1.message@ == "Failed to delete the account"@),
{
    match e {
        crate::actions::DeleteError::NotFound(_) => (
            ErrorCategory::BadRequest,
            ErrorResponse { cause: None, message: "Failed to delete the account".to_owned() },
        ),
    }
}

/// Maps a signup failure outward: always the message `Account creation
/// failed`; the cause names what the client can fix, and nothing when the
/// fault is internal.
pub fn signup_error_response(e: &SignupError) -> (r: (ErrorCategory, ErrorResponse))
    ensures
        r.1.message@ == "Account creation failed"@,
        e matches SignupError::InvalidPayload ==> (r.0 == ErrorCategory::BadRequest && (r.1.cause
            matches Some(c) && c@ == "required user_id and password"@)),
        e matches SignupError::UserAlreadyExists(_) ==> (r.0 == ErrorCategory::BadRequest && (
        r.1.cause matches Some(c) && c@ == "already same user_id is used"@)),
        e matches SignupError::Validation { field, reason } ==> (r.0 == ErrorCategory::BadRequest
            && (r.1.cause matches Some(c) && c@ == "Submission for field "@ + field@
            + " is invalid: "@ + reason@)),
        e matches SignupError::PasswordHash ==> (r.0 == ErrorCategory::Internal && r.1.cause
            is None),
{
    let message = "Account creation failed".to_owned();
    match e {
        SignupError::InvalidPayload => (
            ErrorCategory::BadRequest,
            ErrorResponse {
                cause: Some("required user_id and password".to_owned()),
                message,
            },
        ),
        SignupError::UserAlreadyExists(_) => (
            ErrorCategory::BadRequest,
            ErrorResponse {
                cause: Some("already same user_id is used".to_owned()),
                message,
            },
        ),
        SignupError::Validation { field, reason } => {
            let mut c = "Submission for field ".to_owned();
            c.append(field.as_str());
            c.append(" is invalid: ");
            c.append(reason.as_str());
            (ErrorCategory::BadRequest, ErrorResponse { cause: Some(c), message })
        },
        SignupError::PasswordHash => (
            ErrorCategory::Internal,
            ErrorResponse { cause: None, message },
        ),
    }
}

/// Maps an update failure outward: a forbidden update names both identities
/// in its cause; a validation failure names field and bound; an unknown
/// target stays terse.
pub fn update_error_response(e: &UpdateError) -> (r: (ErrorCategory, ErrorResponse))
    ensures
        e matches UpdateError::Forbidden { requester, requested } ==> (r.0
            == ErrorCategory::Unauthorized && r.1.message@ == "No Permission for Update"@ && (
        r.1.cause matches Some(c) && c@ == "A user with the id '"@ + requester@
            + "' does not have permission to update user '"@ + requested@ + "'"@)),
        e matches UpdateError::Validation { field, reason } ==> (r.0 == ErrorCategory::BadRequest
            && r.1.message@ == "Failed to retrieve user information"@ && (r.1.cause matches Some(
            c,
        ) && c@ == "Value for field '"@ + field@ + "' is invalid: '"@ + reason@ + "'"@)),
        e matches UpdateError::NotFound(_) ==> (r.0 == ErrorCategory::BadRequest && r.1.message@
            == "Failed to retrieve user information"@ && r.1.cause is None),
{
    match e {
        UpdateError::Forbidden { requester, requested } => {
            let mut c = "A user with the id '".to_owned();
            c.append(requester.as_str());
            c.append("' does not have permission to update user '");
            c.append(requested.as_str());
            c.append("'");
            (
                ErrorCategory::Unauthorized,
                ErrorResponse { cause: Some(c), message: "No Permission for Update".to_owned() },
            )
        },
        UpdateError::Validation { field, reason } => {
            let mut c = "Value for field '".to_owned();
            c.append(field.as_str());
            c.append("' is invalid: '");
            c.append(reason.as_str());
            c.append("'");
            (
                ErrorCategory::BadRequest,
                ErrorResponse {
                    cause: Some(c),
                    message: "Failed to retrieve user information".to_owned(),
                },
            )
        },
        UpdateError::NotFound(_) => (
            ErrorCategory::BadRequest,
            ErrorResponse {
                cause: None,
                message: "Failed to retrieve user information".to_owned(),
            },
        ),
    }
}

} // verus!
