//! What can go wrong in a call, and how it is reported.

use vstd::prelude::*;
use vstd::string::*;

verus! {

/// The five families of failure.
#[derive(Debug, Clone, Copy, PartialEq, Eq, Structural)]
pub enum ErrorKind {
    /// The input is malformed; the caller can correct it.
    Validation,
    /// The credentials are wrong, or no valid session was presented.
    Auth,
    /// The input collides with what is stored.
    Conflict,
    /// The record does not exist, or belongs to somebody else.
    NotFound,
    /// The storage or a backend failed.
    Internal,
}

/// A failed call.
#[derive(Debug, Clone, Copy, PartialEq, Eq, Structural)]
pub enum ApiError {
    UsernameTooShort,
    InvalidEmail,
    PasswordTooShort,
    TitleRequired,
    InvalidStatus,
    InvalidCredentials,
    NotAuthenticated,
    EmailTaken,
    UserNotFound,
    RequestNotFound,
    TrustScoreNotFound,
    AlertNotFound,
    HashFailed,
    Storage,
}

impl ApiError {
    /// The family of this failure.
    pub open spec fn kind_spec(&self) -> ErrorKind {
        match self {
            ApiError::UsernameTooShort => ErrorKind::Validation,
            ApiError::InvalidEmail => ErrorKind::Validation,
            ApiError::PasswordTooShort => ErrorKind::Validation,
            ApiError::TitleRequired => ErrorKind::Validation,
            ApiError::InvalidStatus => ErrorKind::Validation,
            ApiError::InvalidCredentials => ErrorKind::Auth,
            ApiError::NotAuthenticated => ErrorKind::Auth,
            ApiError::EmailTaken => ErrorKind::Conflict,
            ApiError::UserNotFound => ErrorKind::NotFound,
            ApiError::RequestNotFound => ErrorKind::NotFound,
            ApiError::TrustScoreNotFound => ErrorKind::NotFound,
            ApiError::AlertNotFound => ErrorKind::NotFound,
            ApiError::HashFailed => ErrorKind::Internal,
            ApiError::Storage => ErrorKind::Internal,
        }
    }

    /// The family of this failure.
    #[verifier::when_used_as_spec(kind_spec)]
    pub fn kind(&self) -> (kind: ErrorKind)
        ensures
            kind == self.kind_spec(),
    {
        match self {
            ApiError::UsernameTooShort
            | ApiError::InvalidEmail
            | ApiError::PasswordTooShort
            | ApiError::TitleRequired
            | ApiError::InvalidStatus => ErrorKind::Validation,
            ApiError::InvalidCredentials | ApiError::NotAuthenticated => ErrorKind::Auth,
            ApiError::EmailTaken => ErrorKind::Conflict,
            ApiError::UserNotFound
            | ApiError::RequestNotFound
            | ApiError::TrustScoreNotFound
            | ApiError::AlertNotFound => ErrorKind::NotFound,
            ApiError::HashFailed | ApiError::Storage => ErrorKind::Internal,
        }
    }

    /// The HTTP status that reports this failure.
    pub open spec fn status_code_spec(&self) -> u16 {
        match self.kind_spec() {
            ErrorKind::Validation => 400,
            ErrorKind::Auth => 401,
            ErrorKind::Conflict => 409,
            ErrorKind::NotFound => 404,
            ErrorKind::Internal => 500,
        }
    }

    /// The HTTP status that reports this failure.
    #[verifier::when_used_as_spec(status_code_spec)]
    pub fn status_code(&self) -> (code: u16)
        ensures
            code == self.status_code_spec(),
    {
        match self.kind() {
            ErrorKind::Validation => 400,
            ErrorKind::Auth => 401,
            ErrorKind::Conflict => 409,
            ErrorKind::NotFound => 404,
            ErrorKind::Internal => 500,
        }
    }

    /// The message that reports this failure.
    pub open spec fn message_spec(&self) -> Seq<char> {
        match self {
            ApiError::UsernameTooShort => "Username must be at least 3 characters"@,
            ApiError::InvalidEmail => "Invalid email format"@,
            ApiError::PasswordTooShort => "Password must be at least 8 characters"@,
            ApiError::TitleRequired => "Title is required"@,
            ApiError::InvalidStatus => "Invalid status. Use: fair, stalled, critical, or completed"@,
            ApiError::InvalidCredentials => "Invalid email or password"@,
            ApiError::NotAuthenticated => "Not authenticated"@,
            ApiError::EmailTaken => "Email already registered"@,
            ApiError::UserNotFound => "User not found"@,
            ApiError::RequestNotFound => "Request not found"@,
            ApiError::TrustScoreNotFound => "No trust score found"@,
            ApiError::AlertNotFound => "Alert not found"@,
            ApiError::HashFailed => "Failed to hash password"@,
            ApiError::Storage => "Storage failure"@,
        }
    }

    /// The message that reports this failure. It never holds credential
    /// material: it is one of fourteen fixed texts.
    pub fn message(&self) -> (message: String)
        ensures
            message@ == self.message_spec(),
    {
        match self {
            ApiError::UsernameTooShort => "Username must be at least 3 characters".to_owned(),
            ApiError::InvalidEmail => "Invalid email format".to_owned(),
            ApiError::PasswordTooShort => "Password must be at least 8 characters".to_owned(),
            ApiError::TitleRequired => "Title is required".to_owned(),
            ApiError::InvalidStatus => {
                "Invalid status. Use: fair, stalled, critical, or completed".to_owned()
            },
            ApiError::InvalidCredentials => "Invalid email or password".to_owned(),
            ApiError::NotAuthenticated => "Not authenticated".to_owned(),
            ApiError::EmailTaken => "Email already registered".to_owned(),
            ApiError::UserNotFound => "User not found".to_owned(),
            ApiError::RequestNotFound => "Request not found".to_owned(),
            ApiError::TrustScoreNotFound => "No trust score found".to_owned(),
            ApiError::AlertNotFound => "Alert not found".to_owned(),
            ApiError::HashFailed => "Failed to hash password".to_owned(),
            ApiError::Storage => "Storage failure".to_owned(),
        }
    }
}

} // verus!
