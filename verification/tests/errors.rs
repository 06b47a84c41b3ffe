use trust_ledger::errors::{ApiError, ErrorKind};
use trust_ledger::models::ApiResponse;

#[test]
fn every_error_has_its_kind_status_and_message() {
    let table = [
        (ApiError::UsernameTooShort, ErrorKind::Validation, 400, "Username must be at least 3 characters"),
        (ApiError::InvalidEmail, ErrorKind::Validation, 400, "Invalid email format"),
        (ApiError::PasswordTooShort, ErrorKind::Validation, 400, "Password must be at least 8 characters"),
        (ApiError::TitleRequired, ErrorKind::Validation, 400, "Title is required"),
        (
            ApiError::InvalidStatus,
            ErrorKind::Validation,
            400,
            "Invalid status. Use: fair, stalled, critical, or completed",
        ),
        (ApiError::InvalidCredentials, ErrorKind::Auth, 401, "Invalid email or password"),
        (ApiError::NotAuthenticated, ErrorKind::Auth, 401, "Not authenticated"),
        (ApiError::EmailTaken, ErrorKind::Conflict, 409, "Email already registered"),
        (ApiError::UserNotFound, ErrorKind::NotFound, 404, "User not found"),
        (ApiError::RequestNotFound, ErrorKind::NotFound, 404, "Request not found"),
        (ApiError::TrustScoreNotFound, ErrorKind::NotFound, 404, "No trust score found"),
        (ApiError::AlertNotFound, ErrorKind::NotFound, 404, "Alert not found"),
        (ApiError::HashFailed, ErrorKind::Internal, 500, "Failed to hash password"),
        (ApiError::Storage, ErrorKind::Internal, 500, "Storage failure"),
    ];
    for (error, kind, status, message) in table {
        assert_eq!(error.kind(), kind);
        assert_eq!(error.status_code(), status);
        assert_eq!(error.message(), message);
    }
}

#[test]
fn envelope_of_a_success() {
    let response = ApiResponse::ok(7u8);
    assert!(response.success);
    assert_eq!(response.data, Some(7));
    assert_eq!(response.error, None);
}

#[test]
fn envelope_of_a_failure() {
    let response: ApiResponse<()> = ApiResponse::err("Not authenticated");
    assert!(!response.success);
    assert_eq!(response.data, None);
    assert_eq!(response.error, Some("Not authenticated".to_string()));
}
