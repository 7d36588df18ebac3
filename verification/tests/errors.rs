use markcollab_backend_filesystem::error::AppError;

#[test]
fn client_errors_keep_their_message() {
    assert_eq!(AppError::BadRequest("b".to_string()).response_parts(), (400, "b".to_string()));
    assert_eq!(AppError::NotFound("n".to_string()).response_parts(), (404, "n".to_string()));
    assert_eq!(AppError::Forbidden("f".to_string()).response_parts(), (403, "f".to_string()));
}

#[test]
fn server_failures_hide_their_description() {
    assert_eq!(
        AppError::Storage("disk".to_string()).response_parts(),
        (500, "Storage operation failed".to_string())
    );
    assert_eq!(
        AppError::Database("pg".to_string()).response_parts(),
        (500, "Database operation failed".to_string())
    );
    assert_eq!(
        AppError::Internal("x".to_string()).response_parts(),
        (500, "Internal server error".to_string())
    );
}

#[test]
fn error_texts() {
    assert_eq!(AppError::BadRequest("b".to_string()).to_text(), "Bad request: b");
    assert_eq!(AppError::NotFound("n".to_string()).to_text(), "Not found: n");
    assert_eq!(AppError::Forbidden("f".to_string()).to_text(), "Forbidden: f");
    assert_eq!(AppError::Database("pg down".to_string()).to_text(), "pg down");
}
