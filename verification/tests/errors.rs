use amt_social::error::ApiError;

#[test]
fn each_error_has_its_status_and_text() {
    let cases = [
        (ApiError::UserNotRegistered, 400, "User not registered. Call /api/social/register first."),
        (ApiError::UserUuidRequired, 400, "user_uuid required"),
        (ApiError::UserNotFound, 404, "User not found"),
        (ApiError::PostNotFound, 404, "Post not found"),
        (ApiError::RegistrationFailed, 500, "Registration failed"),
        (ApiError::PostCreationFailed, 500, "Failed to create post"),
        (ApiError::QueryFailed, 500, "Query failed"),
    ];
    for (e, status, text) in cases {
        assert_eq!(e.status(), status);
        assert_eq!(e.message(), text);
    }
}
