use chat_backend::errors::AppError;

fn all() -> Vec<AppError> {
    vec![
        AppError::DatabaseError("connection refused".to_string()),
        AppError::AuthError("Missing authorization header".to_string()),
        AppError::InvalidCredentials,
        AppError::UserAlreadyExists,
        AppError::UserNotFound,
        AppError::RoomNotFound,
        AppError::InvalidToken,
        AppError::TokenExpired,
        AppError::PasswordHashError,
        AppError::InternalServerError,
        AppError::ValidationError("Message content cannot be empty".to_string()),
    ]
}

#[test]
fn every_error_has_its_status() {
    let statuses: Vec<u16> = all().iter().map(|e| e.status_code()).collect();
    assert_eq!(statuses, vec![500, 401, 401, 409, 404, 404, 401, 401, 500, 500, 400]);
}

#[test]
fn every_error_has_its_public_message() {
    let messages: Vec<String> = all().iter().map(|e| e.error_message()).collect();
    assert_eq!(
        messages,
        vec![
            "Database error",
            "Missing authorization header",
            "Invalid credentials",
            "User already exists",
            "User not found",
            "Room not found",
            "Invalid token",
            "Token expired",
            "Internal server error",
            "Internal server error",
            "Message content cannot be empty",
        ]
    );
}

#[test]
fn every_error_has_its_description() {
    let descriptions: Vec<String> = all().iter().map(|e| e.to_string()).collect();
    assert_eq!(
        descriptions,
        vec![
            "Database error: connection refused",
            "Authentication error: Missing authorization header",
            "Invalid credentials",
            "User already exists",
            "User not found",
            "Room not found",
            "Invalid token",
            "Token expired",
            "Password hashing error",
            "Internal server error",
            "Validation error: Message content cannot be empty",
        ]
    );
}

#[test]
fn error_response_is_status_and_json_body() {
    let (status, body) = AppError::RoomNotFound.into_response();
    assert_eq!(status, 404);
    assert_eq!(body, "{\"error\":\"Room not found\"}");
    let (status, body) = AppError::ValidationError("bad \"content\"".to_string()).into_response();
    assert_eq!(status, 400);
    assert_eq!(body, "{\"error\":\"bad \\\"content\\\"\"}");
    let (status, body) = AppError::DatabaseError("secret detail".to_string()).into_response();
    assert_eq!(status, 500);
    assert_eq!(body, "{\"error\":\"Database error\"}");
}

#[test]
fn error_body_is_json_with_one_member() {
    for e in all() {
        let message = e.error_message();
        let (_, body) = e.into_response();
        let value: serde_json::Value = serde_json::from_str(&body).unwrap();
        let object = value.as_object().unwrap();
        assert_eq!(object.len(), 1);
        assert_eq!(object.get("error").unwrap().as_str().unwrap(), message);
    }
}
