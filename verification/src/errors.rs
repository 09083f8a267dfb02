//! The errors that requests end in, and how each is reported.

use crate::json::{json_string, quote};
use vstd::prelude::*;
use vstd::string::StringExecFns;

verus! {

/// Why a request failed.
#[derive(Clone, Debug, PartialEq)]
pub enum AppError {
    /// The persistent store failed; carries the store's own description.
    DatabaseError(String),
    /// The request carries no usable credential; carries the reason.
    AuthError(String),
    /// Email or password is wrong.
    InvalidCredentials,
    /// The email is already registered.
    UserAlreadyExists,
    UserNotFound,
    RoomNotFound,
    /// The token cannot be decoded or verified.
    InvalidToken,
    /// The token's lifetime is over.
    TokenExpired,
    /// The password could not be hashed, or a stored hash is unreadable.
    PasswordHashError,
    InternalServerError,
    /// The request's content is not acceptable; carries the reason.
    ValidationError(String),
}

pub const STATUS_BAD_REQUEST: u16 = 400;

pub const STATUS_UNAUTHORIZED: u16 = 401;

pub const STATUS_NOT_FOUND: u16 = 404;

pub const STATUS_CONFLICT: u16 = 409;

pub const STATUS_INTERNAL_SERVER_ERROR: u16 = 500;

impl AppError {
    /// The HTTP status that reports this error.
    pub open spec fn status(self) -> u16 {
        match self {
            AppError::DatabaseError(_) => STATUS_INTERNAL_SERVER_ERROR,
            AppError::AuthError(_) => STATUS_UNAUTHORIZED,
            AppError::InvalidCredentials => STATUS_UNAUTHORIZED,
            AppError::UserAlreadyExists => STATUS_CONFLICT,
            AppError::UserNotFound => STATUS_NOT_FOUND,
            AppError::RoomNotFound => STATUS_NOT_FOUND,
            AppError::InvalidToken => STATUS_UNAUTHORIZED,
            AppError::TokenExpired => STATUS_UNAUTHORIZED,
            AppError::PasswordHashError => STATUS_INTERNAL_SERVER_ERROR,
            AppError::InternalServerError => STATUS_INTERNAL_SERVER_ERROR,
            AppError::ValidationError(_) => STATUS_BAD_REQUEST,
        }
    }

    /// The message that the client is shown. Failures inside the server say
    /// nothing of their cause.
    pub open spec fn public_message(self) -> Seq<char> {
        match self {
            AppError::DatabaseError(_) => "Database error"@,
            AppError::AuthError(reason) => reason@,
            AppError::InvalidCredentials => "Invalid credentials"@,
            AppError::UserAlreadyExists => "User already exists"@,
            AppError::UserNotFound => "User not found"@,
            AppError::RoomNotFound => "Room not found"@,
            AppError::InvalidToken => "Invalid token"@,
            AppError::TokenExpired => "Token expired"@,
            AppError::PasswordHashError => "Internal server error"@,
            AppError::InternalServerError => "Internal server error"@,
            AppError::ValidationError(reason) => reason@,
        }
    }

    /// The description of this error for logs.
    pub open spec fn description(self) -> Seq<char> {
        match self {
            AppError::DatabaseError(cause) => "Database error: "@ + cause@,
            AppError::AuthError(reason) => "Authentication error: "@ + reason@,
            AppError::InvalidCredentials => "Invalid credentials"@,
            AppError::UserAlreadyExists => "User already exists"@,
            AppError::UserNotFound => "User not found"@,
            AppError::RoomNotFound => "Room not found"@,
            AppError::InvalidToken => "Invalid token"@,
            AppError::TokenExpired => "Token expired"@,
            AppError::PasswordHashError => "Password hashing error"@,
            AppError::InternalServerError => "Internal server error"@,
            AppError::ValidationError(reason) => "Validation error: "@ + reason@,
        }
    }

    /// The body of the response that reports this error: a JSON object with
    /// the one member `error`.
    pub open spec fn body(self) -> Seq<char> {
        "{\"error\":"@ + json_string(self.public_message()) + "}"@
    }

    /// The HTTP status that reports this error.
    pub fn status_code(&self) -> (r: u16)
        ensures
            r == self.status(),
    {
        match self {
            AppError::DatabaseError(_) => STATUS_INTERNAL_SERVER_ERROR,
            AppError::AuthError(_) => STATUS_UNAUTHORIZED,
            AppError::InvalidCredentials => STATUS_UNAUTHORIZED,
            AppError::UserAlreadyExists => STATUS_CONFLICT,
            AppError::UserNotFound => STATUS_NOT_FOUND,
            AppError::RoomNotFound => STATUS_NOT_FOUND,
            AppError::InvalidToken => STATUS_UNAUTHORIZED,
            AppError::TokenExpired => STATUS_UNAUTHORIZED,
            AppError::PasswordHashError => STATUS_INTERNAL_SERVER_ERROR,
            AppError::InternalServerError => STATUS_INTERNAL_SERVER_ERROR,
            AppError::ValidationError(_) => STATUS_BAD_REQUEST,
        }
    }

    /// The message that the client is shown.
    pub fn error_message(&self) -> (r: String)
        ensures
            r@ == self.public_message(),
    {
        match self {
            AppError::DatabaseError(_) => String::from_str("Database error"),
            AppError::AuthError(reason) => reason.clone(),
            AppError::InvalidCredentials => String::from_str("Invalid credentials"),
            AppError::UserAlreadyExists => String::from_str("User already exists"),
            AppError::UserNotFound => String::from_str("User not found"),
            AppError::RoomNotFound => String::from_str("Room not found"),
            AppError::InvalidToken => String::from_str("Invalid token"),
            AppError::TokenExpired => String::from_str("Token expired"),
            AppError::PasswordHashError => String::from_str("Internal server error"),
            AppError::InternalServerError => String::from_str("Internal server error"),
            AppError::ValidationError(reason) => reason.clone(),
        }
    }

    /// The description of this error for logs.
    pub fn to_string(&self) -> (r: String)
        ensures
            r@ == self.description(),
    {
        match self {
            AppError::DatabaseError(cause) => String::from_str("Database error: ").concat(
                cause.as_str(),
            ),
            AppError::AuthError(reason) => String::from_str("Authentication error: ").concat(
                reason.as_str(),
            ),
            AppError::InvalidCredentials => String::from_str("Invalid credentials"),
            AppError::UserAlreadyExists => String::from_str("User already exists"),
            AppError::UserNotFound => String::from_str("User not found"),
            AppError::RoomNotFound => String::from_str("Room not found"),
            AppError::InvalidToken => String::from_str("Invalid token"),
            AppError::TokenExpired => String::from_str("Token expired"),
            AppError::PasswordHashError => String::from_str("Password hashing error"),
            AppError::InternalServerError => String::from_str("Internal server error"),
            AppError::ValidationError(reason) => String::from_str("Validation error: ").concat(
                reason.as_str(),
            ),
        }
    }

    /// The status and the body of the response that reports this error.
    pub fn into_response(self) -> (r: (u16, String))
        ensures
            r.0 == self.status(),
            r.1@ == self.body(),
    {
        let status = self.status_code();
        let message = self.error_message();
        let mut body = String::from_str("{\"error\":");
        body.append(quote(message.as_str()).as_str());
        body.append("}");
        (status, body)
    }
}

} // verus!
