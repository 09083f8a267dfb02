//! Users.

use chrono::NaiveDateTime;
use vstd::prelude::*;

verus! {

/// A user as the persistent store holds it.
#[derive(Clone, Debug, PartialEq)]
pub struct Model {
    pub id: i32,
    pub email: String,
    pub password_hash: String,
    pub username: String,
    pub created_at: NaiveDateTime,
}

/// The body of a request to register.
#[derive(Clone, Debug, PartialEq)]
pub struct RegisterRequest {
    pub email: String,
    pub password: String,
    pub username: String,
}

/// The body of a request to log in.
#[derive(Clone, Debug, PartialEq)]
pub struct LoginRequest {
    pub email: String,
    pub password: String,
}

/// A user as it answers a request: without the password hash.
#[derive(Clone, Debug, PartialEq)]
pub struct UserResponse {
    pub id: i32,
    pub email: String,
    pub username: String,
}

impl UserResponse {
    /// The answer that shows `user`.
    pub open spec fn of(user: Model) -> UserResponse {
        UserResponse { id: user.id, email: user.email, username: user.username }
    }
}

impl From<Model> for UserResponse {
    fn from(user: Model) -> (r: UserResponse) {
        UserResponse { id: user.id, email: user.email, username: user.username }
    }
}

impl vstd::std_specs::convert::FromSpecImpl<Model> for UserResponse {
    open spec fn obeys_from_spec() -> bool {
        true
    }

    open spec fn from_spec(user: Model) -> UserResponse {
        UserResponse::of(user)
    }
}

} // verus!
