//! Bearer tokens: the claims a token carries, when they run out, and who a
//! verified token speaks for. Signing and checking signatures is done by the
//! caller, which hands over what it found.

use crate::errors::AppError;
use crate::text::{decimal_reading, decimal_string, decimal_text, parse_i32};
use vstd::prelude::*;
use vstd::string::StringExecFns;

verus! {

/// Hours a token stays valid.
pub const TOKEN_LIFETIME_HOURS: i64 = 24;

pub const SECONDS_PER_HOUR: i64 = 3600;

/// What a token carries.
#[derive(Clone, Debug, PartialEq)]
pub struct Claims {
    /// The user's id, in decimal.
    pub sub: String,
    pub email: String,
    /// When the token runs out, in seconds since the Unix epoch.
    pub exp: usize,
}

/// Who a connection or request acts for.
#[derive(Clone, Debug, PartialEq)]
pub struct Identity {
    pub user_id: i32,
    pub handle: String,
}

/// What checking a presented token found.
#[derive(Clone, Debug, PartialEq)]
pub enum TokenCheck {
    /// The signature is good and the token has not run out.
    Valid(Claims),
    /// The signature is good but the token has run out.
    Expired,
    /// The token cannot be decoded or its signature is wrong.
    Malformed,
}

/// Issues and accepts the claims of bearer tokens signed with one secret.
#[derive(Clone)]
pub struct JwtService {
    secret: String,
}

/// When a token issued at `now` runs out.
pub open spec fn expiry(now: i64) -> int {
    now + TOKEN_LIFETIME_HOURS * SECONDS_PER_HOUR
}

impl Claims {
    /// The user id that the subject spells, if it spells one.
    pub open spec fn subject(self) -> Option<int> {
        decimal_reading(self.sub@, true, i32::MIN as int, i32::MAX as int)
    }

    /// The user id of the subject. A subject that is no user id makes the
    /// token invalid.
    pub fn user_id(&self) -> (r: Result<i32, AppError>)
        ensures
            match r {
                Ok(id) => self.subject() == Some(id as int),
                Err(e) => self.subject() is None && e is InvalidToken,
            },
    {
        match parse_i32(self.sub.as_str()) {
            Some(id) => Ok(id),
            None => Err(AppError::InvalidToken),
        }
    }

    /// Who a realtime connection with these claims acts for: the user the
    /// subject names, or user 0 where it names none, under the email as
    /// handle.
    pub fn identity(&self) -> (r: Identity)
        ensures
            r.handle@ == self.email@,
            match self.subject() {
                Some(id) => r.user_id == id,
                None => r.user_id == 0,
            },
    {
        let user_id = match parse_i32(self.sub.as_str()) {
            Some(id) => id,
            None => 0,
        };
        Identity { user_id, handle: self.email.clone() }
    }
}

impl JwtService {
    /// The secret that tokens are signed with.
    pub closed spec fn spec_secret(&self) -> Seq<char> {
        self.secret@
    }

    /// A service that signs with `secret`.
    pub fn new(secret: &str) -> (r: JwtService)
        ensures
            r.spec_secret() == secret@,
    {
        JwtService { secret: String::from_str(secret) }
    }

    /// The secret that tokens are signed with.
    pub fn secret(&self) -> (r: &str)
        ensures
            r@ == self.spec_secret(),
    {
        self.secret.as_str()
    }

    /// Generates the token that is issued at `now` (seconds since the Unix
    /// epoch) to user `user_id` with `email`: its claims, which the caller
    /// signs. The token runs out [`TOKEN_LIFETIME_HOURS`] later. Fails where
    /// that moment cannot be written in the claims.
    pub fn generate_token(&self, user_id: i32, email: &str, now: i64) -> (r: Result<
        Claims,
        AppError,
    >)
        ensures
            match r {
                Ok(claims) => {
                    &&& 0 <= expiry(now) <= usize::MAX
                    &&& expiry(now) <= i64::MAX
                    &&& claims.exp == expiry(now)
                    &&& claims.sub@ == decimal_text(user_id as int)
                    &&& claims.email@ == email@
                },
                Err(e) => e is InternalServerError && !(0 <= expiry(now) <= usize::MAX && expiry(
                    now,
                ) <= i64::MAX),
            },
    {
        let lifetime: i64 = TOKEN_LIFETIME_HOURS * SECONDS_PER_HOUR;
        let expires = match now.checked_add(lifetime) {
            Some(t) => t,
            None => { return Err(AppError::InternalServerError); },
        };
        if expires < 0 || expires as u64 > usize::MAX as u64 {
            return Err(AppError::InternalServerError);
        }
        Ok(
            Claims {
                sub: decimal_string(user_id as i64),
                email: String::from_str(email),
                exp: expires as usize,
            },
        )
    }

    /// The token or the error that signing ended in: a token that could not
    /// be signed is a failure inside the server.
    pub fn signed(&self, token: Option<String>) -> (r: Result<String, AppError>)
        ensures
            match token {
                Some(t) => r == Ok::<String, AppError>(t),
                None => r matches Err(e) && e is InternalServerError,
            },
    {
        match token {
            Some(t) => Ok(t),
            None => Err(AppError::InternalServerError),
        }
    }

    /// Accepts or refuses a token that the caller has checked against the
    /// secret and the clock: the claims of a valid one, else why it is
    /// refused.
    pub fn verify_token(&self, check: TokenCheck) -> (r: Result<Claims, AppError>)
        ensures
            match check {
                TokenCheck::Valid(claims) => r == Ok::<Claims, AppError>(claims),
                TokenCheck::Expired => r matches Err(e) && e is TokenExpired,
                TokenCheck::Malformed => r matches Err(e) && e is InvalidToken,
            },
    {
        match check {
            TokenCheck::Valid(claims) => Ok(claims),
            TokenCheck::Expired => Err(AppError::TokenExpired),
            TokenCheck::Malformed => Err(AppError::InvalidToken),
        }
    }
}

/// The text that reports a missing credential.
pub open spec fn missing_credential() -> Seq<char> {
    "Missing credential"@
}

/// The authentication gate: who a connection attempt acts for, or why it is
/// turned away. `credential` is `None` where no token was presented, else
/// what checking the token found. Touches nothing else.
pub fn verify(credential: Option<TokenCheck>) -> (r: Result<Identity, AppError>)
    ensures
        match credential {
            None => r matches Err(AppError::AuthError(reason)) && reason@ == missing_credential(),
            Some(TokenCheck::Expired) => r matches Err(e) && e is TokenExpired,
            Some(TokenCheck::Malformed) => r matches Err(e) && e is InvalidToken,
            Some(TokenCheck::Valid(claims)) => r matches Ok(identity) && identity.handle@
                == claims.email@ && identity.user_id == match claims.subject() {
                Some(id) => id,
                None => 0,
            },
        },
{
    match credential {
        None => Err(AppError::AuthError(String::from_str("Missing credential"))),
        Some(TokenCheck::Expired) => Err(AppError::TokenExpired),
        Some(TokenCheck::Malformed) => Err(AppError::InvalidToken),
        Some(TokenCheck::Valid(claims)) => Ok(claims.identity()),
    }
}

} // verus!
