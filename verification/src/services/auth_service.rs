//! Registration and login: what is decided between the lookups and writes
//! that the caller performs on the persistent store.

use crate::errors::AppError;
use crate::models::user::{LoginRequest, Model, RegisterRequest, UserResponse};
use crate::services::jwt_service::{expiry, Claims, JwtService};
use crate::text::decimal_text;
use chrono::NaiveDateTime;
use vstd::prelude::*;

verus! {

/// The password hash, in PHC string format, that Argon2 with its default
/// parameters computes for a password under a salt given in B64; none where
/// the salt or the password is not acceptable.
pub uninterp spec fn argon2_phc(password: Seq<char>, salt: Seq<char>) -> Option<Seq<char>>;

/// Whether a text parses as a password hash in PHC string format.
pub uninterp spec fn phc_readable(hash: Seq<char>) -> bool;

/// Whether a text parses as a password hash in PHC string format and Argon2,
/// run with the parameters and the salt that it names, computes that hash for
/// the password.
pub uninterp spec fn argon2_matches(password: Seq<char>, hash: Seq<char>) -> bool;

/// Calls `Argon2::default().hash_password` with the salt that
/// `Salt::from_b64` reads, and writes the result as a PHC string. The hash is
/// a function of password and salt alone; it is named by [`argon2_phc`].
#[verifier::external_body]
fn argon2_hash(password: &str, salt: &str) -> (r: Option<String>)
    ensures
        r is Some <==> argon2_phc(password@, salt@) is Some,
        r matches Some(hash) ==> argon2_phc(password@, salt@) == Some(hash@),
{
    let salt = argon2::password_hash::Salt::from_b64(salt).ok()?;
    let hasher = argon2::Argon2::default();
    match argon2::PasswordHasher::hash_password(&hasher, password.as_bytes(), salt) {
        Ok(hash) => Some(hash.to_string()),
        Err(_) => None,
    }
}

/// Calls `PasswordHash::new` and says whether it accepted the text; named by
/// [`phc_readable`].
#[verifier::external_body]
fn phc_parses(hash: &str) -> (r: bool)
    ensures
        r == phc_readable(hash@),
{
    argon2::PasswordHash::new(hash).is_ok()
}

/// Calls `Argon2::default().verify_password` on the hash that
/// `PasswordHash::new` reads, and says whether it accepted the password; a
/// text that is no password hash accepts none. Named by [`argon2_matches`].
#[verifier::external_body]
fn argon2_verify(password: &str, hash: &str) -> (r: bool)
    ensures
        r == argon2_matches(password@, hash@),
{
    match argon2::PasswordHash::new(hash) {
        Ok(parsed) => argon2::PasswordVerifier::verify_password(
            &argon2::Argon2::default(),
            password.as_bytes(),
            &parsed,
        ).is_ok(),
        Err(_) => false,
    }
}

/// What a successful registration or login answers.
#[derive(Clone, Debug, PartialEq)]
pub struct AuthResponse {
    pub token: String,
    pub user: UserResponse,
}

/// A user that is about to be written to the persistent store, which will
/// assign its id.
#[derive(Clone, Debug, PartialEq)]
pub struct NewUser {
    pub email: String,
    pub password_hash: String,
    pub username: String,
    pub created_at: NaiveDateTime,
}

/// Registration and login.
#[derive(Clone)]
pub struct AuthService {
    jwt_service: JwtService,
}

/// What checking a password against a stored hash ends in: nothing where it
/// matches, else the error.
pub open spec fn password_refusal(password: Seq<char>, hash: Seq<char>) -> Option<AppError> {
    if !phc_readable(hash) {
        Some(AppError::PasswordHashError)
    } else if !argon2_matches(password, hash) {
        Some(AppError::InvalidCredentials)
    } else {
        None
    }
}

impl AuthService {
    /// The service that issues the tokens.
    pub closed spec fn tokens(&self) -> JwtService {
        self.jwt_service
    }

    /// A service that issues its tokens through `jwt_service`.
    pub fn new(jwt_service: JwtService) -> (r: AuthService)
        ensures
            r.tokens() == jwt_service,
    {
        AuthService { jwt_service }
    }

    /// The service that issues the tokens.
    pub fn jwt_service(&self) -> (r: &JwtService)
        ensures
            *r == self.tokens(),
    {
        &self.jwt_service
    }

    /// Hashes `password` under `salt` (in B64), which the caller draws at
    /// random for each password.
    pub fn hash_password(&self, password: &str, salt: &str) -> (r: Result<String, AppError>)
        ensures
            match r {
                Ok(hash) => argon2_phc(password@, salt@) == Some(hash@),
                Err(e) => argon2_phc(password@, salt@) is None && e is PasswordHashError,
            },
    {
        match argon2_hash(password, salt) {
            Some(hash) => Ok(hash),
            None => Err(AppError::PasswordHashError),
        }
    }

    /// Checks `password` against the stored `hash`. An unreadable hash is a
    /// failure inside the server; a password that does not match is a wrong
    /// credential.
    pub fn verify_password(&self, password: &str, hash: &str) -> (r: Result<(), AppError>)
        ensures
            match r {
                Ok(_) => password_refusal(password@, hash@) is None,
                Err(e) => password_refusal(password@, hash@) == Some(e),
            },
    {
        if !phc_parses(hash) {
            Err(AppError::PasswordHashError)
        } else if !argon2_verify(password, hash) {
            Err(AppError::InvalidCredentials)
        } else {
            Ok(())
        }
    }

    /// Decides a registration once the store has been asked for a user with
    /// the same email (`existing`): the user to insert, with the password
    /// hashed under `salt` and `now` as the time of creation. An email that
    /// is taken is refused before anything is hashed.
    pub fn register(
        &self,
        req: RegisterRequest,
        existing: Option<Model>,
        salt: &str,
        now: NaiveDateTime,
    ) -> (r: Result<NewUser, AppError>)
        ensures
            match r {
                Ok(user) => {
                    &&& existing is None
                    &&& argon2_phc(req.password@, salt@) == Some(user.password_hash@)
                    &&& user.email@ == req.email@
                    &&& user.username@ == req.username@
                    &&& user.created_at == now
                },
                Err(e) => if existing is Some {
                    e is UserAlreadyExists
                } else {
                    argon2_phc(req.password@, salt@) is None && e is PasswordHashError
                },
            },
    {
        if existing.is_some() {
            return Err(AppError::UserAlreadyExists);
        }
        let password_hash = match self.hash_password(req.password.as_str(), salt) {
            Ok(hash) => hash,
            Err(e) => { return Err(e); },
        };
        Ok(NewUser { email: req.email, password_hash, username: req.username, created_at: now })
    }

    /// Decides a login once the store has been asked for the user with the
    /// request's email (`found`): the claims of the token to sign, issued at
    /// `now` (seconds since the Unix epoch), and the user to answer with. An
    /// unknown email and a wrong password are the same error.
    pub fn login(&self, req: LoginRequest, found: Option<Model>, now: i64) -> (r: Result<
        (Claims, UserResponse),
        AppError,
    >)
        ensures
            match r {
                Ok((claims, user)) => {
                    &&& found matches Some(stored)
                    &&& password_refusal(req.password@, stored.password_hash@) is None
                    &&& user == UserResponse::of(stored)
                    &&& claims.sub@ == decimal_text(stored.id as int)
                    &&& claims.email@ == stored.email@
                    &&& claims.exp == expiry(now)
                },
                Err(e) => match found {
                    None => e is InvalidCredentials,
                    Some(stored) => match password_refusal(req.password@, stored.password_hash@) {
                        Some(refusal) => e == refusal,
                        None => e is InternalServerError && !(0 <= expiry(now) <= usize::MAX
                            && expiry(now) <= i64::MAX),
                    },
                },
            },
    {
        let stored = match found {
            Some(stored) => stored,
            None => { return Err(AppError::InvalidCredentials); },
        };
        match self.verify_password(req.password.as_str(), stored.password_hash.as_str()) {
            Ok(_) => {},
            Err(e) => { return Err(e); },
        }
        self.issue(stored, now)
    }

    /// The claims of the token for `user`, issued at `now` (seconds since the
    /// Unix epoch), and the user to answer with.
    pub fn issue(&self, user: Model, now: i64) -> (r: Result<(Claims, UserResponse), AppError>)
        ensures
            match r {
                Ok((claims, answer)) => {
                    &&& answer == UserResponse::of(user)
                    &&& claims.sub@ == decimal_text(user.id as int)
                    &&& claims.email@ == user.email@
                    &&& claims.exp == expiry(now)
                },
                Err(e) => e is InternalServerError && !(0 <= expiry(now) <= usize::MAX && expiry(
                    now,
                ) <= i64::MAX),
            },
    {
        let claims = match self.jwt_service.generate_token(user.id, user.email.as_str(), now) {
            Ok(claims) => claims,
            Err(e) => { return Err(e); },
        };
        Ok((claims, UserResponse::from(user)))
    }

    /// The answer to a registration or login: the signed token and the user.
    pub fn respond(token: String, user: UserResponse) -> (r: AuthResponse)
        ensures
            r.token == token,
            r.user == user,
    {
        AuthResponse { token, user }
    }
}

} // verus!
