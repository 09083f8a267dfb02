use chat_backend::errors::AppError;
use chat_backend::models::user::{LoginRequest, Model, RegisterRequest, UserResponse};
use chat_backend::services::auth_service::{AuthResponse, AuthService};
use chat_backend::services::jwt_service::{verify, Claims, JwtService, TokenCheck};
use chat_backend::utils::bearer_token;
use chrono::NaiveDateTime;

const SALT: &str = "c29tZXNhbHRzb21lc2FsdA";

fn now() -> NaiveDateTime {
    chrono::DateTime::from_timestamp(1_700_000_000, 0).unwrap().naive_utc()
}

fn service() -> AuthService {
    AuthService::new(JwtService::new("secret"))
}

fn user(hash: &str) -> Model {
    Model {
        id: 3,
        email: "a@example.com".to_string(),
        password_hash: hash.to_string(),
        username: "alice".to_string(),
        created_at: now(),
    }
}

fn claims(sub: &str) -> Claims {
    Claims { sub: sub.to_string(), email: "a@example.com".to_string(), exp: 1_700_086_400 }
}

#[test]
fn jwt_service_keeps_its_secret() {
    assert_eq!(JwtService::new("s3cret").secret(), "s3cret");
    assert_eq!(service().jwt_service().secret(), "secret");
}

#[test]
fn claims_run_out_a_day_after_issue() {
    let jwt = JwtService::new("secret");
    let claims = jwt.generate_token(42, "a@example.com", 1_700_000_000).unwrap();
    assert_eq!(claims.sub, "42");
    assert_eq!(claims.email, "a@example.com");
    assert_eq!(claims.exp, 1_700_086_400);
    let claims = jwt.generate_token(-1, "", 0).unwrap();
    assert_eq!((claims.sub.as_str(), claims.exp), ("-1", 86_400));
    let claims = jwt.generate_token(1, "", -86_400).unwrap();
    assert_eq!(claims.exp, 0);
}

#[test]
fn claims_need_an_expiry_that_can_be_written() {
    let jwt = JwtService::new("secret");
    assert_eq!(jwt.generate_token(1, "a", i64::MAX), Err(AppError::InternalServerError));
    assert_eq!(jwt.generate_token(1, "a", i64::MAX - 86_399), Err(AppError::InternalServerError));
    assert_eq!(jwt.generate_token(1, "a", -86_401), Err(AppError::InternalServerError));
    assert_eq!(jwt.generate_token(1, "a", i64::MIN), Err(AppError::InternalServerError));
}

#[test]
fn signing_failure_is_an_internal_error() {
    let jwt = JwtService::new("secret");
    assert_eq!(jwt.signed(Some("a.b.c".to_string())), Ok("a.b.c".to_string()));
    assert_eq!(jwt.signed(None), Err(AppError::InternalServerError));
}

#[test]
fn checked_tokens_are_accepted_or_refused() {
    let jwt = JwtService::new("secret");
    assert_eq!(jwt.verify_token(TokenCheck::Valid(claims("3"))), Ok(claims("3")));
    assert_eq!(jwt.verify_token(TokenCheck::Expired), Err(AppError::TokenExpired));
    assert_eq!(jwt.verify_token(TokenCheck::Malformed), Err(AppError::InvalidToken));
}

#[test]
fn subject_must_spell_a_user_id() {
    assert_eq!(claims("3").user_id(), Ok(3));
    assert_eq!(claims("-3").user_id(), Ok(-3));
    assert_eq!(claims("+3").user_id(), Ok(3));
    assert_eq!(claims("007").user_id(), Ok(7));
    assert_eq!(claims("2147483647").user_id(), Ok(2147483647));
    assert_eq!(claims("2147483648").user_id(), Err(AppError::InvalidToken));
    assert_eq!(claims("").user_id(), Err(AppError::InvalidToken));
    assert_eq!(claims("3 ").user_id(), Err(AppError::InvalidToken));
    assert_eq!(claims("three").user_id(), Err(AppError::InvalidToken));
    assert_eq!(claims("three").identity().user_id, 0);
    assert_eq!(claims("12").identity().user_id, 12);
    assert_eq!(claims("12").identity().handle, "a@example.com");
}

#[test]
fn verify_admits_valid_tokens_only() {
    let identity = verify(Some(TokenCheck::Valid(claims("9")))).unwrap();
    assert_eq!((identity.user_id, identity.handle.as_str()), (9, "a@example.com"));
    assert_eq!(verify(None), Err(AppError::AuthError("Missing credential".to_string())));
    assert_eq!(verify(Some(TokenCheck::Malformed)), Err(AppError::InvalidToken));
    assert_eq!(verify(Some(TokenCheck::Expired)), Err(AppError::TokenExpired));
}

#[test]
fn bearer_token_follows_the_prefix() {
    assert_eq!(bearer_token(Some("Bearer abc.def")), Ok("abc.def"));
    assert_eq!(bearer_token(Some("Bearer ")), Ok(""));
    assert_eq!(bearer_token(Some("Bearer  two spaces")), Ok(" two spaces"));
    assert_eq!(bearer_token(Some("Bearer é€")), Ok("é€"));
    let invalid = Err(AppError::AuthError("Invalid authorization format".to_string()));
    assert_eq!(bearer_token(Some("bearer abc")), invalid);
    assert_eq!(bearer_token(Some("Bearer")), invalid);
    assert_eq!(bearer_token(Some("Basic abc")), invalid);
    assert_eq!(bearer_token(Some("")), invalid);
    assert_eq!(
        bearer_token(None),
        Err(AppError::AuthError("Missing authorization header".to_string()))
    );
}

#[test]
fn hashed_password_verifies() {
    let auth = service();
    let hash = auth.hash_password("correct horse", SALT).unwrap();
    assert!(hash.starts_with("$argon2id$v=19$m=19456,t=2,p=1$c29tZXNhbHRzb21lc2FsdA$"));
    assert_ne!(hash, "correct horse");
    assert_eq!(auth.hash_password("correct horse", SALT).unwrap(), hash);
    assert_ne!(auth.hash_password("correct horse", "b3RoZXJzYWx0b3RoZXJzYQ").unwrap(), hash);
    assert_eq!(auth.verify_password("correct horse", &hash), Ok(()));
    assert_eq!(auth.verify_password("wrong horse", &hash), Err(AppError::InvalidCredentials));
}

#[test]
fn hash_agrees_with_the_hasher() {
    let auth = service();
    let hash = auth.hash_password("pw", SALT).unwrap();
    let parsed = argon2::PasswordHash::new(&hash).unwrap();
    let check = argon2::PasswordVerifier::verify_password(&argon2::Argon2::default(), b"pw", &parsed);
    assert!(check.is_ok());
}

#[test]
fn bad_salt_and_bad_hash_are_hashing_errors() {
    let auth = service();
    assert_eq!(auth.hash_password("pw", "no"), Err(AppError::PasswordHashError));
    assert_eq!(auth.hash_password("pw", "not base64!"), Err(AppError::PasswordHashError));
    assert_eq!(auth.verify_password("pw", "not a hash"), Err(AppError::PasswordHashError));
    assert_eq!(auth.verify_password("pw", ""), Err(AppError::PasswordHashError));
}

#[test]
fn register_refuses_a_taken_email() {
    let auth = service();
    let req = RegisterRequest {
        email: "a@example.com".to_string(),
        password: "pw".to_string(),
        username: "alice".to_string(),
    };
    assert_eq!(auth.register(req, Some(user("x")), SALT, now()), Err(AppError::UserAlreadyExists));
}

#[test]
fn register_prepares_the_user_to_insert() {
    let auth = service();
    let req = RegisterRequest {
        email: "a@example.com".to_string(),
        password: "pw".to_string(),
        username: "alice".to_string(),
    };
    let new_user = auth.register(req, None, SALT, now()).unwrap();
    assert_eq!(new_user.email, "a@example.com");
    assert_eq!(new_user.username, "alice");
    assert_eq!(new_user.created_at, now());
    assert_eq!(auth.verify_password("pw", &new_user.password_hash), Ok(()));
    let req = RegisterRequest { email: "b".to_string(), password: "pw".to_string(), username: "b".to_string() };
    assert_eq!(auth.register(req, None, "?", now()), Err(AppError::PasswordHashError));
}

#[test]
fn login_checks_user_and_password() {
    let auth = service();
    let hash = auth.hash_password("pw", SALT).unwrap();
    let req = LoginRequest { email: "a@example.com".to_string(), password: "pw".to_string() };
    let (claims, answer) = auth.login(req, Some(user(&hash)), 1_700_000_000).unwrap();
    assert_eq!(claims, Claims { sub: "3".to_string(), email: "a@example.com".to_string(), exp: 1_700_086_400 });
    assert_eq!(answer, UserResponse { id: 3, email: "a@example.com".to_string(), username: "alice".to_string() });
    let req = LoginRequest { email: "a@example.com".to_string(), password: "pw".to_string() };
    assert_eq!(auth.login(req, None, 0), Err(AppError::InvalidCredentials));
    let req = LoginRequest { email: "a@example.com".to_string(), password: "no".to_string() };
    assert_eq!(auth.login(req, Some(user(&hash)), 0), Err(AppError::InvalidCredentials));
    let req = LoginRequest { email: "a@example.com".to_string(), password: "pw".to_string() };
    assert_eq!(auth.login(req, Some(user("garbage")), 0), Err(AppError::PasswordHashError));
    let req = LoginRequest { email: "a@example.com".to_string(), password: "pw".to_string() };
    assert_eq!(auth.login(req, Some(user(&hash)), i64::MAX), Err(AppError::InternalServerError));
}

#[test]
fn issue_and_respond_build_the_answer() {
    let auth = service();
    let (claims, answer) = auth.issue(user("h"), 100).unwrap();
    assert_eq!(claims.exp, 86_500);
    assert_eq!(UserResponse::from(user("h")), answer);
    let response = AuthService::respond("t.o.k".to_string(), answer.clone());
    assert_eq!(response, AuthResponse { token: "t.o.k".to_string(), user: answer });
}

#[test]
fn subjects_are_read_as_std_reads_them() {
    for text in [
        "", "+", "-", "0", "-0", "+0", "007", "+7", "-7", "2147483647", "2147483648",
        "-2147483648", "-2147483649", "99999999999999999999999999999", "1 ", " 1", "1_000",
        "１２", "1e3", "--1", "+-1", "12a",
    ] {
        let read = claims(text).user_id().ok();
        assert_eq!(read, text.parse::<i32>().ok(), "{:?}", text);
    }
}
