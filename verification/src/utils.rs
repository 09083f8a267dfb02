//! Reading the bearer credential of a request.

use crate::errors::AppError;
use crate::text::same_text;
use vstd::prelude::*;
use vstd::string::StrSliceExecFns;
use vstd::string::StringExecFns;

verus! {

/// What stands before the token in an authorization header.
pub open spec fn bearer_prefix() -> Seq<char> {
    "Bearer "@
}

/// The token that an authorization header carries: what follows the prefix
/// `Bearer `, if the header starts with it.
pub open spec fn bearer_of(header: Seq<char>) -> Option<Seq<char>> {
    if header.len() >= 7 && header.subrange(0, 7) == bearer_prefix() {
        Some(header.subrange(7, header.len() as int))
    } else {
        None
    }
}

/// The text that reports a request without an authorization header.
pub open spec fn missing_header() -> Seq<char> {
    "Missing authorization header"@
}

/// The text that reports an authorization header of another form.
pub open spec fn invalid_format() -> Seq<char> {
    "Invalid authorization format"@
}

/// Takes the bearer token out of the authorization header of a request;
/// `header` is `None` where the request has no such header or it is not
/// text.
pub fn bearer_token<'a>(header: Option<&'a str>) -> (r: Result<&'a str, AppError>)
    ensures
        match r {
            Ok(token) => header matches Some(h) && bearer_of(h@) == Some(token@),
            Err(e) => match header {
                None => e matches AppError::AuthError(reason) && reason@ == missing_header(),
                Some(h) => {
                    &&& bearer_of(h@) is None
                    &&& e matches AppError::AuthError(reason)
                    &&& reason@ == invalid_format()
                },
            },
        },
{
    let h = match header {
        Some(h) => h,
        None => {
            return Err(AppError::AuthError(String::from_str("Missing authorization header")));
        },
    };
    proof {
        reveal_strlit("Bearer ");
    }
    let len = h.unicode_len();
    if len >= 7 && same_text(h.substring_char(0, 7), "Bearer ") {
        Ok(h.substring_char(7, len))
    } else {
        Err(AppError::AuthError(String::from_str("Invalid authorization format")))
    }
}

} // verus!
