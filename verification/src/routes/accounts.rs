//! The account routes' own session guard; signup shares its rules with
//! `crate::auth`.
use vstd::prelude::*;

pub use crate::auth::{
    generate_session_token, signup_accepted, signup_decide, validate_access_token,
    validate_password, validate_username, RequestOutcome, SignupData, SignupResponse, SignupStep,
    STATUS_UNAUTHORIZED,
};
use crate::text::{chars_eq, str_chars};

verus! {

/// Proof that a request carries the expected authentication cookie.
pub struct AuthTokenGuard;

/// The value that the authentication cookie must hold.
pub open spec fn expected_auth_token() -> Seq<char> {
    "expected_auth_token_value"@
}

/// The guard of the account routes: a request passes when its
/// `auth_token_cookie_name` cookie holds the expected value, and is
/// unauthorized otherwise.
pub fn auth_cookie_outcome(cookie: Option<&str>) -> (res: RequestOutcome<AuthTokenGuard>)
    ensures
        (cookie matches Some(v) && v@ == expected_auth_token()) ==> res is Success,
        !(cookie matches Some(v) && v@ == expected_auth_token())
            ==> res == RequestOutcome::<AuthTokenGuard>::Error(STATUS_UNAUTHORIZED),
{
    if let Some(v) = cookie {
        let expected = str_chars("expected_auth_token_value");
        let given = str_chars(v);
        if chars_eq(&given, &expected) {
            return RequestOutcome::Success(AuthTokenGuard);
        }
    }
    RequestOutcome::Error(STATUS_UNAUTHORIZED)
}

} // verus!
