use backend::auth::{
    auth_guard_finish, auth_guard_start, browser_client_outcome, generate_session_token,
    login_decide, login_redirect, login_reply, signup_accepted, signup_decide, validate_password,
    validate_username, AuthGuardStep, LoginDecision, LoginError, LoginForm, RequestOutcome,
    SessionToken, SignupData, SignupStep, StoredAccount, SESSION_LIFETIME_SECS,
};

#[test]
fn username_rules() {
    assert_eq!(validate_username("bob"), Ok(()));
    assert_eq!(validate_username(&"x".repeat(30)), Ok(()));
    assert_eq!(
        validate_username("bo"),
        Err(String::from("Username must be between 3 and 30 characters"))
    );
    assert_eq!(
        validate_username(&"x".repeat(31)),
        Err(String::from("Username must be between 3 and 30 characters"))
    );
    assert_eq!(
        validate_username("bøb"),
        Err(String::from("Username must contain only ASCII characters"))
    );
}

#[test]
fn password_rules() {
    assert_eq!(validate_password("12345678"), Ok(()));
    assert_eq!(
        validate_password("1234567"),
        Err(String::from("Password must be between 8 and 30 characters"))
    );
    assert_eq!(
        validate_password(&"p".repeat(31)),
        Err(String::from("Password must be between 8 and 30 characters"))
    );
    assert_eq!(
        validate_password("pässword1"),
        Err(String::from("Password must contain only ASCII characters"))
    );
}

#[test]
fn session_token_number() {
    assert_eq!(generate_session_token(), 20);
}

#[test]
fn issued_token_fields_and_digest() {
    let (token, digest) = SessionToken::issue(7, 1_700_000_000, 42);
    assert_eq!(token.token_id, None);
    assert_eq!(token.token, "");
    assert_eq!(token.created_at, 1_700_000_000);
    assert_eq!(token.expires_at, Some(1_700_000_000 + 604_800));
    assert_eq!(token.user_id, 7);
    // SHA-256 of "1700000000-42", in lowercase hexadecimal.
    assert_eq!(digest, "eb71c1b6c7870513539fefb2677ddaadd418b7fcde05d7687b17c44416c39571");
}

#[test]
fn new_token_lasts_a_week() {
    let (token, digest) = SessionToken::new(3, 1000);
    assert_eq!(digest.len(), 64);
    assert!(digest.chars().all(|c| c.is_ascii_hexdigit() && !c.is_ascii_uppercase()));
    assert_eq!(token.created_at, 1000);
    assert_eq!(token.expires_at, Some(1000 + SESSION_LIFETIME_SECS as i64));
    assert_eq!(SESSION_LIFETIME_SECS, 7 * 24 * 60 * 60);
}

fn signup_request(token: &str, username: &str, password: &str) -> SignupData {
    SignupData {
        token: token.to_string(),
        username: username.to_string(),
        displayname: Some(String::from("Bob")),
        password: password.to_string(),
    }
}

fn rejection(step: SignupStep) -> Option<String> {
    match step {
        SignupStep::Reject(r) => {
            assert!(r.token.is_none());
            r.error
        }
        SignupStep::Create(_) => panic!("expected a rejection"),
    }
}

#[test]
fn signup_rejects_unknown_or_unreadable_access_token() {
    let msg = Some(String::from("Access token invalid or expired"));
    assert_eq!(
        rejection(signup_decide(signup_request("nope", "bob", "password1"), Some("tok\n"), 5)),
        msg
    );
    assert_eq!(
        rejection(signup_decide(signup_request("tok", "bob", "password1"), None, 5)),
        msg
    );
}

#[test]
fn signup_rejects_bad_username_then_bad_password() {
    assert_eq!(
        rejection(signup_decide(signup_request("tok", "bo", "short"), Some("tok"), 5)),
        Some(String::from("Username must be between 3 and 30 characters"))
    );
    assert_eq!(
        rejection(signup_decide(signup_request("tok", "bob", "short"), Some("tok"), 5)),
        Some(String::from("Password must be between 8 and 30 characters"))
    );
}

#[test]
fn signup_then_login() {
    let step = signup_decide(signup_request("tok", "bob", "password1"), Some("x\r\ntok\n"), 1234);
    let user = match step {
        SignupStep::Create(u) => u,
        SignupStep::Reject(_) => panic!("expected an account"),
    };
    assert_eq!(user.user_name, "bob");
    assert_eq!(user.display_name, Some(String::from("Bob")));
    assert_eq!(user.join_date, 1234);
    assert!(user.pass_hash.starts_with("$argon2id$"));

    let account = StoredAccount { user_id: 11, pass_hash: user.pass_hash.clone() };
    let form = LoginForm { username: String::from("bob"), password: String::from("password1") };
    match login_decide(&form, Some(account), 500) {
        Ok(LoginDecision::Accepted(t, digest)) => {
            assert_eq!(digest.len(), 64);
            assert_eq!(t.user_id, 11);
            assert_eq!(t.created_at, 500);
            assert_eq!(t.expires_at, Some(500 + 604_800));
        }
        _ => panic!("expected the login to succeed"),
    }

    let account = StoredAccount { user_id: 11, pass_hash: user.pass_hash.clone() };
    let wrong = LoginForm { username: String::from("bob"), password: String::from("password2") };
    assert!(matches!(login_decide(&wrong, Some(account), 500), Ok(LoginDecision::Rejected)));
    assert_ne!(user.pass_hash, "password1");
}

#[test]
fn login_at_the_end_of_time() {
    let hash = match signup_decide(signup_request("tok", "bob", "password1"), Some("tok"), 1) {
        SignupStep::Create(u) => u.pass_hash,
        SignupStep::Reject(_) => panic!("expected an account"),
    };
    let right = LoginForm { username: String::from("bob"), password: String::from("password1") };
    let wrong = LoginForm { username: String::from("bob"), password: String::from("password2") };
    let account = || Some(StoredAccount { user_id: 1, pass_hash: hash.clone() });
    assert!(matches!(login_decide(&wrong, None, u64::MAX), Ok(LoginDecision::Rejected)));
    assert!(matches!(login_decide(&wrong, account(), u64::MAX), Ok(LoginDecision::Rejected)));
    assert!(matches!(
        login_decide(&right, account(), u64::MAX),
        Err(LoginError::ExpiryOverflow)
    ));
    assert!(matches!(
        login_decide(&right, account(), u64::MAX - SESSION_LIFETIME_SECS),
        Ok(LoginDecision::Accepted(_, _))
    ));
}

#[test]
fn login_without_account_or_with_bad_hash() {
    let form = LoginForm { username: String::from("eve"), password: String::from("whatever1") };
    assert!(matches!(login_decide(&form, None, 1), Ok(LoginDecision::Rejected)));
    let broken = StoredAccount { user_id: 1, pass_hash: String::from("not a hash") };
    assert!(matches!(
        login_decide(&form, Some(broken), 1),
        Err(LoginError::MalformedStoredHash)
    ));
}

#[test]
fn login_answers() {
    assert_eq!(login_redirect(true), Some("/"));
    assert_eq!(login_redirect(false), None);
    assert_eq!(login_reply(true), "ok");
    assert_eq!(login_reply(false), "rejected");
}

#[test]
fn accepted_signup_answer() {
    let r = signup_accepted();
    assert_eq!(r.token, Some(String::from("20")));
    assert_eq!(r.error, None);
}

#[test]
fn browser_client_guard() {
    assert!(matches!(browser_client_outcome(true), RequestOutcome::Success(_)));
    assert!(matches!(browser_client_outcome(false), RequestOutcome::Forward(403)));
}

#[test]
fn session_guard_steps() {
    assert!(matches!(auth_guard_start(None), AuthGuardStep::Done(RequestOutcome::Error(401))));
    match auth_guard_start(Some(String::from("abc"))) {
        AuthGuardStep::LookUp(t) => assert_eq!(t, "abc"),
        _ => panic!("expected a lookup"),
    }
    assert!(matches!(auth_guard_finish(false, Some(3)), RequestOutcome::Error(500)));
    assert!(matches!(auth_guard_finish(true, None), RequestOutcome::Error(401)));
    match auth_guard_finish(true, Some(9)) {
        RequestOutcome::Success(g) => assert_eq!(g.0, 9),
        _ => panic!("expected success"),
    }
}
