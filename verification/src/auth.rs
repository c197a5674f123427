//! Accounts and sessions: the validation rules for new accounts, session
//! tokens, and the decisions behind login, signup and the request guards.
use vstd::prelude::*;
use vstd::string::*;
use vstd::utf8::*;

use crate::crypto::{
    argon2_check, argon2_hash, argon2_phc, argon2_verify, generate_salt, opt_chars, random_u32, sha256,
    sha256_digest, thread_rng,
};
use crate::text::{
    chars_range_eq, decimal, decimal_chars, lemma_first_newline_at, lines_of, lower_hex, str_chars,
    strip_cr, to_lower_hex, u64_to_decimal, all_digits, digits_value, lemma_decimal_reads_back,
};

verus! {

broadcast use vstd::string::group_string_axioms;

/// Why a username is refused, if it is: it must be ASCII and hold between 3
/// and 30 characters.
pub open spec fn username_error(username: Seq<char>) -> Option<Seq<char>> {
    if !is_ascii_chars(username) {
        Some("Username must contain only ASCII characters"@)
    } else if username.len() > 30 || username.len() < 3 {
        Some("Username must be between 3 and 30 characters"@)
    } else {
        None
    }
}

/// Why a password is refused, if it is: it must be ASCII and hold between 8
/// and 30 characters.
pub open spec fn password_error(password: Seq<char>) -> Option<Seq<char>> {
    if !is_ascii_chars(password) {
        Some("Password must contain only ASCII characters"@)
    } else if password.len() > 30 || password.len() < 8 {
        Some("Password must be between 8 and 30 characters"@)
    } else {
        None
    }
}

/// The username rule: a username is refused exactly when it is not all ASCII
/// (any ASCII character counts, letters, digits, '_', '.', '-', space and the
/// rest) or does not hold between 3 and 30 characters; the ASCII error comes
/// exactly when some character is outside ASCII.
pub proof fn lemma_username_rule(username: Seq<char>)
    ensures
        username_error(username) is None <==> (is_ascii_chars(username) && 3 <= username.len() <= 30),
        username_error(username) == Some("Username must contain only ASCII characters"@)
            <==> !is_ascii_chars(username),
        (is_ascii_chars(username) && !(3 <= username.len() <= 30))
            ==> username_error(username) == Some("Username must be between 3 and 30 characters"@),
{
    reveal_strlit("Username must contain only ASCII characters");
    reveal_strlit("Username must be between 3 and 30 characters");
    assert("Username must contain only ASCII characters"@.len() != "Username must be between 3 and 30 characters"@.len());
}

/// The password rule: a password is refused exactly when it is not all ASCII
/// or does not hold between 8 and 30 characters; the ASCII error comes
/// exactly when some character is outside ASCII.
pub proof fn lemma_password_rule(password: Seq<char>)
    ensures
        password_error(password) is None <==> (is_ascii_chars(password) && 8 <= password.len() <= 30),
        password_error(password) == Some("Password must contain only ASCII characters"@)
            <==> !is_ascii_chars(password),
        (is_ascii_chars(password) && !(8 <= password.len() <= 30))
            ==> password_error(password) == Some("Password must be between 8 and 30 characters"@),
{
    reveal_strlit("Password must contain only ASCII characters");
    reveal_strlit("Password must be between 8 and 30 characters");
    assert("Password must contain only ASCII characters"@.len() != "Password must be between 8 and 30 characters"@.len());
}

/// Checks a username for a new account.
pub fn validate_username(username: &str) -> (res: Result<(), String>)
    ensures
        match res {
            Ok(_) => username_error(username@) is None,
            Err(e) => username_error(username@) == Some(e@),
        },
        res is Ok <==> (is_ascii_chars(username@) && 3 <= username@.len() <= 30),
        !is_ascii_chars(username@)
            ==> (res matches Err(e) && e@ == "Username must contain only ASCII characters"@),
        (is_ascii_chars(username@) && !(3 <= username@.len() <= 30))
            ==> (res matches Err(e) && e@ == "Username must be between 3 and 30 characters"@),
{
    if !username.is_ascii() {
        return Err("Username must contain only ASCII characters".to_owned());
    }
    proof {
        is_ascii_spec_bytes(username);
    }
    let len = username.as_bytes().len();
    if len > 30 || len < 3 {
        return Err("Username must be between 3 and 30 characters".to_owned());
    }
    Ok(())
}

/// Checks a password for a new account.
pub fn validate_password(password: &str) -> (res: Result<(), String>)
    ensures
        match res {
            Ok(_) => password_error(password@) is None,
            Err(e) => password_error(password@) == Some(e@),
        },
        res is Ok <==> (is_ascii_chars(password@) && 8 <= password@.len() <= 30),
        !is_ascii_chars(password@)
            ==> (res matches Err(e) && e@ == "Password must contain only ASCII characters"@),
        (is_ascii_chars(password@) && !(8 <= password@.len() <= 30))
            ==> (res matches Err(e) && e@ == "Password must be between 8 and 30 characters"@),
{
    if !password.is_ascii() {
        return Err("Password must contain only ASCII characters".to_owned());
    }
    proof {
        is_ascii_spec_bytes(password);
    }
    let len = password.as_bytes().len();
    if len > 30 || len < 8 {
        return Err("Password must be between 8 and 30 characters".to_owned());
    }
    Ok(())
}

/// The token handed out after a successful signup.
pub fn generate_session_token() -> (token: usize)
    ensures
        token == 20,
{
    20
}

proof fn lemma_push_contains(s: Seq<Seq<char>>, x: Seq<char>, t: Seq<char>)
    ensures
        s.push(x).contains(t) == (s.contains(t) || x == t),
{
    let p = s.push(x);
    if s.contains(t) {
        let j = choose|j: int| 0 <= j < s.len() && s[j] == t;
        assert(p[j] == t);
    }
    if x == t {
        assert(p[p.len() - 1] == t);
    }
    if p.contains(t) {
        let j = choose|j: int| 0 <= j < p.len() && p[j] == t;
        if j < s.len() {
            assert(s[j] == t);
        }
    }
}

/// Whether `tk` is one of the lines of the access-token list `tokens`.
pub fn validate_access_token(tokens: &str, tk: &str) -> (res: bool)
    ensures
        res == lines_of(tokens@).contains(tk@),
{
    let v = str_chars(tokens);
    let t = str_chars(tk);
    let len = v.len();
    let mut i: usize = 0;
    let mut start: usize = 0;
    let mut found = false;
    let ghost mut acc: Seq<Seq<char>> = seq![];
    assert(v@.skip(0) =~= v@);
    while i < len
        invariant
            len == v.len(),
            start <= i <= len,
            forall|k: int| start <= k < i ==> v@[k] != '\n',
            lines_of(v@) == acc + lines_of(v@.skip(start as int)),
            found == acc.contains(t@),
        decreases len - i,
    {
        if v[i] == '\n' {
            let end: usize = if i > start && v[i - 1] == '\r' { i - 1 } else { i };
            let eq = chars_range_eq(&v, start, end, &t);
            proof {
                let sub = v@.skip(start as int);
                let line = v@.subrange(start as int, i as int);
                assert forall|k: int| 0 <= k < i - start implies sub[k] != '\n' by {
                    assert(sub[k] == v@[start + k]);
                }
                assert(sub[i - start] == v@[i as int]);
                lemma_first_newline_at(sub, i - start);
                assert(sub.take(i - start) =~= line);
                assert(sub.skip(i - start + 1) =~= v@.skip(i + 1));
                assert(lines_of(sub) == seq![strip_cr(line)] + lines_of(v@.skip(i + 1)));
                assert(strip_cr(line) =~= v@.subrange(start as int, end as int));
                let old_acc = acc;
                acc = acc.push(v@.subrange(start as int, end as int));
                assert(old_acc + lines_of(sub) =~= acc + lines_of(v@.skip(i + 1)));
                lemma_push_contains(old_acc, v@.subrange(start as int, end as int), t@);
            }
            found = found || eq;
            start = i + 1;
        }
        i = i + 1;
    }
    if start < len {
        let eq = chars_range_eq(&v, start, len, &t);
        proof {
            let sub = v@.skip(start as int);
            assert forall|k: int| 0 <= k < len - start implies sub[k] != '\n' by {
                assert(sub[k] == v@[start + k]);
            }
            lemma_first_newline_at(sub, len - start);
            assert(lines_of(sub) == seq![sub]);
            assert(sub =~= v@.subrange(start as int, len as int));
            let old_acc = acc;
            acc = acc.push(sub);
            assert(old_acc + lines_of(sub) =~= acc);
            lemma_push_contains(old_acc, sub, t@);
        }
        found = found || eq;
    } else {
        proof {
            assert(v@.skip(start as int) =~= Seq::<char>::empty());
            assert(acc + lines_of(v@.skip(start as int)) =~= acc);
        }
    }
    found
}

/// How long a session token stays valid: seven days, in seconds.
pub const SESSION_LIFETIME_SECS: u64 = 604800;

/// The bytes of a text whose characters are all ASCII, one byte per character.
pub open spec fn ascii_bytes(s: Seq<char>) -> Seq<u8> {
    s.map_values(|c: char| (c as u32) as u8)
}

/// The seed a session token is derived from: the issue time in seconds, a
/// dash, and the random value, both in decimal.
pub open spec fn session_seed(now_secs: u64, random: u32) -> Seq<char> {
    decimal(now_secs as nat) + seq!['-'] + decimal(random as nat)
}

/// The lowercase hexadecimal SHA-256 digest of a session seed.
pub open spec fn session_digest(now_secs: u64, random: u32) -> Seq<char> {
    lower_hex(sha256(ascii_bytes(session_seed(now_secs, random))))
}

/// A stored login session, as it is written to the session table. Times are
/// Unix timestamps in seconds.
pub struct SessionToken {
    pub token_id: Option<i64>,
    pub token: String,
    pub created_at: i64,
    pub expires_at: Option<i64>,
    pub user_id: i64,
}

fn push_ascii(bytes: &mut Vec<u8>, cs: &Vec<char>)
    ensures
        final(bytes)@ == old(bytes)@ + ascii_bytes(cs@),
{
    let ghost start = bytes@;
    let mut i: usize = 0;
    while i < cs.len()
        invariant
            i <= cs.len(),
            bytes@ == start + ascii_bytes(cs@.take(i as int)),
        decreases cs.len() - i,
    {
        let c = cs[i];
        bytes.push((c as u32) as u8);
        i = i + 1;
        assert(bytes@ =~= start + ascii_bytes(cs@.take(i as int)));
    }
    assert(cs@.take(i as int) =~= cs@);
}

impl SessionToken {
    /// Whether this is the token issued to `user_id` at `now_secs`: not yet
    /// stored, with an empty token string, created now and expiring after
    /// `SESSION_LIFETIME_SECS`.
    pub open spec fn issued(self, user_id: i64, now_secs: u64) -> bool {
        &&& self.token_id is None
        &&& self.token@.len() == 0
        &&& self.created_at == now_secs as i64
        &&& self.expires_at == Some((now_secs + SESSION_LIFETIME_SECS) as i64)
        &&& self.user_id == user_id
    }

    /// Issues the token for `user_id` at `now_secs` with the given random
    /// value, together with the digest of its seed.
    pub fn issue(user_id: i64, now_secs: u64, random: u32) -> (res: (SessionToken, String))
        requires
            now_secs <= u64::MAX - SESSION_LIFETIME_SECS,
        ensures
            res.0.issued(user_id, now_secs),
            res.1@ == session_digest(now_secs, random),
    {
        let mut seed: Vec<u8> = Vec::new();
        push_ascii(&mut seed, &decimal_chars(now_secs));
        let mut dash: Vec<char> = Vec::new();
        dash.push('-');
        push_ascii(&mut seed, &dash);
        push_ascii(&mut seed, &decimal_chars(random as u64));
        proof {
            assert(seed@ =~= ascii_bytes(session_seed(now_secs, random)));
        }
        let digest = sha256_digest(seed.as_slice());
        let hashed = to_lower_hex(&digest);
        let token = SessionToken {
            token_id: None,
            token: String::new(),
            created_at: now_secs as i64,
            expires_at: Some((now_secs + SESSION_LIFETIME_SECS) as i64),
            user_id,
        };
        (token, hashed)
    }

    /// Issues a session token for `user_id` at `now_secs` (seconds since the
    /// Unix epoch), drawing the random part of its seed from the thread
    /// generator; also gives the digest of that seed, for the log.
    pub fn new(user_id: i64, now_secs: u64) -> (res: (SessionToken, String))
        requires
            now_secs <= u64::MAX - SESSION_LIFETIME_SECS,
        ensures
            res.0.issued(user_id, now_secs),
            exists|random: u32| res.1@ == session_digest(now_secs, random),
    {
        let mut rng = thread_rng();
        let random = random_u32(&mut rng);
        SessionToken::issue(user_id, now_secs, random)
    }
}

/// The fields of a login request.
pub struct LoginForm {
    pub username: String,
    pub password: String,
}

/// The stored account of a user, as the login lookup finds it.
pub struct StoredAccount {
    pub user_id: i64,
    pub pass_hash: String,
}

/// What a login request comes to.
pub enum LoginDecision {
    /// No such user, or the password does not match.
    Rejected,
    /// The password matches: store this session and hand its token out. The
    /// digest of the token's seed comes with it, for the log.
    Accepted(SessionToken, String),
}

/// Why a login cannot be decided.
pub enum LoginError {
    /// The stored password hash of the account cannot be read.
    MalformedStoredHash,
    /// The password matched, but the session's expiry time, a week from now,
    /// does not fit the clock.
    ExpiryOverflow,
}

/// The UTF-8 bytes of a text.
pub open spec fn utf8_bytes(s: Seq<char>) -> Seq<u8> {
    encode_utf8(s)
}

/// How a login attempt with `password` ends, given the stored password hash
/// of the requested user (`None` when there is no such user).
pub enum LoginVerdict {
    Reject,
    Accept,
    Malformed,
}

/// The stored hash of an account, if there is one.
pub open spec fn stored_hash(account: Option<StoredAccount>) -> Option<Seq<char>> {
    match account {
        Some(a) => Some(a.pass_hash@),
        None => None,
    }
}

/// A login with `password` is rejected when there is no such user or the
/// password does not check against the stored hash, accepted when it does,
/// and fails when the stored hash cannot be read.
pub open spec fn login_verdict(password: Seq<char>, stored: Option<Seq<char>>) -> LoginVerdict {
    match stored {
        None => LoginVerdict::Reject,
        Some(h) => match argon2_check(utf8_bytes(password), h) {
            None => LoginVerdict::Malformed,
            Some(false) => LoginVerdict::Reject,
            Some(true) => LoginVerdict::Accept,
        },
    }
}

/// Decides a login request, given the account found under the requested
/// username (if any) and the current time in seconds. The time matters only
/// when the password matches.
pub fn login_decide(form: &LoginForm, account: Option<StoredAccount>, now_secs: u64) -> (res: Result<LoginDecision, LoginError>)
    ensures
        match login_verdict(form.password@, stored_hash(account)) {
            LoginVerdict::Reject => res is Ok && res->Ok_0 is Rejected,
            LoginVerdict::Malformed => res == Err::<LoginDecision, LoginError>(LoginError::MalformedStoredHash),
            LoginVerdict::Accept => if now_secs <= u64::MAX - SESSION_LIFETIME_SECS {
                &&& res matches Ok(LoginDecision::Accepted(t, digest))
                &&& account matches Some(a) && t.issued(a.user_id, now_secs)
                &&& exists|random: u32| digest@ == session_digest(now_secs, random)
            } else {
                res == Err::<LoginDecision, LoginError>(LoginError::ExpiryOverflow)
            },
        },
{
    match account {
        None => Ok(LoginDecision::Rejected),
        Some(a) => {
            match argon2_verify(form.password.as_str().as_bytes(), a.pass_hash.as_str()) {
                None => Err(LoginError::MalformedStoredHash),
                Some(false) => Ok(LoginDecision::Rejected),
                Some(true) => {
                    if now_secs > u64::MAX - SESSION_LIFETIME_SECS {
                        return Err(LoginError::ExpiryOverflow);
                    }
                    let (token, digest) = SessionToken::new(a.user_id, now_secs);
                    Ok(LoginDecision::Accepted(token, digest))
                },
            }
        },
    }
}

/// Where a browser login goes: to the front page when it succeeded, nowhere
/// otherwise.
pub fn login_redirect(authenticated: bool) -> (target: Option<&'static str>)
    ensures
        authenticated ==> (target matches Some(t) && t@ == "/"@),
        !authenticated ==> target is None,
{
    if authenticated {
        Some("/")
    } else {
        None
    }
}

/// The plain-text answer to a login from a client that is not a browser.
pub fn login_reply(authenticated: bool) -> (reply: String)
    ensures
        authenticated ==> reply@ == "ok"@,
        !authenticated ==> reply@ == "rejected"@,
{
    if authenticated {
        "ok".to_owned()
    } else {
        "rejected".to_owned()
    }
}

/// The fields of a signup request.
pub struct SignupData {
    pub token: String,
    pub username: String,
    pub displayname: Option<String>,
    pub password: String,
}

/// The answer to a signup request.
pub struct SignupResponse {
    pub token: Option<String>,
    pub error: Option<String>,
}

/// The account row that a successful signup stores.
pub struct NewUser {
    pub user_name: String,
    pub pass_hash: String,
    pub join_date: i64,
    pub display_name: Option<String>,
}

/// What a signup request comes to.
pub enum SignupStep {
    /// Refused: answer with this response.
    Reject(SignupResponse),
    /// Accepted: store this account, then answer with `signup_accepted`.
    Create(NewUser),
}

/// Why a signup is refused, if it is: the access token must be one of the
/// lines of the access-token list (`None` when the list cannot be read), then
/// the username and the password must be valid.
pub open spec fn signup_error(
    token: Seq<char>,
    username: Seq<char>,
    password: Seq<char>,
    tokens: Option<Seq<char>>,
) -> Option<Seq<char>> {
    if !(tokens matches Some(t) && lines_of(t).contains(token)) {
        Some("Access token invalid or expired"@)
    } else if username_error(username) is Some {
        username_error(username)
    } else {
        password_error(password)
    }
}

/// The characters of an optional string slice.
pub open spec fn opt_str(s: Option<&str>) -> Option<Seq<char>> {
    match s {
        Some(t) => Some(t@),
        None => None,
    }
}

/// Decides a signup request, given the contents of the access-token list (or
/// `None` when it cannot be read) and the current time in seconds. An
/// accepted request yields the account to store, with the password hashed
/// under a fresh salt.
pub fn signup_decide(req: SignupData, tokens: Option<&str>, now_secs: u64) -> (step: SignupStep)
    ensures
        match step {
            SignupStep::Reject(r) => {
                &&& r.token is None
                &&& signup_error(req.token@, req.username@, req.password@, opt_str(tokens)) is Some
                &&& opt_chars(r.error) == signup_error(req.token@, req.username@, req.password@, opt_str(tokens))
            },
            SignupStep::Create(u) => {
                &&& signup_error(req.token@, req.username@, req.password@, opt_str(tokens)) is None
                &&& u.user_name@ == req.username@
                &&& u.display_name == req.displayname
                &&& u.join_date == now_secs as i64
                &&& login_verdict(req.password@, Some(u.pass_hash@)) == LoginVerdict::Accept
                &&& u.pass_hash@ != req.password@
                &&& exists|salt: Seq<char>| argon2_phc(utf8_bytes(req.password@), salt) == Some(u.pass_hash@)
            },
        },
{
    let listed = match tokens {
        Some(t) => validate_access_token(t, req.token.as_str()),
        None => false,
    };
    if !listed {
        return SignupStep::Reject(SignupResponse {
            token: None,
            error: Some("Access token invalid or expired".to_owned()),
        });
    }
    if let Err(e) = validate_username(req.username.as_str()) {
        return SignupStep::Reject(SignupResponse { token: None, error: Some(e) });
    }
    if let Err(e) = validate_password(req.password.as_str()) {
        return SignupStep::Reject(SignupResponse { token: None, error: Some(e) });
    }
    let password_str = req.password.as_str();
    let password = password_str.as_bytes();
    proof {
        is_ascii_spec_bytes(password_str);
    }
    let salt = generate_salt();
    match argon2_hash(password, salt.as_str()) {
        Some(pass_hash) => {
            proof {
                assert(argon2_phc(utf8_bytes(req.password@), salt@) == Some(pass_hash@));
            }
            SignupStep::Create(NewUser {
                user_name: req.username,
                pass_hash,
                join_date: now_secs as i64,
                display_name: req.displayname,
            })
        },
        None => {
            proof {
                assert(argon2_phc(password@, salt@) is Some);
            }
            SignupStep::Reject(SignupResponse { token: None, error: None })
        },
    }
}

/// The answer to a signup whose account was stored: the session token of
/// `generate_session_token`, in decimal, and no error.
pub fn signup_accepted() -> (r: SignupResponse)
    ensures
        opt_chars(r.token) == Some(decimal(20)),
        r.error is None,
{
    let token = generate_session_token();
    SignupResponse { token: Some(u64_to_decimal(token as u64)), error: None }
}

/// A status code that a request guard answers with.
pub const STATUS_UNAUTHORIZED: u16 = 401;
/// A status code that a request guard answers with.
pub const STATUS_FORBIDDEN: u16 = 403;
/// A status code that a request guard answers with.
pub const STATUS_INTERNAL_SERVER_ERROR: u16 = 500;

/// What a request guard concludes: the guard value, a hand-over to the next
/// matching route with a status, or a failure with a status.
pub enum RequestOutcome<T> {
    Success(T),
    Forward(u16),
    Error(u16),
}

/// Marks a request that a browser sent.
pub struct BrowserClient;

/// A request counts as coming from a browser when it carries a `Referer`
/// header; otherwise it is forwarded with 403.
pub fn browser_client_outcome(has_referer: bool) -> (res: RequestOutcome<BrowserClient>)
    ensures
        has_referer ==> res is Success,
        !has_referer ==> res == RequestOutcome::<BrowserClient>::Forward(STATUS_FORBIDDEN),
{
    if has_referer {
        RequestOutcome::Success(BrowserClient)
    } else {
        RequestOutcome::Forward(STATUS_FORBIDDEN)
    }
}

/// Proof that a request carries a live session; holds the user's id.
#[derive(Debug)]
pub struct AuthTokenGuard(pub i64);

/// The first step of the session guard.
pub enum AuthGuardStep {
    /// Look the session token up in the session table.
    LookUp(String),
    /// Conclude with this outcome.
    Done(RequestOutcome<AuthTokenGuard>),
}

/// Starts the session guard from the value of the private `session_token`
/// cookie: without one the request is unauthorized, with one its token is
/// looked up.
pub fn auth_guard_start(session_cookie: Option<String>) -> (step: AuthGuardStep)
    ensures
        session_cookie is None ==> step == AuthGuardStep::Done(RequestOutcome::Error(STATUS_UNAUTHORIZED)),
        session_cookie matches Some(v) ==> (step matches AuthGuardStep::LookUp(t) && t@ == v@),
{
    match session_cookie {
        None => AuthGuardStep::Done(RequestOutcome::Error(STATUS_UNAUTHORIZED)),
        Some(v) => AuthGuardStep::LookUp(v),
    }
}

/// Concludes the session guard: without a database connection the request
/// fails with 500; otherwise it succeeds with the user of the stored session
/// that matched the token, or is unauthorized when none did. `found_user` is
/// `None` when the lookup was not made.
pub fn auth_guard_finish(pool_ready: bool, found_user: Option<i64>) -> (res: RequestOutcome<AuthTokenGuard>)
    ensures
        !pool_ready ==> res == RequestOutcome::<AuthTokenGuard>::Error(STATUS_INTERNAL_SERVER_ERROR),
        pool_ready ==> match found_user {
            Some(id) => res == RequestOutcome::Success(AuthTokenGuard(id)),
            None => res == RequestOutcome::<AuthTokenGuard>::Error(STATUS_UNAUTHORIZED),
        },
{
    if !pool_ready {
        return RequestOutcome::Error(STATUS_INTERNAL_SERVER_ERROR);
    }
    match found_user {
        Some(id) => RequestOutcome::Success(AuthTokenGuard(id)),
        None => RequestOutcome::Error(STATUS_UNAUTHORIZED),
    }
}

/// An account that signup stores lets its owner log in: a password hash
/// that checks true against the signup password (as `signup_decide` ensures
/// of the account it creates, through `argon2_hash`) makes a login with that
/// password succeed.
pub proof fn lemma_signup_account_logs_in(password: Seq<char>, pass_hash: Seq<char>)
    requires
        argon2_check(utf8_bytes(password), pass_hash) == Some(true),
    ensures
        login_verdict(password, Some(pass_hash)) == LoginVerdict::Accept,
{
}

/// Every issued session token expires `SESSION_LIFETIME_SECS` after it was
/// created, when both times fit in an `i64`.
pub proof fn lemma_session_lifetime(token: SessionToken, user_id: i64, now_secs: u64)
    requires
        token.issued(user_id, now_secs),
        now_secs + SESSION_LIFETIME_SECS <= i64::MAX,
    ensures
        token.expires_at == Some((token.created_at + SESSION_LIFETIME_SECS) as i64),
        token.created_at == now_secs,
{
}

/// An issued token belongs to the user it was issued to, has not been
/// stored yet and carries an empty token string.
pub proof fn lemma_issued_token_fields(token: SessionToken, user_id: i64, now_secs: u64)
    requires
        token.issued(user_id, now_secs),
    ensures
        token.user_id == user_id,
        token.token_id is None,
        token.token@.len() == 0,
        token.created_at == now_secs as i64,
{
}

/// A session seed is the issue time and the random value, in that order,
/// each as decimal digits that read back as the value, joined by one '-'.
pub proof fn lemma_session_seed_reads_back(now_secs: u64, random: u32)
    ensures
        ({
            let s = session_seed(now_secs, random);
            let i = decimal(now_secs as nat).len() as int;
            &&& 0 < i < s.len()
            &&& s[i] == '-'
            &&& all_digits(s.take(i)) && digits_value(s.take(i)) == now_secs
            &&& all_digits(s.skip(i + 1)) && digits_value(s.skip(i + 1)) == random
        }),
{
    lemma_decimal_reads_back(now_secs as nat);
    lemma_decimal_reads_back(random as nat);
    let s = session_seed(now_secs, random);
    let i = decimal(now_secs as nat).len() as int;
    assert(s.take(i) =~= decimal(now_secs as nat));
    assert(s.skip(i + 1) =~= decimal(random as nat));
}

/// A login is accepted exactly when the account exists and the password
/// checks true against its stored hash, rejected when there is no account or
/// the check is false, and fails only when the stored hash cannot be read.
pub proof fn lemma_login_rule(password: Seq<char>, stored: Option<Seq<char>>)
    ensures
        login_verdict(password, stored) == LoginVerdict::Accept
            <==> (stored matches Some(h) && argon2_check(utf8_bytes(password), h) == Some(true)),
        login_verdict(password, stored) == LoginVerdict::Reject
            <==> (stored is None || (stored matches Some(h) && argon2_check(utf8_bytes(password), h) == Some(false))),
        login_verdict(password, stored) == LoginVerdict::Malformed
            <==> (stored matches Some(h) && argon2_check(utf8_bytes(password), h) is None),
{
}

/// A signup is refused exactly unless the access token is a line of a
/// readable list and both the username and the password follow their rules;
/// a token that is not listed is refused with the access-token message,
/// whatever the username and password.
pub proof fn lemma_signup_rule(token: Seq<char>, username: Seq<char>, password: Seq<char>, tokens: Option<Seq<char>>)
    ensures
        signup_error(token, username, password, tokens) is None <==> ({
            &&& tokens matches Some(t) && lines_of(t).contains(token)
            &&& is_ascii_chars(username) && 3 <= username.len() <= 30
            &&& is_ascii_chars(password) && 8 <= password.len() <= 30
        }),
        !(tokens matches Some(t) && lines_of(t).contains(token))
            ==> signup_error(token, username, password, tokens) == Some("Access token invalid or expired"@),
{
    lemma_username_rule(username);
    lemma_password_rule(password);
}

} // verus!
