//! Management authentication: one administrator, sessions in memory, and a limit on failed logins.
//!
//! Times are nanoseconds of a clock that never goes back. Tokens are never kept: sessions are found
//! by the digest of their token.
use vstd::prelude::*;
use vstd::string::*;

use crate::crypto::{argon2_hash, argon2_verify, phc_params, random_salt, sha256_digest};
use crate::table::{Key, Table};
use crate::text::{
    any_control, byte_len, chars_of, push_decimal_signed, split, split_once, starts_with, str_eq,
    string_of_range, trim, trim_char,
};

verus! {

/// The cookie that holds a session token.
pub const SESSION_COOKIE_NAME: &'static str = "routescope_session";

/// The cookie that holds a token against forged requests.
pub const CSRF_COOKIE_NAME: &'static str = "routescope_csrf";

/// How long a session lasts, in seconds.
pub const SESSION_TTL_SECS: u64 = 43_200;

/// How long a session lasts.
pub const SESSION_TTL_NS: u64 = 43_200_000_000_000;

/// The time over which failed logins are counted.
pub const LOGIN_RATE_LIMIT_WINDOW_NS: u64 = 900_000_000_000;

/// How many logins may fail in that time.
pub const LOGIN_RATE_LIMIT_FAILURES: u32 = 5;

/// Nanoseconds in a second.
pub const NANOS_PER_SEC: u64 = 1_000_000_000;

/// Why authentication cannot be set up.
#[derive(Debug, PartialEq, Eq)]
pub enum AuthInitError {
    Storage(String),
    InvalidConfig(&'static str),
    InvalidPasswordHash,
}

impl AuthInitError {
    /// The text that describes the error.
    pub open spec fn text(self) -> Seq<char> {
        match self {
            AuthInitError::Storage(e) => "authentication storage error: "@ + e@,
            AuthInitError::InvalidConfig(m) => "invalid authentication config: "@ + m@,
            AuthInitError::InvalidPasswordHash =>
            "configured password hash is not a valid Argon2 PHC string"@,
        }
    }

    /// Describes the error.
    pub fn message(&self) -> (r: String)
        ensures
            r@ == self.text(),
    {
        match self {
            AuthInitError::Storage(e) => {
                let mut out = "authentication storage error: ".to_owned();
                out.append(e.as_str());
                out
            },
            AuthInitError::InvalidConfig(m) => {
                let mut out = "invalid authentication config: ".to_owned();
                out.append(*m);
                out
            },
            AuthInitError::InvalidPasswordHash =>
            "configured password hash is not a valid Argon2 PHC string".to_owned(),
        }
    }
}

/// A password could not be hashed.
#[derive(Debug, Clone, Copy, PartialEq, Eq, Structural)]
pub struct HashPasswordError {}

/// A line without the line breaks at its end.
pub open spec fn without_line_end(line: Seq<char>) -> Seq<char>
    decreases line.len(),
{
    if line.len() > 0 && (line.last() == '\r' || line.last() == '\n') {
        without_line_end(line.drop_last())
    } else {
        line
    }
}

/// Takes a password from a line that was typed.
pub fn password_from_line(line: &str) -> (r: Result<String, &'static str>)
    ensures
        match r {
            Ok(password) => password@ == without_line_end(line@) && password@.len() > 0,
            Err(e) => without_line_end(line@).len() == 0 && e@ == "password must not be empty"@,
        },
{
    let chars = chars_of(line);
    let mut end: usize = chars.len();
    proof {
        assert(line@.take(end as int) =~= line@);
    }
    while 0 < end && (chars[end - 1] == '\r' || chars[end - 1] == '\n')
        invariant
            chars@ == line@,
            end <= chars@.len(),
            without_line_end(line@) == without_line_end(line@.take(end as int)),
        decreases end,
    {
        proof {
            assert(line@.take(end as int).drop_last() =~= line@.take(end - 1));
        }
        end = end - 1;
    }
    proof {
        assert(line@.take(end as int) =~= line@.subrange(0, end as int));
    }
    if end == 0 {
        return Err("password must not be empty");
    }
    Ok(string_of_range(&chars, 0, end))
}

/// The local administrator.
#[derive(Debug)]
pub struct LocalAccount {
    pub username: String,
    pub password_hash: String,
}

/// The digest of a token.
#[derive(Debug)]
pub struct TokenDigest {
    pub bytes: Vec<u8>,
}

impl View for TokenDigest {
    type V = Seq<u8>;

    open spec fn view(&self) -> Seq<u8> {
        self.bytes@
    }
}

impl Key for TokenDigest {
    fn same(&self, other: &Self) -> (r: bool) {
        constant_time_equal(&self.bytes, &other.bytes)
    }
}

/// Tells whether two digests are the same, looking at every byte whatever the first ones say.
pub fn constant_time_equal(left: &Vec<u8>, right: &Vec<u8>) -> (r: bool)
    ensures
        r == (left@ == right@),
{
    if left.len() != right.len() {
        return false;
    }
    let mut difference: u8 = 0;
    let mut i: usize = 0;
    while i < left.len()
        invariant
            left@.len() == right@.len(),
            i <= left@.len(),
            (difference == 0) == (forall|k: int| 0 <= k < i ==> left@[k] == right@[k]),
        decreases left@.len() - i,
    {
        let a: u8 = left[i];
        let b: u8 = right[i];
        proof {
            assert((difference | (a ^ b)) == 0 <==> difference == 0 && a == b) by (bit_vector);
        }
        difference = difference | (a ^ b);
        i = i + 1;
    }
    proof {
        if difference == 0 {
            assert(left@ =~= right@);
        }
    }
    difference == 0
}

/// A session that was opened.
#[derive(Debug)]
pub struct Session {
    pub csrf_digest: TokenDigest,
    pub expires_at: u64,
}

/// What a session is, as a mathematical value.
#[verifier::ext_equal]
pub struct SessionView {
    pub csrf: Seq<u8>,
    pub expires_at: u64,
}

impl View for Session {
    type V = SessionView;

    open spec fn view(&self) -> SessionView {
        SessionView { csrf: self.csrf_digest@, expires_at: self.expires_at }
    }
}

/// Failed logins from one source since a time.
#[derive(Debug, Clone, Copy, PartialEq, Eq, Structural)]
pub struct LoginAttempt {
    pub window_started: u64,
    pub failures: u32,
}

/// The tokens of a session that was opened.
#[derive(Debug)]
pub struct SessionCredentials {
    pub session_token: String,
    pub csrf_token: String,
}

/// The account, the open sessions and the failed logins.
#[derive(Debug)]
pub struct AuthService {
    account: Option<LocalAccount>,
    sessions: Table<TokenDigest, Session>,
    login_attempts: Table<String, LoginAttempt>,
}

/// What the service holds, as a mathematical value.
#[verifier::ext_equal]
pub struct AuthView {
    pub account: Option<(Seq<char>, Seq<char>)>,
    pub sessions: Map<Seq<u8>, SessionView>,
    pub attempts: Map<Seq<char>, LoginAttempt>,
}

/// The views of the sessions in a table.
pub open spec fn session_views(m: Map<Seq<u8>, Session>) -> Map<Seq<u8>, SessionView> {
    m.map_values(|s: Session| s@)
}

impl View for AuthService {
    type V = AuthView;

    closed spec fn view(&self) -> AuthView {
        AuthView {
            account: match self.account {
                Some(a) => Some((a.username@, a.password_hash@)),
                None => None,
            },
            sessions: session_views(self.sessions.map()),
            attempts: self.login_attempts.map(),
        }
    }
}

/// The digest under which a token is kept.
pub open spec fn digest_of(token: Seq<char>) -> Seq<u8> {
    crate::crypto::sha256(vstd::utf8::encode_utf8(token))
}

/// The digest of a token.
pub fn digest(value: &str) -> (r: TokenDigest)
    ensures
        r@ == digest_of(value@),
{
    TokenDigest { bytes: sha256_digest(value.as_bytes()) }
}

/// Sessions that have not expired.
pub open spec fn live_sessions(
    m: Map<Seq<u8>, SessionView>,
    now: u64,
) -> Map<Seq<u8>, SessionView> {
    Map::new(|k: Seq<u8>| m.dom().contains(k) && m[k].expires_at > now, |k: Seq<u8>| m[k])
}

/// The time since a moment; none where the moment is still to come.
pub open spec fn elapsed(now: u64, since: u64) -> int {
    if now > since {
        now - since
    } else {
        0
    }
}

/// Failed logins that still count.
pub open spec fn recent_attempts(m: Map<Seq<char>, LoginAttempt>, now: u64) -> Map<
    Seq<char>,
    LoginAttempt,
> {
    Map::new(
        |k: Seq<char>|
            m.dom().contains(k) && elapsed(now, m[k].window_started) < 900_000_000_000,
        |k: Seq<char>| m[k],
    )
}

/// How many seconds a source must wait before it may try again, if it must.
pub open spec fn wait_of(m: Map<Seq<char>, LoginAttempt>, source: Seq<char>, now: u64) -> Option<
    int,
> {
    let recent = recent_attempts(m, now);
    if recent.dom().contains(source) && recent[source].failures >= 5 {
        let secs = (900_000_000_000 - elapsed(now, recent[source].window_started)) / 1_000_000_000;
        Some(
            if secs < 1 {
                1
            } else {
                secs
            },
        )
    } else {
        None
    }
}

/// What is known of a source after one more failed login.
pub open spec fn attempt_after(
    m: Map<Seq<char>, LoginAttempt>,
    source: Seq<char>,
    now: u64,
) -> LoginAttempt {
    if m.dom().contains(source) && elapsed(now, m[source].window_started) < 900_000_000_000 {
        LoginAttempt {
            window_started: m[source].window_started,
            failures: if m[source].failures < u32::MAX {
                (m[source].failures + 1) as u32
            } else {
                u32::MAX
            },
        }
    } else {
        LoginAttempt { window_started: now, failures: 1 }
    }
}

/// The user name is acceptable.
pub open spec fn username_ok(s: Seq<char>) -> bool {
    s.len() > 0 && crate::text::utf8_len(s) <= 128 && !crate::text::has_control(s)
}

/// Checks a user name: 1 to 128 bytes without control characters.
pub fn validate_username(username: &str) -> (r: Result<(), AuthInitError>)
    ensures
        match r {
            Ok(_) => username_ok(username@),
            Err(AuthInitError::InvalidConfig(m)) => !username_ok(username@) && m@
                == "administrator username must be 1-128 non-control characters"@,
            Err(_) => false,
        },
{
    let chars = chars_of(username);
    if chars.len() == 0 || byte_len(username) > 128 || any_control(&chars) {
        return Err(
            AuthInitError::InvalidConfig(
                "administrator username must be 1-128 non-control characters",
            ),
        );
    }
    Ok(())
}

/// Checks a password: 1 to 1024 bytes.
pub fn validate_password(password: &str) -> (r: Result<(), AuthInitError>)
    ensures
        match r {
            Ok(_) => 1 <= password@.len() && crate::text::utf8_len(password@) <= 1_024,
            Err(AuthInitError::InvalidConfig(m)) => !(1 <= password@.len() && crate::text::utf8_len(
                password@,
            ) <= 1_024) && m@ == "administrator password must be 1-1024 bytes"@,
            Err(_) => false,
        },
{
    let chars = chars_of(password);
    if chars.len() == 0 || byte_len(password) > 1_024 {
        return Err(
            AuthInitError::InvalidConfig("administrator password must be 1-1024 bytes"),
        );
    }
    Ok(())
}

/// Checks that a text is a PHC string.
pub fn validate_password_hash(password_hash: &str) -> (r: Result<(), AuthInitError>)
    ensures
        match r {
            Ok(_) => crate::crypto::phc_valid(password_hash@),
            Err(e) => !crate::crypto::phc_valid(password_hash@) && e
                == AuthInitError::InvalidPasswordHash,
        },
{
    match phc_params(password_hash) {
        Ok(_) => Ok(()),
        Err(_) => Err(AuthInitError::InvalidPasswordHash),
    }
}

/// The credentials are those of the account.
pub open spec fn credentials_ok(
    account: Option<(Seq<char>, Seq<char>)>,
    username: Seq<char>,
    password: Seq<char>,
) -> bool {
    &&& crate::text::utf8_len(username) <= 128
    &&& crate::text::utf8_len(password) <= 1_024
    &&& account is Some
    &&& (account->0).0 == username
    &&& crate::crypto::phc_valid((account->0).1)
    &&& crate::crypto::lanes_fit(crate::crypto::phc_params_of((account->0).1)->0)
    &&& crate::crypto::phc_accepts((account->0).1, password)
}

impl LocalAccount {
    /// Checks a user name and password against the account.
    pub fn accepts(&self, username: &str, password: &str) -> (r: bool)
        ensures
            r == credentials_ok(
                Some((self.username@, self.password_hash@)),
                username@,
                password@,
            ),
    {
        if byte_len(username) > 128 || byte_len(password) > 1_024 {
            return false;
        }
        if !str_eq(username, self.username.as_str()) {
            return false;
        }
        let params = match phc_params(self.password_hash.as_str()) {
            Ok(params) => params,
            Err(_) => {
                return false;
            },
        };
        if !lanes_fit(&params) {
            return false;
        }
        argon2_verify(password, self.password_hash.as_str()).is_ok()
    }
}

/// Tells whether Argon2 can take the number of lanes that the parameters of a hash ask for.
pub fn lanes_fit(params: &Vec<(String, Option<u32>)>) -> (r: bool)
    ensures
        r == crate::crypto::lanes_fit(crate::crypto::param_views(params@)),
{
    let ghost views = crate::crypto::param_views(params@);
    let mut i: usize = params.len();
    proof {
        assert(views.take(i as int) =~= views);
    }
    while i > 0
        invariant
            views == crate::crypto::param_views(params@),
            i <= params@.len(),
            crate::crypto::lanes_of(views) == crate::crypto::lanes_of(views.take(i as int)),
        decreases i,
    {
        i = i - 1;
        proof {
            assert(views.take(i + 1).drop_last() =~= views.take(i as int));
            assert(views.take(i + 1).last() == views[i as int]);
            assert(views[i as int] == (params@[i as int].0@, params@[i as int].1));
        }
        if str_eq(params[i].0.as_str(), "p") {
            return match params[i].1 {
                Some(lanes) => lanes < 536_870_912,
                None => true,
            };
        }
    }
    true
}

/// The account to start with: the stored one where there is one, otherwise the configured one.
pub open spec fn initial_account(
    stored: Option<(Seq<char>, Seq<char>)>,
    username: Seq<char>,
    hash: Option<Seq<char>>,
) -> Option<(Seq<char>, Seq<char>)> {
    match stored {
        Some(a) => Some(a),
        None => match hash {
            Some(h) => Some((username, h)),
            None => None,
        },
    }
}

/// The configuration and the account to start with are acceptable.
pub open spec fn initial_account_ok(
    stored: Option<(Seq<char>, Seq<char>)>,
    username: Seq<char>,
    hash: Option<Seq<char>>,
) -> bool {
    &&& username_ok(username)
    &&& match initial_account(stored, username, hash) {
        Some(a) => username_ok(a.0) && crate::crypto::phc_valid(a.1),
        None => true,
    }
}

/// The view of an optional account as it is stored.
pub open spec fn pair_view(p: Option<(String, String)>) -> Option<(Seq<char>, Seq<char>)> {
    match p {
        Some(a) => Some((a.0@, a.1@)),
        None => None,
    }
}

impl AuthService {
    /// Keys of sessions and sources are distinct.
    pub closed spec fn wf(&self) -> bool {
        self.sessions.wf() && self.login_attempts.wf()
    }

    fn from_account(account: Option<LocalAccount>) -> (r: Self)
        ensures
            r.wf(),
            r@ == (AuthView {
                account: match account {
                    Some(a) => Some((a.username@, a.password_hash@)),
                    None => None,
                },
                sessions: Map::empty(),
                attempts: Map::empty(),
            }),
    {
        let r = AuthService { account, sessions: Table::new(), login_attempts: Table::new() };
        proof {
            assert(r@.sessions =~= Map::<Seq<u8>, SessionView>::empty());
        }
        r
    }

    /// Starts with the stored account. Where there is none, the configured one is taken, and also
    /// returned so that it is stored. Without either, nobody can log in.
    pub fn from_repository(
        stored: Option<(String, String)>,
        configured_username: String,
        configured_password_hash: Option<String>,
    ) -> (r: Result<(Self, Option<(String, String)>), AuthInitError>)
        ensures
            match r {
                Ok(started) => {
                    &&& initial_account_ok(
                        pair_view(stored),
                        configured_username@,
                        crate::text::opt_view(configured_password_hash),
                    )
                    &&& started.0.wf()
                    &&& started.0@ == (AuthView {
                        account: initial_account(
                            pair_view(stored),
                            configured_username@,
                            crate::text::opt_view(configured_password_hash),
                        ),
                        sessions: Map::empty(),
                        attempts: Map::empty(),
                    })
                    &&& pair_view(started.1) == if stored is None {
                        started.0@.account
                    } else {
                        None
                    }
                },
                Err(AuthInitError::InvalidConfig(m)) => {
                    &&& !username_ok(configured_username@) || (stored is Some && !username_ok(
                        (stored->0).0@,
                    ))
                    &&& m@ == "administrator username must be 1-128 non-control characters"@
                },
                Err(AuthInitError::InvalidPasswordHash) => {
                    let account = initial_account(
                        pair_view(stored),
                        configured_username@,
                        crate::text::opt_view(configured_password_hash),
                    );
                    &&& username_ok(configured_username@)
                    &&& account is Some
                    &&& username_ok((account->0).0)
                    &&& !crate::crypto::phc_valid((account->0).1)
                },
                Err(AuthInitError::Storage(_)) => false,
            },
    {
        if let Err(e) = validate_username(configured_username.as_str()) {
            return Err(e);
        }
        match stored {
            Some((username, password_hash)) => {
                if let Err(e) = validate_username(username.as_str()) {
                    return Err(e);
                }
                if let Err(e) = validate_password_hash(password_hash.as_str()) {
                    return Err(e);
                }
                Ok((Self::from_account(Some(LocalAccount { username, password_hash })), None))
            },
            None => match configured_password_hash {
                Some(password_hash) => {
                    if let Err(e) = validate_password_hash(password_hash.as_str()) {
                        return Err(e);
                    }
                    let insert = (configured_username.clone(), password_hash.clone());
                    Ok(
                        (
                            Self::from_account(
                                Some(LocalAccount { username: configured_username, password_hash }),
                            ),
                            Some(insert),
                        ),
                    )
                },
                None => Ok((Self::from_account(None), None)),
            },
        }
    }

    /// Starts with an account that has the given password.
    pub fn from_password(username: &str, password: &str) -> (r: Result<Self, AuthInitError>)
        ensures
            match r {
                Ok(auth) => {
                    &&& username_ok(username@)
                    &&& 1 <= password@.len()
                    &&& crate::text::utf8_len(password@) <= 1_024
                    &&& auth.wf()
                    &&& auth@.sessions == Map::<Seq<u8>, SessionView>::empty()
                    &&& auth@.attempts == Map::<Seq<char>, LoginAttempt>::empty()
                    &&& credentials_ok(auth@.account, username@, password@)
                    &&& exists|salt: Seq<char>|
                        crate::crypto::is_salt(salt) && #[trigger] crate::crypto::argon2_hash_of(
                            password@,
                            salt,
                        ) == Some((auth@.account->0).1)
                },
                Err(AuthInitError::InvalidConfig(m)) => if username_ok(username@) {
                    &&& !(1 <= password@.len() && crate::text::utf8_len(password@) <= 1_024)
                    &&& m@ == "administrator password must be 1-1024 bytes"@
                } else {
                    m@ == "administrator username must be 1-128 non-control characters"@
                },
                Err(AuthInitError::InvalidPasswordHash) => {
                    &&& username_ok(username@)
                    &&& 1 <= password@.len()
                    &&& crate::text::utf8_len(password@) <= 1_024
                    &&& exists|salt: Seq<char>|
                        crate::crypto::is_salt(salt) && #[trigger] crate::crypto::argon2_hash_of(
                            password@,
                            salt,
                        ) is None
                },
                Err(AuthInitError::Storage(_)) => false,
            },
    {
        if let Err(e) = validate_username(username) {
            return Err(e);
        }
        if let Err(e) = validate_password(password) {
            return Err(e);
        }
        match Self::hash_password(password) {
            Ok(password_hash) => Ok(
                Self::from_account(
                    Some(LocalAccount { username: username.to_owned(), password_hash }),
                ),
            ),
            Err(_) => Err(AuthInitError::InvalidPasswordHash),
        }
    }

    /// Makes an Argon2id hash of a password, with a salt that is left to chance.
    pub fn hash_password(password: &str) -> (r: Result<String, HashPasswordError>)
        ensures
            match r {
                Ok(hash) => {
                    &&& crate::crypto::phc_valid(hash@)
                    &&& crate::crypto::lanes_fit(crate::crypto::phc_params_of(hash@)->0)
                    &&& crate::crypto::phc_accepts(hash@, password@)
                    &&& exists|salt: Seq<char>|
                        crate::crypto::is_salt(salt) && #[trigger] crate::crypto::argon2_hash_of(
                            password@,
                            salt,
                        ) == Some(hash@)
                },
                Err(_) => exists|salt: Seq<char>|
                    crate::crypto::is_salt(salt) && #[trigger] crate::crypto::argon2_hash_of(
                        password@,
                        salt,
                    ) is None,
            },
    {
        let salt = random_salt();
        match argon2_hash(password, salt.as_str()) {
            Ok(hash) => Ok(hash),
            Err(_) => Err(HashPasswordError {  }),
        }
    }

    /// Tells whether there is an account to log in to.
    pub fn is_configured(&self) -> (r: bool)
        ensures
            r == self@.account is Some,
    {
        self.account.is_some()
    }

    /// Tells how many seconds a source must wait before it may try to log in again, if it must.
    /// Failed logins that no longer count are forgotten.
    pub fn retry_after_secs(&mut self, source: &str, now: u64) -> (r: Option<u64>)
        requires
            old(self).wf(),
        ensures
            final(self).wf(),
            final(self)@ == (AuthView {
                attempts: recent_attempts(old(self)@.attempts, now),
                ..old(self)@
            }),
            match r {
                Some(secs) => wait_of(old(self)@.attempts, source@, now) == Some(secs as int),
                None => wait_of(old(self)@.attempts, source@, now) is None,
            },
    {
        let ghost recent = |k: Seq<char>, a: LoginAttempt|
            elapsed(now, a.window_started) < 900_000_000_000;
        let keep = |k: &String, a: &LoginAttempt| -> (b: bool)
            ensures
                (b == recent(k@, *a)),
        {
            now.saturating_sub(a.window_started) < LOGIN_RATE_LIMIT_WINDOW_NS
        };
        self.login_attempts.retain(keep, Ghost(recent));
        proof {
            assert(self.login_attempts.map() =~= recent_attempts(old(self)@.attempts, now));
        }
        let key = source.to_owned();
        match self.login_attempts.get(&key) {
            None => None,
            Some(attempt) => {
                if attempt.failures < LOGIN_RATE_LIMIT_FAILURES {
                    return None;
                }
                let left: u64 = LOGIN_RATE_LIMIT_WINDOW_NS - now.saturating_sub(
                    attempt.window_started,
                );
                let secs: u64 = left / NANOS_PER_SEC;
                if secs < 1 {
                    Some(1)
                } else {
                    Some(secs)
                }
            },
        }
    }

    /// Checks a user name and password against the account.
    pub fn verify_credentials(&self, username: &str, password: &str) -> (r: bool)
        ensures
            r == credentials_ok(self@.account, username@, password@),
    {
        match &self.account {
            None => false,
            Some(account) => account.accepts(username, password),
        }
    }

    /// Hands out the account, so that credentials can be checked apart from the service.
    pub fn local_account(&self) -> (r: Option<LocalAccount>)
        ensures
            match r {
                Some(a) => self@.account == Some((a.username@, a.password_hash@)),
                None => self@.account is None,
            },
    {
        match &self.account {
            None => None,
            Some(account) => Some(
                LocalAccount {
                    username: account.username.clone(),
                    password_hash: account.password_hash.clone(),
                },
            ),
        }
    }

    /// Counts a failed login from a source. The count starts anew where the last one began too long
    /// ago.
    pub fn record_login_failure(&mut self, source: &str, now: u64)
        requires
            old(self).wf(),
        ensures
            final(self).wf(),
            final(self)@ == (AuthView {
                attempts: old(self)@.attempts.insert(
                    source@,
                    attempt_after(old(self)@.attempts, source@, now),
                ),
                ..old(self)@
            }),
    {
        let key = source.to_owned();
        let attempt = match self.login_attempts.get(&key) {
            Some(known) => if now.saturating_sub(known.window_started)
                >= LOGIN_RATE_LIMIT_WINDOW_NS {
                LoginAttempt { window_started: now, failures: 1 }
            } else {
                LoginAttempt {
                    window_started: known.window_started,
                    failures: known.failures.saturating_add(1),
                }
            },
            None => LoginAttempt { window_started: now, failures: 1 },
        };
        self.login_attempts.insert(key, attempt);
    }

    /// Forgets the failed logins of a source.
    pub fn record_login_success(&mut self, source: &str)
        requires
            old(self).wf(),
        ensures
            final(self).wf(),
            final(self)@ == (AuthView {
                attempts: old(self)@.attempts.remove(source@),
                ..old(self)@
            }),
    {
        let key = source.to_owned();
        self.login_attempts.remove(&key);
    }

    proof fn lemma_session_known(&self, k: Seq<u8>)
        ensures
            self@.sessions.dom().contains(k) == self.sessions.map().dom().contains(k),
            self.sessions.map().dom().contains(k) ==> self@.sessions[k] == self.sessions.map()[k]@,
    {
    }

    /// Forgets the sessions that have expired.
    fn drop_expired(&mut self, now: u64)
        requires
            old(self).wf(),
        ensures
            final(self).wf(),
            final(self)@ == (AuthView {
                sessions: live_sessions(old(self)@.sessions, now),
                ..old(self)@
            }),
    {
        let ghost live = |k: Seq<u8>, s: Session| s.expires_at > now;
        let keep = |k: &TokenDigest, s: &Session| -> (b: bool)
            ensures
                (b == live(k@, *s)),
        {
            s.expires_at > now
        };
        self.sessions.retain(keep, Ghost(live));
        proof {
            assert(self@.sessions =~= live_sessions(old(self)@.sessions, now));
        }
    }

    /// Opens a session with given tokens. Sessions that have expired are forgotten.
    pub fn open_session(&mut self, session_token: &str, csrf_token: &str, now: u64)
        requires
            old(self).wf(),
            now + 43_200_000_000_000 <= u64::MAX,
        ensures
            final(self).wf(),
            final(self)@ == session_opened(old(self)@, session_token@, csrf_token@, now),
    {
        let session = Session {
            csrf_digest: digest(csrf_token),
            expires_at: now + SESSION_TTL_NS,
        };
        self.drop_expired(now);
        let ghost before = self.sessions.map();
        let ghost s = session;
        self.sessions.insert(digest(session_token), session);
        proof {
            assert(session_views(self.sessions.map()) =~= session_views(before).insert(
                digest_of(session_token@),
                s@,
            ));
            assert(s@ =~= SessionView {
                csrf: digest_of(csrf_token@),
                expires_at: (now + 43_200_000_000_000) as u64,
            });
        }
    }

    /// Opens a session with tokens that are left to chance.
    pub fn create_session(&mut self, now: u64) -> (r: SessionCredentials)
        requires
            old(self).wf(),
            now + 43_200_000_000_000 <= u64::MAX,
        ensures
            final(self).wf(),
            is_fresh_token(r.session_token@),
            is_fresh_token(r.csrf_token@),
            final(self)@ == session_opened(old(self)@, r.session_token@, r.csrf_token@, now),
    {
        let session_token = generate_token();
        let csrf_token = generate_token();
        self.open_session(session_token.as_str(), csrf_token.as_str(), now);
        SessionCredentials { session_token, csrf_token }
    }

    /// Tells whether a token opens a session that has not expired.
    pub fn is_session_valid(&mut self, session_token: &str, now: u64) -> (r: bool)
        requires
            old(self).wf(),
        ensures
            final(self).wf(),
            final(self)@ == (AuthView {
                sessions: live_sessions(old(self)@.sessions, now),
                ..old(self)@
            }),
            r == session_ok(old(self)@, session_token@, now),
    {
        self.drop_expired(now);
        proof {
            self.lemma_session_known(digest_of(session_token@));
        }
        self.sessions.get(&digest(session_token)).is_some()
    }

    /// Tells whether a token against forged requests is the one of the session.
    pub fn is_csrf_valid(&mut self, session_token: &str, csrf_token: &str, now: u64) -> (r: bool)
        requires
            old(self).wf(),
        ensures
            final(self).wf(),
            final(self)@ == (AuthView {
                sessions: live_sessions(old(self)@.sessions, now),
                ..old(self)@
            }),
            r == csrf_ok(old(self)@, session_token@, csrf_token@, now),
    {
        self.drop_expired(now);
        proof {
            self.lemma_session_known(digest_of(session_token@));
        }
        match self.sessions.get(&digest(session_token)) {
            None => false,
            Some(session) => {
                let submitted = digest(csrf_token);
                constant_time_equal(&session.csrf_digest.bytes, &submitted.bytes)
            },
        }
    }

    /// Closes a session.
    pub fn invalidate_session(&mut self, session_token: &str)
        requires
            old(self).wf(),
        ensures
            final(self).wf(),
            final(self)@ == (AuthView {
                sessions: old(self)@.sessions.remove(digest_of(session_token@)),
                ..old(self)@
            }),
    {
        let ghost before = self.sessions.map();
        self.sessions.remove(&digest(session_token));
        proof {
            assert(session_views(self.sessions.map()) =~= session_views(before).remove(
                digest_of(session_token@),
            ));
        }
    }
}

/// What the service holds after a session was opened.
pub open spec fn session_opened(
    a: AuthView,
    session_token: Seq<char>,
    csrf_token: Seq<char>,
    now: u64,
) -> AuthView {
    AuthView {
        sessions: live_sessions(a.sessions, now).insert(
            digest_of(session_token),
            SessionView {
                csrf: digest_of(csrf_token),
                expires_at: (now + 43_200_000_000_000) as u64,
            },
        ),
        ..a
    }
}

/// The token opens a session that has not expired.
pub open spec fn session_ok(a: AuthView, session_token: Seq<char>, now: u64) -> bool {
    let k = digest_of(session_token);
    a.sessions.dom().contains(k) && a.sessions[k].expires_at > now
}

/// The token against forged requests is the one of the session, which has not expired.
pub open spec fn csrf_ok(
    a: AuthView,
    session_token: Seq<char>,
    csrf_token: Seq<char>,
    now: u64,
) -> bool {
    session_ok(a, session_token, now) && a.sessions[digest_of(session_token)].csrf == digest_of(
        csrf_token,
    )
}

/// The character may stand in a token.
pub open spec fn is_token_char(c: char) -> bool {
    ('a' <= c <= 'z') || ('A' <= c <= 'Z') || ('0' <= c <= '9') || c == '-' || c == '_' || c == '.'
}

/// The text may be used as a token: 1 to 128 characters that are safe in cookies and forms.
pub open spec fn token_safe(s: Seq<char>) -> bool {
    1 <= s.len() <= 128 && forall|i: int| 0 <= i < s.len() ==> is_token_char(#[trigger] s[i])
}

/// The shape of a token that was left to chance.
pub open spec fn is_fresh_token(s: Seq<char>) -> bool {
    s.len() == 22 && forall|i: int| 0 <= i < s.len() ==> crate::crypto::is_base64url(
        #[trigger] s[i],
    )
}

/// A token that was left to chance may be used as one.
pub proof fn fresh_tokens_are_safe(s: Seq<char>)
    requires
        is_fresh_token(s),
    ensures
        token_safe(s),
{
    assert forall|i: int| 0 <= i < s.len() implies is_token_char(#[trigger] s[i]) by {
        assert(crate::crypto::is_base64url(s[i]));
    }
}

/// The character that stands for one of standard base64 in a token.
pub open spec fn token_char_of(c: char) -> char {
    if c == '+' {
        '-'
    } else if c == '/' {
        '_'
    } else {
        c
    }
}

/// Replaces the characters that are not safe in forms.
pub fn token_from_salt(salt: &str) -> (r: String)
    ensures
        r@ == salt@.map_values(|c: char| token_char_of(c)),
{
    let chars = chars_of(salt);
    let mut out = String::new();
    let mut i: usize = 0;
    while i < chars.len()
        invariant
            chars@ == salt@,
            i <= chars@.len(),
            out@ == salt@.take(i as int).map_values(|c: char| token_char_of(c)),
        decreases chars@.len() - i,
    {
        let c = chars[i];
        out.push(
            if c == '+' {
                '-'
            } else if c == '/' {
                '_'
            } else {
                c
            },
        );
        proof {
            assert(salt@.take(i + 1).map_values(|c: char| token_char_of(c)) =~= salt@.take(
                i as int,
            ).map_values(|c: char| token_char_of(c)).push(token_char_of(c)));
        }
        i = i + 1;
    }
    proof {
        assert(salt@.take(i as int) =~= salt@);
    }
    out
}

/// A token that is left to chance, safe in cookies and forms.
pub fn generate_token() -> (r: String)
    ensures
        is_fresh_token(r@),
{
    let salt = random_salt();
    let token = token_from_salt(salt.as_str());
    proof {
        assert forall|i: int| 0 <= i < token@.len() implies crate::crypto::is_base64url(
            #[trigger] token@[i],
        ) by {
            assert(crate::crypto::is_base64(salt@[i]));
        }
    }
    token
}

/// A token against forged requests, for a visitor without a session.
pub fn generate_csrf_token() -> (r: String)
    ensures
        is_fresh_token(r@),
{
    generate_token()
}

/// Tells whether a text may be used as a token.
pub fn is_token_safe(value: &str) -> (r: bool)
    ensures
        r == token_safe(value@),
{
    let chars = chars_of(value);
    if chars.len() == 0 || chars.len() > 128 {
        return false;
    }
    let mut i: usize = 0;
    while i < chars.len()
        invariant
            chars@ == value@,
            i <= chars@.len(),
            forall|k: int| 0 <= k < i ==> is_token_char(#[trigger] value@[k]),
        decreases chars@.len() - i,
    {
        let c = chars[i];
        let safe = ('a' <= c && c <= 'z') || ('A' <= c && c <= 'Z') || ('0' <= c && c <= '9') || c
            == '-' || c == '_' || c == '.';
        if !safe {
            proof {
                assert(!is_token_char(value@[i as int]));
            }
            return false;
        }
        i = i + 1;
    }
    true
}

/// The value of a cookie that one part of a cookie header gives, if it is about that cookie and
/// safe.
pub open spec fn cookie_in_part(part: Seq<char>, name: Seq<char>) -> Option<Seq<char>> {
    match crate::text::split_once_spec(crate::text::trim_spec(part), '=') {
        None => None,
        Some(pair) => {
            let value = crate::text::trim_end_char_spec(
                crate::text::trim_start_char_spec(crate::text::trim_spec(pair.1), '"'),
                '"',
            );
            if crate::text::trim_spec(pair.0) == name && token_safe(value) {
                Some(value)
            } else {
                None
            }
        },
    }
}

/// The value of a cookie that the first part about it gives.
pub open spec fn cookie_in_parts(parts: Seq<Seq<char>>, name: Seq<char>) -> Option<Seq<char>>
    decreases parts.len(),
{
    if parts.len() == 0 {
        None
    } else {
        match cookie_in_part(parts[0], name) {
            Some(value) => Some(value),
            None => cookie_in_parts(parts.drop_first(), name),
        }
    }
}

/// The value of a cookie in a request.
pub open spec fn cookie_of(header: Option<Seq<char>>, name: Seq<char>) -> Option<Seq<char>> {
    match header {
        None => None,
        Some(h) => cookie_in_parts(crate::text::split_spec(h, ';'), name),
    }
}

fn cookie_from_part(part: &str, name: &str) -> (r: Option<String>)
    ensures
        crate::text::opt_view(r) == cookie_in_part(part@, name@),
{
    let trimmed = trim(part);
    match split_once(trimmed.as_str(), '=') {
        None => None,
        Some((cookie_name, raw)) => {
            let inner = trim(raw.as_str());
            let value = trim_char(inner.as_str(), '"');
            let own_name = trim(cookie_name.as_str());
            if str_eq(own_name.as_str(), name) && is_token_safe(value.as_str()) {
                Some(value)
            } else {
                None
            }
        },
    }
}

/// Finds a cookie in the cookie header of a request.
pub fn cookie_value(header: Option<&str>, name: &str) -> (r: Option<String>)
    ensures
        crate::text::opt_view(r) == cookie_of(crate::storage::opt_str_view(header), name@),
        r is Some ==> token_safe(r->0@),
{
    let text = match header {
        Some(h) => h,
        None => {
            return None;
        },
    };
    let parts = split(text, ';');
    let ghost views = crate::text::views(parts@);
    let mut i: usize = 0;
    proof {
        assert(views.skip(0) =~= views);
    }
    while i < parts.len()
        invariant
            i <= parts@.len(),
            views == crate::text::views(parts@),
            header == Some(text),
            views == crate::text::split_spec(text@, ';'),
            cookie_in_parts(views, name@) == cookie_in_parts(views.skip(i as int), name@),
        decreases parts@.len() - i,
    {
        proof {
            assert(views.skip(i as int)[0] == parts@[i as int]@);
            assert(views.skip(i as int).drop_first() =~= views.skip(i + 1));
        }
        let found = cookie_from_part(parts[i].as_str(), name);
        if found.is_some() {
            return found;
        }
        i = i + 1;
    }
    None
}

/// A cookie as a response sets it.
pub open spec fn cookie_text(
    name: Seq<char>,
    value: Seq<char>,
    max_age_secs: int,
    http_only: bool,
    secure: bool,
) -> Seq<char> {
    name + "="@ + value + "; Path=/; SameSite=Lax; Max-Age="@ + crate::text::decimal_signed(
        max_age_secs,
    ) + (if http_only {
        "; HttpOnly"@
    } else {
        Seq::<char>::empty()
    }) + (if secure {
        "; Secure"@
    } else {
        Seq::<char>::empty()
    })
}

/// Writes a cookie for a response.
pub fn set_cookie(
    name: &str,
    value: &str,
    max_age_secs: i64,
    http_only: bool,
    secure: bool,
) -> (r: String)
    ensures
        r@ == cookie_text(name@, value@, max_age_secs as int, http_only, secure),
{
    let mut out = name.to_owned();
    out.append("=");
    out.append(value);
    out.append("; Path=/; SameSite=Lax; Max-Age=");
    push_decimal_signed(&mut out, max_age_secs);
    if http_only {
        out.append("; HttpOnly");
    }
    if secure {
        out.append("; Secure");
    }
    proof {
        assert(out@ =~= cookie_text(name@, value@, max_age_secs as int, http_only, secure));
    }
    out
}

/// The cookie that holds a session token for as long as the session lasts.
pub open spec fn session_cookie(token: Seq<char>, secure: bool) -> Seq<char> {
    cookie_text(SESSION_COOKIE_NAME@, token, 43_200, true, secure)
}

/// The cookie that holds a token against forged requests for as long as a session lasts.
pub open spec fn csrf_cookie(token: Seq<char>, secure: bool) -> Seq<char> {
    cookie_text(CSRF_COOKIE_NAME@, token, 43_200, false, secure)
}

/// The cookie that removes the session token.
pub open spec fn cleared_session_cookie(secure: bool) -> Seq<char> {
    cookie_text(SESSION_COOKIE_NAME@, ""@, 0, true, secure)
}

/// The cookie that removes the token against forged requests.
pub open spec fn cleared_csrf_cookie(secure: bool) -> Seq<char> {
    cookie_text(CSRF_COOKIE_NAME@, ""@, 0, false, secure)
}

/// Keeps a token against forged requests in the browser.
pub fn set_csrf_cookie(token: &str, secure: bool) -> (r: String)
    ensures
        r@ == csrf_cookie(token@, secure),
{
    set_cookie(CSRF_COOKIE_NAME, token, 43_200, false, secure)
}

/// What to do with a request for a management page.
#[derive(Debug, PartialEq, Eq)]
pub enum AdminDecision {
    /// Serve it.
    Proceed,
    /// Refuse it: a client of the API must authenticate.
    Unauthorized,
    /// Send the browser to the login page, removing its session cookie.
    RedirectToLogin { cookie: String },
}

/// The request has a session that has not expired.
pub open spec fn has_session(a: AuthView, header: Option<Seq<char>>, now: u64) -> bool {
    match cookie_of(header, SESSION_COOKIE_NAME@) {
        Some(token) => session_ok(a, token, now),
        None => false,
    }
}

/// What the service holds after it looked for the session of a request.
pub open spec fn after_session_check(
    a: AuthView,
    header: Option<Seq<char>>,
    now: u64,
) -> AuthView {
    match cookie_of(header, SESSION_COOKIE_NAME@) {
        Some(_) => AuthView { sessions: live_sessions(a.sessions, now), ..a },
        None => a,
    }
}

/// Decides on a request for a management page: it is served where authentication is bypassed or the
/// request has a session. Others are refused under `/api/`, and sent to the login page elsewhere.
pub fn require_admin(
    auth: &mut AuthService,
    dev_bypass_auth: bool,
    secure_cookies: bool,
    cookie_header: Option<&str>,
    path: &str,
    now: u64,
) -> (r: AdminDecision)
    requires
        old(auth).wf(),
    ensures
        final(auth).wf(),
        final(auth)@ == if dev_bypass_auth {
            old(auth)@
        } else {
            after_session_check(old(auth)@, crate::storage::opt_str_view(cookie_header), now)
        },
        match r {
            AdminDecision::Proceed => dev_bypass_auth || has_session(
                old(auth)@,
                crate::storage::opt_str_view(cookie_header),
                now,
            ),
            AdminDecision::Unauthorized => {
                &&& !dev_bypass_auth
                &&& !has_session(
                    old(auth)@,
                    crate::storage::opt_str_view(cookie_header),
                    now,
                )
                &&& "/api/"@.is_prefix_of(path@)
            },
            AdminDecision::RedirectToLogin { cookie } => {
                &&& !dev_bypass_auth
                &&& !has_session(
                    old(auth)@,
                    crate::storage::opt_str_view(cookie_header),
                    now,
                )
                &&& !("/api/"@.is_prefix_of(path@))
                &&& cookie@ == cleared_session_cookie(secure_cookies)
            },
        },
{
    if dev_bypass_auth {
        return AdminDecision::Proceed;
    }
    if let Some(token) = cookie_value(cookie_header, SESSION_COOKIE_NAME) {
        if auth.is_session_valid(token.as_str(), now) {
            return AdminDecision::Proceed;
        }
    }
    if starts_with(path, "/api/") {
        return AdminDecision::Unauthorized;
    }
    AdminDecision::RedirectToLogin {
        cookie: set_cookie(SESSION_COOKIE_NAME, "", 0, true, secure_cookies),
    }
}

/// The request proves that it was not forged: its token is that of its session or, where
/// authentication is bypassed, that of its cookie.
pub open spec fn request_genuine(
    a: AuthView,
    dev_bypass_auth: bool,
    header: Option<Seq<char>>,
    submitted: Seq<char>,
    now: u64,
) -> bool {
    submitted.len() > 0 && if dev_bypass_auth {
        cookie_of(header, CSRF_COOKIE_NAME@) == Some(submitted)
    } else {
        match cookie_of(header, SESSION_COOKIE_NAME@) {
            Some(token) => csrf_ok(a, token, submitted, now),
            None => false,
        }
    }
}

/// Checks the token against forged requests that came with a form or an API call.
pub fn csrf_request_is_valid(
    auth: &mut AuthService,
    dev_bypass_auth: bool,
    cookie_header: Option<&str>,
    submitted_token: &str,
    now: u64,
) -> (r: bool)
    requires
        old(auth).wf(),
    ensures
        final(auth).wf(),
        final(auth)@ == if submitted_token@.len() == 0 || dev_bypass_auth {
            old(auth)@
        } else {
            after_session_check(old(auth)@, crate::storage::opt_str_view(cookie_header), now)
        },
        r == request_genuine(
            old(auth)@,
            dev_bypass_auth,
            crate::storage::opt_str_view(cookie_header),
            submitted_token@,
            now,
        ),
{
    let chars = chars_of(submitted_token);
    if chars.len() == 0 {
        return false;
    }
    if dev_bypass_auth {
        return match cookie_value(cookie_header, CSRF_COOKIE_NAME) {
            Some(cookie) => str_eq(cookie.as_str(), submitted_token),
            None => false,
        };
    }
    match cookie_value(cookie_header, SESSION_COOKIE_NAME) {
        Some(session) => auth.is_csrf_valid(session.as_str(), submitted_token, now),
        None => false,
    }
}

} // verus!
