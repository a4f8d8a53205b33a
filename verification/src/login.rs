//! Logging in and out.
use vstd::prelude::*;
use vstd::string::*;

use crate::auth::{
    cookie_value, generate_csrf_token, set_cookie, AuthService, CSRF_COOKIE_NAME,
    SESSION_COOKIE_NAME,
};
use crate::text::{chars_of, split, str_eq, trim};

verus! {

/// A trimmed text that is not blank.
pub open spec fn filled(s: Option<Seq<char>>) -> Option<Seq<char>> {
    match s {
        Some(v) => if crate::text::trim_spec(v).len() > 0 {
            Some(crate::text::trim_spec(v))
        } else {
            None
        },
        None => None,
    }
}

/// The address that a login comes from: that of the connection where it is known, otherwise what
/// proxies say.
pub open spec fn source_of(
    remote: Option<Seq<char>>,
    forwarded_for: Option<Seq<char>>,
    real_ip: Option<Seq<char>>,
) -> Seq<char> {
    match remote {
        Some(address) => address,
        None => match filled(
            match forwarded_for {
                Some(list) => Some(crate::text::split_spec(list, ',')[0]),
                None => None,
            },
        ) {
            Some(address) => address,
            None => match filled(real_ip) {
                Some(address) => address,
                None => "unknown"@,
            },
        },
    }
}

fn fill(s: Option<&str>) -> (r: Option<String>)
    ensures
        crate::text::opt_view(r) == filled(crate::storage::opt_str_view(s)),
{
    match s {
        Some(v) => {
            let trimmed = trim(v);
            if chars_of(trimmed.as_str()).len() > 0 {
                Some(trimmed)
            } else {
                None
            }
        },
        None => None,
    }
}

/// Finds the address that a login comes from.
pub fn login_source(
    remote: Option<&str>,
    forwarded_for: Option<&str>,
    real_ip: Option<&str>,
) -> (r: String)
    ensures
        r@ == source_of(
            crate::storage::opt_str_view(remote),
            crate::storage::opt_str_view(forwarded_for),
            crate::storage::opt_str_view(real_ip),
        ),
{
    if let Some(address) = remote {
        return address.to_owned();
    }
    if let Some(list) = forwarded_for {
        let parts = split(list, ',');
        proof {
            crate::text::lemma_split_nonempty(list@, ',');
            assert(crate::text::views(parts@).len() == parts@.len());
            assert(crate::text::views(parts@)[0] == parts@[0]@);
        }
        if let Some(address) = fill(Some(parts[0].as_str())) {
            return address;
        }
    }
    match fill(real_ip) {
        Some(address) => address,
        None => "unknown".to_owned(),
    }
}

/// How a login is answered.
#[derive(Debug, PartialEq, Eq)]
pub enum LoginReply {
    /// The form was not made for this browser; it gets a new one.
    Forbidden { csrf_token: String },
    /// There is no account.
    NotConfigured,
    /// Too many logins from this source have failed.
    TooManyRequests { retry_after_secs: u64 },
    /// The credentials are wrong; the browser gets a new form.
    Unauthorized { csrf_token: String },
    /// A session was opened.
    LoggedIn { session_cookie: String, csrf_cookie: String },
}

impl LoginReply {
    /// The HTTP status of the answer.
    pub open spec fn status_code(self) -> u16 {
        match self {
            LoginReply::Forbidden { .. } => 403,
            LoginReply::NotConfigured => 503,
            LoginReply::TooManyRequests { .. } => 429,
            LoginReply::Unauthorized { .. } => 401,
            LoginReply::LoggedIn { .. } => 303,
        }
    }

    /// What the answer says to the user; nothing where the browser is sent on.
    pub open spec fn text(self) -> Seq<char> {
        match self {
            LoginReply::Forbidden { .. } => "登录请求已失效，请刷新页面后重试。"@,
            LoginReply::NotConfigured => "No local administrator account is configured."@,
            LoginReply::TooManyRequests { .. } =>
            "Too many failed login attempts. Try again later."@,
            LoginReply::Unauthorized { .. } => "用户名或密码错误。"@,
            LoginReply::LoggedIn { .. } => ""@,
        }
    }

    /// The HTTP status of the answer.
    pub fn status(&self) -> (r: u16)
        ensures
            r == self.status_code(),
    {
        match self {
            LoginReply::Forbidden { .. } => 403,
            LoginReply::NotConfigured => 503,
            LoginReply::TooManyRequests { .. } => 429,
            LoginReply::Unauthorized { .. } => 401,
            LoginReply::LoggedIn { .. } => 303,
        }
    }

    /// What the answer says to the user.
    pub fn message(&self) -> (r: &'static str)
        ensures
            r@ == self.text(),
    {
        match self {
            LoginReply::Forbidden { .. } => "登录请求已失效，请刷新页面后重试。",
            LoginReply::NotConfigured => "No local administrator account is configured.",
            LoginReply::TooManyRequests { .. } =>
            "Too many failed login attempts. Try again later.",
            LoginReply::Unauthorized { .. } => "用户名或密码错误。",
            LoginReply::LoggedIn { .. } => "",
        }
    }
}

/// What is decided about a login.
pub enum LoginVerdict {
    Forged,
    NotConfigured,
    Limited(int),
    Wrong,
    Right,
}

/// Decides about a login, in this order: the form must come from this browser, there must be an
/// account, the source must not have failed too often, and the credentials must be right.
pub open spec fn verdict(
    a: crate::auth::AuthView,
    cookies: Option<Seq<char>>,
    csrf_token: Seq<char>,
    source: Seq<char>,
    username: Seq<char>,
    password: Seq<char>,
    now: u64,
) -> LoginVerdict {
    if crate::auth::cookie_of(cookies, CSRF_COOKIE_NAME@) != Some(csrf_token) {
        LoginVerdict::Forged
    } else if a.account is None {
        LoginVerdict::NotConfigured
    } else {
        match crate::auth::wait_of(a.attempts, source, now) {
            Some(secs) => LoginVerdict::Limited(secs),
            None => if crate::auth::credentials_ok(a.account, username, password) {
                LoginVerdict::Right
            } else {
                LoginVerdict::Wrong
            },
        }
    }
}

/// What the service holds after the failed logins that no longer count were forgotten.
pub open spec fn attempts_checked(a: crate::auth::AuthView, now: u64) -> crate::auth::AuthView {
    crate::auth::AuthView { attempts: crate::auth::recent_attempts(a.attempts, now), ..a }
}

/// What the service holds after a login with wrong credentials.
pub open spec fn login_failed(
    a: crate::auth::AuthView,
    source: Seq<char>,
    now: u64,
) -> crate::auth::AuthView {
    let checked = attempts_checked(a, now);
    crate::auth::AuthView {
        attempts: checked.attempts.insert(
            source,
            crate::auth::attempt_after(checked.attempts, source, now),
        ),
        ..checked
    }
}

/// What the service holds after a login that opened a session.
pub open spec fn login_succeeded(
    a: crate::auth::AuthView,
    source: Seq<char>,
    session_token: Seq<char>,
    csrf_token: Seq<char>,
    now: u64,
) -> crate::auth::AuthView {
    let checked = attempts_checked(a, now);
    crate::auth::session_opened(
        crate::auth::AuthView { attempts: checked.attempts.remove(source), ..checked },
        session_token,
        csrf_token,
        now,
    )
}

/// Decides about a login before its credentials are looked at: the answer where it is refused, and
/// nothing where the credentials decide.
pub fn check_login(
    auth: &mut AuthService,
    cookie_header: Option<&str>,
    source: &str,
    csrf_token: &str,
    now: u64,
) -> (r: Option<LoginReply>)
    requires
        old(auth).wf(),
    ensures
        final(auth).wf(),
        ({
            let a = old(auth)@;
            let b = final(auth)@;
            if crate::auth::cookie_of(
                crate::storage::opt_str_view(cookie_header),
                CSRF_COOKIE_NAME@,
            ) != Some(csrf_token@) {
                b == a && (r matches Some(LoginReply::Forbidden { csrf_token: t })
                    && crate::auth::is_fresh_token(t@))
            } else if a.account is None {
                b == a && r == Some(LoginReply::NotConfigured)
            } else {
                b == attempts_checked(a, now) && match crate::auth::wait_of(
                    a.attempts,
                    source@,
                    now,
                ) {
                    Some(secs) => r matches Some(LoginReply::TooManyRequests { retry_after_secs })
                        && retry_after_secs == secs,
                    None => r is None,
                }
            }
        }),
{
    let genuine = match cookie_value(cookie_header, CSRF_COOKIE_NAME) {
        Some(cookie) => str_eq(cookie.as_str(), csrf_token),
        None => false,
    };
    if !genuine {
        return Some(LoginReply::Forbidden { csrf_token: generate_csrf_token() });
    }
    if !auth.is_configured() {
        return Some(LoginReply::NotConfigured);
    }
    match auth.retry_after_secs(source, now) {
        Some(retry_after_secs) => Some(LoginReply::TooManyRequests { retry_after_secs }),
        None => None,
    }
}

/// Answers a login whose credentials were looked at: a wrong one is counted; a right one clears the
/// count of its source and opens a session.
pub fn settle_login(
    auth: &mut AuthService,
    secure_cookies: bool,
    source: &str,
    right: bool,
    now: u64,
) -> (r: LoginReply)
    requires
        old(auth).wf(),
        now + 43_200_000_000_000 <= u64::MAX,
    ensures
        final(auth).wf(),
        ({
            let a = old(auth)@;
            let b = final(auth)@;
            if right {
                r matches LoginReply::LoggedIn { session_cookie, csrf_cookie } && exists|
                    session: Seq<char>,
                    csrf: Seq<char>,
                |
                    {
                        &&& crate::auth::is_fresh_token(session)
                        &&& crate::auth::is_fresh_token(csrf)
                        &&& b == #[trigger] crate::auth::session_opened(
                            crate::auth::AuthView { attempts: a.attempts.remove(source@), ..a },
                            session,
                            csrf,
                            now,
                        )
                        &&& session_cookie@ == crate::auth::session_cookie(session, secure_cookies)
                        &&& csrf_cookie@ == crate::auth::csrf_cookie(csrf, secure_cookies)
                    }
            } else {
                r matches LoginReply::Unauthorized { csrf_token } && crate::auth::is_fresh_token(
                    csrf_token@,
                ) && b == (crate::auth::AuthView {
                    attempts: a.attempts.insert(
                        source@,
                        crate::auth::attempt_after(a.attempts, source@, now),
                    ),
                    ..a
                })
            }
        }),
{
    if !right {
        auth.record_login_failure(source, now);
        return LoginReply::Unauthorized { csrf_token: generate_csrf_token() };
    }
    auth.record_login_success(source);
    let session = auth.create_session(now);
    LoginReply::LoggedIn {
        session_cookie: set_cookie(
            SESSION_COOKIE_NAME,
            session.session_token.as_str(),
            43_200,
            true,
            secure_cookies,
        ),
        csrf_cookie: set_cookie(
            CSRF_COOKIE_NAME,
            session.csrf_token.as_str(),
            43_200,
            false,
            secure_cookies,
        ),
    }
}

/// Answers a login. Nothing is recorded of one that is forged; a failed one is counted; a
/// successful one clears the count of its source and opens a session.
pub fn login(
    auth: &mut AuthService,
    secure_cookies: bool,
    cookie_header: Option<&str>,
    source: &str,
    username: &str,
    password: &str,
    csrf_token: &str,
    now: u64,
) -> (r: LoginReply)
    requires
        old(auth).wf(),
        now + 43_200_000_000_000 <= u64::MAX,
    ensures
        final(auth).wf(),
        ({
            let a = old(auth)@;
            let b = final(auth)@;
            match (
                r,
                verdict(
                    a,
                    crate::storage::opt_str_view(cookie_header),
                    csrf_token@,
                    source@,
                    username@,
                    password@,
                    now,
                ),
            ) {
                (LoginReply::Forbidden { csrf_token: t }, LoginVerdict::Forged) => b == a
                    && crate::auth::is_fresh_token(t@),
                (LoginReply::NotConfigured, LoginVerdict::NotConfigured) => b == a,
                (LoginReply::TooManyRequests { retry_after_secs }, LoginVerdict::Limited(secs)) =>
                retry_after_secs == secs && b == attempts_checked(a, now),
                (LoginReply::Unauthorized { csrf_token: t }, LoginVerdict::Wrong) => b
                    == login_failed(a, source@, now) && crate::auth::is_fresh_token(t@),
                (LoginReply::LoggedIn { session_cookie, csrf_cookie }, LoginVerdict::Right) =>
                exists|session: Seq<char>, csrf: Seq<char>|
                    {
                        &&& crate::auth::is_fresh_token(session)
                        &&& crate::auth::is_fresh_token(csrf)
                        &&& b == #[trigger] login_succeeded(a, source@, session, csrf, now)
                        &&& session_cookie@ == crate::auth::session_cookie(session, secure_cookies)
                        &&& csrf_cookie@ == crate::auth::csrf_cookie(csrf, secure_cookies)
                    },
                _ => false,
            }
        }),
{
    if let Some(refusal) = check_login(auth, cookie_header, source, csrf_token, now) {
        return refusal;
    }
    let right = auth.verify_credentials(username, password);
    let ghost checked = auth@;
    let reply = settle_login(auth, secure_cookies, source, right, now);
    proof {
        if right {
            let (session, csrf) = choose|session: Seq<char>, csrf: Seq<char>|
                {
                    &&& crate::auth::is_fresh_token(session)
                    &&& crate::auth::is_fresh_token(csrf)
                    &&& auth@ == #[trigger] crate::auth::session_opened(
                        crate::auth::AuthView {
                            attempts: checked.attempts.remove(source@),
                            ..checked
                        },
                        session,
                        csrf,
                        now,
                    )
                    &&& reply->session_cookie@ == crate::auth::session_cookie(
                        session,
                        secure_cookies,
                    )
                    &&& reply->csrf_cookie@ == crate::auth::csrf_cookie(csrf, secure_cookies)
                };
            assert(auth@ == login_succeeded(old(auth)@, source@, session, csrf, now));
        }
    }
    reply
}

/// How a logout is answered.
#[derive(Debug, PartialEq, Eq)]
pub enum LogoutReply {
    /// The request may be forged.
    Forbidden,
    /// The session, if there was one, is closed, and the browser forgets its cookies.
    LoggedOut { session_cookie: String, csrf_cookie: String },
}

/// The token that came with a logout: that of the form, otherwise that of the header.
pub open spec fn logout_token(form: Option<Seq<char>>, header: Option<Seq<char>>) -> Seq<char> {
    match form {
        Some(t) => t,
        None => match header {
            Some(t) => t,
            None => ""@,
        },
    }
}

/// Answers a logout: a browser with a session cookie must prove that the request is its own, and
/// its session is closed.
pub fn logout(
    auth: &mut AuthService,
    secure_cookies: bool,
    cookie_header: Option<&str>,
    form_token: Option<&str>,
    header_token: Option<&str>,
    now: u64,
) -> (r: LogoutReply)
    requires
        old(auth).wf(),
    ensures
        final(auth).wf(),
        ({
            let a = old(auth)@;
            let submitted = logout_token(
                crate::storage::opt_str_view(form_token),
                crate::storage::opt_str_view(header_token),
            );
            let checked = crate::auth::AuthView {
                sessions: crate::auth::live_sessions(a.sessions, now),
                ..a
            };
            match (
                r,
                crate::auth::cookie_of(
                    crate::storage::opt_str_view(cookie_header),
                    SESSION_COOKIE_NAME@,
                ),
            ) {
                (LogoutReply::Forbidden, Some(token)) => {
                    &&& !crate::auth::csrf_ok(a, token, submitted, now)
                    &&& final(auth)@ == checked
                },
                (LogoutReply::Forbidden, None) => false,
                (LogoutReply::LoggedOut { session_cookie, csrf_cookie }, cookie) => {
                    &&& session_cookie@ == crate::auth::cleared_session_cookie(secure_cookies)
                    &&& csrf_cookie@ == crate::auth::cleared_csrf_cookie(secure_cookies)
                    &&& match cookie {
                        Some(token) => {
                            &&& crate::auth::csrf_ok(a, token, submitted, now)
                            &&& final(auth)@ == (crate::auth::AuthView {
                                sessions: checked.sessions.remove(crate::auth::digest_of(token)),
                                ..checked
                            })
                        },
                        None => final(auth)@ == a,
                    }
                },
            }
        }),
{
    if let Some(token) = cookie_value(cookie_header, SESSION_COOKIE_NAME) {
        let submitted = match form_token {
            Some(t) => t,
            None => match header_token {
                Some(t) => t,
                None => "",
            },
        };
        if !auth.is_csrf_valid(token.as_str(), submitted, now) {
            return LogoutReply::Forbidden;
        }
        auth.invalidate_session(token.as_str());
    }
    LogoutReply::LoggedOut {
        session_cookie: set_cookie(SESSION_COOKIE_NAME, "", 0, true, secure_cookies),
        csrf_cookie: set_cookie(CSRF_COOKIE_NAME, "", 0, false, secure_cookies),
    }
}

/// The token against forged requests for a page: that of the browser's cookie, otherwise a new one.
pub fn page_csrf_token(cookie_header: Option<&str>) -> (r: String)
    ensures
        match crate::auth::cookie_of(
            crate::storage::opt_str_view(cookie_header),
            CSRF_COOKIE_NAME@,
        ) {
            Some(token) => r@ == token,
            None => crate::auth::is_fresh_token(r@),
        },
{
    match cookie_value(cookie_header, CSRF_COOKIE_NAME) {
        Some(token) => token,
        None => generate_csrf_token(),
    }
}

} // verus!
