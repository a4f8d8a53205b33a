use routescope::auth::{
    constant_time_equal, cookie_value, csrf_request_is_valid, digest, generate_csrf_token,
    is_token_safe, lanes_fit, password_from_line, require_admin, set_cookie, set_csrf_cookie,
    token_from_salt, validate_password_hash, validate_username, AdminDecision, AuthInitError,
    AuthService,
    LOGIN_RATE_LIMIT_FAILURES, LOGIN_RATE_LIMIT_WINDOW_NS, SESSION_TTL_NS,
};
use routescope::login::{login, login_source, logout, page_csrf_token, LoginReply, LogoutReply};

#[test]
fn password_hash_verifies_and_session_requires_csrf() {
    let mut auth = AuthService::from_password("admin", "correct horse").ok().unwrap();

    assert!(auth.verify_credentials("admin", "correct horse"));
    assert!(!auth.verify_credentials("admin", "wrong horse"));

    let session = auth.create_session(0);
    assert!(auth.is_session_valid(&session.session_token, 0));
    assert!(!auth.is_csrf_valid(&session.session_token, "wrong", 0));
    assert!(auth.is_csrf_valid(&session.session_token, &session.csrf_token, 0));

    auth.invalidate_session(&session.session_token);
    assert!(!auth.is_session_valid(&session.session_token, 0));
}

#[test]
fn failed_logins_are_limited_per_source() {
    let mut auth = AuthService::from_password("admin", "secret").ok().unwrap();

    for _ in 0..LOGIN_RATE_LIMIT_FAILURES {
        auth.record_login_failure("192.0.2.10", 0);
    }

    assert!(auth.retry_after_secs("192.0.2.10", 0).is_some());
    assert!(auth.retry_after_secs("192.0.2.11", 0).is_none());
    auth.record_login_success("192.0.2.10");
    assert!(auth.retry_after_secs("192.0.2.10", 0).is_none());
}

#[test]
fn waiting_ends_with_the_window() {
    let mut auth = AuthService::from_password("admin", "secret").ok().unwrap();
    for _ in 0..LOGIN_RATE_LIMIT_FAILURES - 1 {
        auth.record_login_failure("a", 5);
    }
    assert_eq!(auth.retry_after_secs("a", 5), None);
    auth.record_login_failure("a", 5);
    assert_eq!(auth.retry_after_secs("a", 5), Some(900));
    assert_eq!(auth.retry_after_secs("a", 5 + LOGIN_RATE_LIMIT_WINDOW_NS - 1), Some(1));
    assert_eq!(auth.retry_after_secs("a", 5 + LOGIN_RATE_LIMIT_WINDOW_NS), None);
}

#[test]
fn sessions_end_after_their_lifetime() {
    let mut auth = AuthService::from_password("admin", "secret").ok().unwrap();
    let session = auth.create_session(7);
    let other = auth.create_session(7);
    assert_ne!(session.session_token, other.session_token);
    assert!(auth.is_session_valid(&session.session_token, 7 + SESSION_TTL_NS - 1));
    assert!(!auth.is_csrf_valid(&session.session_token, &other.csrf_token, 8));
    assert!(!auth.is_session_valid(&session.session_token, 7 + SESSION_TTL_NS));
}

#[test]
fn hashes_are_salted_and_checked() {
    let first = AuthService::hash_password("secret").ok().unwrap();
    let second = AuthService::hash_password("secret").ok().unwrap();
    assert_ne!(first, second);
    assert_ne!(first, "secret");
    assert!(validate_password_hash(&first).is_ok());
    assert!(matches!(
        validate_password_hash("secret"),
        Err(AuthInitError::InvalidPasswordHash)
    ));
    let started = AuthService::from_repository(
        Some(("root".to_owned(), first)),
        "admin".to_owned(),
        None,
    );
    let (auth, account) = started.ok().unwrap();
    assert!(account.is_none());
    assert!(auth.verify_credentials("root", "secret"));
    assert!(!auth.verify_credentials("admin", "secret"));
    assert!(!auth.verify_credentials("root", &"x".repeat(1_025)));
}

#[test]
fn accounts_are_checked_when_they_are_configured() {
    assert!(validate_username("admin").is_ok());
    let error = validate_username("").err().unwrap();
    assert_eq!(
        error.message(),
        "invalid authentication config: administrator username must be 1-128 non-control characters"
    );
    assert!(validate_username(&"a".repeat(129)).is_err());
    assert!(validate_username("a\nb").is_err());
    let error = AuthService::from_password("admin", "").err().unwrap();
    assert_eq!(
        error.message(),
        "invalid authentication config: administrator password must be 1-1024 bytes"
    );
    assert_eq!(
        AuthInitError::Storage("locked".to_owned()).message(),
        "authentication storage error: locked"
    );
    assert_eq!(
        AuthInitError::InvalidPasswordHash.message(),
        "configured password hash is not a valid Argon2 PHC string"
    );
    let none = AuthService::from_repository(None, "admin".to_owned(), None);
    let (auth, account) = none.ok().unwrap();
    assert!(account.is_none());
    assert!(!auth.is_configured());
    assert!(!auth.verify_credentials("admin", ""));
    let bad = AuthService::from_repository(None, "admin".to_owned(), Some("x".to_owned()));
    assert!(matches!(bad, Err(AuthInitError::InvalidPasswordHash)));
}

#[test]
fn digests_are_those_of_sha256() {
    let empty = digest("");
    assert_eq!(empty.bytes[0], 0xe3);
    assert_eq!(empty.bytes[31], 0x55);
    assert_eq!(empty.bytes.len(), 32);
    assert!(constant_time_equal(&digest("a").bytes, &digest("a").bytes));
    assert!(!constant_time_equal(&digest("a").bytes, &digest("b").bytes));
}

#[test]
fn tokens_are_safe_in_cookies() {
    let token = generate_csrf_token();
    assert_eq!(token.len(), 22);
    assert!(is_token_safe(&token));
    assert_ne!(token, generate_csrf_token());
    assert_eq!(token_from_salt("a+b/c"), "a-b_c");
    assert!(!is_token_safe(""));
    assert!(!is_token_safe("a b"));
    assert!(!is_token_safe(&"a".repeat(129)));
}

#[test]
fn cookies_are_written_and_read() {
    assert_eq!(
        set_cookie("n", "v", 60, true, true),
        "n=v; Path=/; SameSite=Lax; Max-Age=60; HttpOnly; Secure"
    );
    assert_eq!(
        set_csrf_cookie("t", false),
        "routescope_csrf=t; Path=/; SameSite=Lax; Max-Age=43200"
    );
    let header = "a=1; routescope_csrf = \"tok-1\" ; b=2";
    assert_eq!(cookie_value(Some(header), "routescope_csrf"), Some("tok-1".to_owned()));
    assert_eq!(cookie_value(Some(header), "a"), Some("1".to_owned()));
    assert_eq!(cookie_value(Some("a=b c; a=2"), "a"), Some("2".to_owned()));
    assert_eq!(cookie_value(Some(header), "c"), None);
    assert_eq!(cookie_value(None, "a"), None);
}

#[test]
fn management_pages_need_a_session() {
    let mut auth = AuthService::from_password("admin", "secret").ok().unwrap();
    assert_eq!(
        require_admin(&mut auth, true, false, None, "/api/v1/devices", 0),
        AdminDecision::Proceed
    );
    assert_eq!(
        require_admin(&mut auth, false, false, None, "/api/v1/devices", 0),
        AdminDecision::Unauthorized
    );
    assert_eq!(
        require_admin(&mut auth, false, true, None, "/devices", 0),
        AdminDecision::RedirectToLogin {
            cookie: "routescope_session=; Path=/; SameSite=Lax; Max-Age=0; HttpOnly; Secure"
                .to_owned()
        }
    );
    let session = auth.create_session(0);
    let header = format!("routescope_session={}", session.session_token);
    assert_eq!(
        require_admin(&mut auth, false, false, Some(&header), "/devices", 0),
        AdminDecision::Proceed
    );
    assert!(csrf_request_is_valid(&mut auth, false, Some(&header), &session.csrf_token, 0));
    assert!(!csrf_request_is_valid(&mut auth, false, Some(&header), "other", 0));
    assert!(!csrf_request_is_valid(&mut auth, false, Some(&header), "", 0));
    assert!(csrf_request_is_valid(&mut auth, true, Some("routescope_csrf=t"), "t", 0));
    assert!(!csrf_request_is_valid(&mut auth, true, None, "t", 0));
}

fn pair(cookie: &str) -> String {
    cookie.split(';').next().unwrap().to_owned()
}

#[test]
fn logins_open_sessions_and_logouts_close_them() {
    let mut auth = AuthService::from_password("admin", "secret").ok().unwrap();
    let cookie = Some("routescope_csrf=form");

    let forged = login(&mut auth, false, None, "a", "admin", "secret", "form", 0);
    assert_eq!(forged.status(), 403);
    assert_eq!(forged.message(), "登录请求已失效，请刷新页面后重试。");
    let wrong = login(&mut auth, false, cookie, "a", "admin", "no", "form", 0);
    assert_eq!(wrong.status(), 401);
    assert_eq!(wrong.message(), "用户名或密码错误。");

    let right = login(&mut auth, false, cookie, "a", "admin", "secret", "form", 0);
    assert_eq!(right.status(), 303);
    let (session, csrf) = match right {
        LoginReply::LoggedIn { session_cookie, csrf_cookie } => {
            (pair(&session_cookie), pair(&csrf_cookie))
        }
        _ => panic!("expected a session"),
    };
    let token = csrf.split('=').nth(1).unwrap().to_owned();
    let header = format!("{session}; {csrf}");
    assert_eq!(
        require_admin(&mut auth, false, false, Some(&header), "/", 0),
        AdminDecision::Proceed
    );
    assert_eq!(
        logout(&mut auth, false, Some(&header), None, Some("other"), 0),
        LogoutReply::Forbidden
    );
    assert!(matches!(
        logout(&mut auth, false, Some(&header), None, Some(&token), 0),
        LogoutReply::LoggedOut { .. }
    ));
    assert_eq!(
        require_admin(&mut auth, false, false, Some(&header), "/api/x", 0),
        AdminDecision::Unauthorized
    );
}

#[test]
fn logins_are_refused_without_account_and_after_failures() {
    let cookie = Some("routescope_csrf=form");
    let (mut empty, _) =
        AuthService::from_repository(None, "admin".to_owned(), None).ok().unwrap();
    let reply = login(&mut empty, false, cookie, "a", "admin", "x", "form", 0);
    assert_eq!(reply, LoginReply::NotConfigured);
    assert_eq!(reply.status(), 503);

    let mut auth = AuthService::from_password("admin", "secret").ok().unwrap();
    for _ in 0..LOGIN_RATE_LIMIT_FAILURES {
        auth.record_login_failure("a", 0);
    }
    let reply = login(&mut auth, false, cookie, "a", "admin", "secret", "form", 0);
    assert_eq!(reply, LoginReply::TooManyRequests { retry_after_secs: 900 });
    assert_eq!(reply.status(), 429);
}

#[test]
fn login_sources_prefer_the_peer() {
    assert_eq!(login_source(Some("10.0.0.1"), Some("1.1.1.1"), None), "10.0.0.1");
    assert_eq!(login_source(None, Some(" 1.1.1.1 , 2.2.2.2"), Some("3.3.3.3")), "1.1.1.1");
    assert_eq!(login_source(None, Some(" , 2.2.2.2"), Some(" 3.3.3.3 ")), "3.3.3.3");
    assert_eq!(login_source(None, None, Some(" ")), "unknown");
    assert_eq!(page_csrf_token(Some("routescope_csrf=t1")), "t1");
    assert_eq!(page_csrf_token(None).len(), 22);
}

#[test]
fn passwords_are_taken_from_a_line() {
    assert_eq!(password_from_line("secret\r\n").unwrap(), "secret");
    assert_eq!(password_from_line(" a b \n\n").unwrap(), " a b ");
    assert_eq!(password_from_line("\r\n").unwrap_err(), "password must not be empty");
}

#[test]
fn hashes_with_too_many_lanes_accept_nothing() {
    let salt = "c29tZXNhbHQ";
    let output = "AAAAAAAAAAAAAA";
    for lanes in ["p=536870912", "p=4294967295", "p=1,p=536870912"] {
        let hash = format!("$argon2id$v=19$m=19456,t=2,{lanes}${salt}${output}");
        assert!(validate_password_hash(&hash).is_ok());
        let stored = Some(("admin".to_owned(), hash));
        let (auth, _) =
            AuthService::from_repository(stored, "admin".to_owned(), None).ok().unwrap();
        assert!(!auth.verify_credentials("admin", "secret"));
    }
    let pair = |name: &str, value: u32| (name.to_owned(), Some(value));
    assert!(lanes_fit(&vec![pair("m", u32::MAX), pair("p", 536_870_911)]));
    assert!(!lanes_fit(&vec![pair("p", 1), pair("p", 536_870_912)]));
    assert!(lanes_fit(&vec![pair("p", 536_870_912), pair("p", 1)]));
}

#[test]
fn fresh_sessions_leave_others_alone() {
    let mut auth = AuthService::from_password("admin", "secret").ok().unwrap();
    let first = auth.create_session(10);
    let second = auth.create_session(20);
    assert!(is_token_safe(&first.session_token) && is_token_safe(&first.csrf_token));
    let end = 10 + SESSION_TTL_NS;
    assert!(auth.is_csrf_valid(&first.session_token, &first.csrf_token, end - 1));
    assert!(auth.is_csrf_valid(&second.session_token, &second.csrf_token, end - 1));
    assert!(!auth.is_csrf_valid(&first.session_token, &second.csrf_token, end - 1));
    assert!(!auth.is_session_valid(&first.session_token, end));
    assert!(auth.is_session_valid(&second.session_token, end));
    assert!(auth.is_csrf_valid(&second.session_token, &second.csrf_token, end + 9));
    assert!(!auth.is_csrf_valid(&second.session_token, &second.csrf_token, end + 10));
}

#[test]
fn closed_sessions_accept_nothing() {
    let mut auth = AuthService::from_password("admin", "secret").ok().unwrap();
    let first = auth.create_session(10);
    let second = auth.create_session(20);
    assert!(!auth.is_csrf_valid(&first.session_token, "", 30));
    assert!(!auth.is_csrf_valid("unknown", &first.csrf_token, 30));
    auth.invalidate_session(&first.session_token);
    auth.invalidate_session(&first.session_token);
    auth.invalidate_session("unknown");
    let third = auth.create_session(30);
    assert!(!auth.is_session_valid(&first.session_token, 40));
    assert!(!auth.is_csrf_valid(&first.session_token, &first.csrf_token, 40));
    assert!(auth.is_csrf_valid(&second.session_token, &second.csrf_token, 40));
    assert!(auth.is_csrf_valid(&third.session_token, &third.csrf_token, 40));
}
