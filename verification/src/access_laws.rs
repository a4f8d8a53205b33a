//! Who is let in: names and passwords, waiting after failures, cookies, and answers to logins.
use vstd::prelude::*;

use crate::auth::{AuthInitError, AuthService, AuthView, LoginAttempt};
use crate::login::{LoginReply, LoginVerdict, LogoutReply};

verus! {

/// A line loses the marks at its end, all of them and nothing else.
pub proof fn lines_lose_their_end(line: Seq<char>) -> (to: int)
    ensures
        0 <= to <= line.len(),
        crate::auth::without_line_end(line) == line.take(to),
        forall|i: int| to <= i < line.len() ==> #[trigger] line[i] == '\r' || line[i] == '\n',
        to > 0 ==> line[to - 1] != '\r' && line[to - 1] != '\n',
    decreases line.len(),
{
    if line.len() > 0 && (line.last() == '\r' || line.last() == '\n') {
        let rest = line.drop_last();
        let n = lines_lose_their_end(rest);
        assert(rest.take(n) =~= line.take(n));
        assert forall|i: int| n <= i < line.len() implies #[trigger] line[i] == '\r' || line[i]
            == '\n' by {
            if i < line.len() - 1 {
                assert(line[i] == rest[i]);
            }
        }
        n
    } else {
        assert(line.take(line.len() as int) =~= line);
        line.len() as int
    }
}

/// A quarter of an hour, in nanoseconds.
pub open spec fn quarter() -> int {
    15int * 60 * 1_000_000_000
}

/// A source is known to have failed until a quarter of an hour after the first failure.
pub proof fn failures_are_known_for_a_quarter_of_an_hour(
    m: Map<Seq<char>, LoginAttempt>,
    source: Seq<char>,
    now: u64,
)
    ensures
        crate::auth::recent_attempts(m, now).dom().contains(source) <==> m.dom().contains(source)
            && now - m[source].window_started < quarter(),
        crate::auth::recent_attempts(m, now).dom().contains(source)
            ==> crate::auth::recent_attempts(m, now)[source] == m[source],
{
}

/// A source must wait exactly where it has failed five times or more within a quarter of an hour,
/// and then for the whole seconds that are left of it, at least for one.
pub proof fn sources_wait_for_the_rest_of_the_quarter(
    m: Map<Seq<char>, LoginAttempt>,
    source: Seq<char>,
    now: u64,
)
    requires
        m.dom().contains(source) ==> m[source].window_started <= now,
    ensures
        crate::auth::wait_of(m, source, now) is Some <==> m.dom().contains(source)
            && m[source].failures >= 5 && now - m[source].window_started < quarter(),
        crate::auth::wait_of(m, source, now) matches Some(secs) ==> {
            let left = m[source].window_started + quarter() - now;
            &&& left >= 1_000_000_000 ==> secs * 1_000_000_000 <= left < (secs + 1) * 1_000_000_000
            &&& left < 1_000_000_000 ==> secs == 1
        },
{
    failures_are_known_for_a_quarter_of_an_hour(m, source, now);
}

/// A failure is one more of the quarter of an hour that runs, or the first of a new one.
pub proof fn failures_are_counted_by_the_quarter(
    m: Map<Seq<char>, LoginAttempt>,
    source: Seq<char>,
    now: u64,
)
    ensures
        ({
            let after = crate::auth::attempt_after(m, source, now);
            if m.dom().contains(source) && now - m[source].window_started < quarter() {
                &&& after.window_started == m[source].window_started
                &&& m[source].failures < u32::MAX ==> after.failures - m[source].failures == 1
                &&& m[source].failures == u32::MAX ==> after.failures == u32::MAX
            } else {
                after.window_started == now && after.failures == 1
            }
        }),
{
}

/// The name of an account has 1 to 128 bytes and no control character.
pub proof fn account_names_are_bounded(name: Seq<char>)
    ensures
        crate::auth::username_ok(name) <==> {
            &&& name.len() > 0
            &&& vstd::utf8::encode_utf8(name).len() <= 128
            &&& !crate::text_laws::holds_control(name)
        },
{
    if crate::text::has_control(name) {
        let i = choose|i: int|
            0 <= i < name.len() && crate::text::is_control_spec(#[trigger] name[i]);
        assert(name[i] as u32 <= 0x1f || 0x7f <= name[i] as u32 <= 0x9f);
    } else {
        assert forall|i: int| 0 <= i < name.len() implies !((#[trigger] name[i]) as u32 <= 0x1f
            || 0x7f <= name[i] as u32 <= 0x9f) by {
            assert(!crate::text::is_control_spec(name[i]));
        }
    }
}

/// Nobody gets in without an account, under another name than its own, with a password that its
/// hash does not accept, or with one of more than 1024 bytes; and whoever has the right ones does.
pub proof fn only_the_right_credentials_get_in(
    account: Option<(Seq<char>, Seq<char>)>,
    name: Seq<char>,
    password: Seq<char>,
)
    ensures
        crate::auth::credentials_ok(account, name, password) ==> {
            &&& account is Some
            &&& name == (account->0).0
            &&& vstd::utf8::encode_utf8(name).len() <= 128
            &&& vstd::utf8::encode_utf8(password).len() <= 1_024
            &&& crate::crypto::phc_accepts((account->0).1, password)
        },
        account is Some && name == (account->0).0 && vstd::utf8::encode_utf8(name).len() <= 128
            && vstd::utf8::encode_utf8(password).len() <= 1_024 && crate::crypto::phc_valid(
            (account->0).1,
        ) && crate::crypto::lanes_fit(crate::crypto::phc_params_of((account->0).1)->0)
            && crate::crypto::phc_accepts((account->0).1, password)
            ==> crate::auth::credentials_ok(account, name, password),
{
}

/// The account that is stored holds, whatever is configured. Where none is, the configured hash
/// makes one under the configured name.
pub proof fn stored_accounts_come_first(
    stored: Option<(Seq<char>, Seq<char>)>,
    name: Seq<char>,
    hash: Option<Seq<char>>,
)
    ensures
        stored is Some ==> crate::auth::initial_account(stored, name, hash) == stored,
        stored is None && hash is Some ==> crate::auth::initial_account(stored, name, hash) == Some(
            (name, hash->0),
        ),
        stored is None && hash is None ==> crate::auth::initial_account(stored, name, hash) is None,
        crate::auth::initial_account_ok(stored, name, hash) <==> crate::auth::username_ok(name) && (
        stored is Some ==> crate::auth::username_ok((stored->0).0) && crate::crypto::phc_valid(
            (stored->0).1,
        )) && (stored is None && hash is Some ==> crate::crypto::phc_valid(hash->0)),
{
}

/// A token has 1 to 128 letters, digits, hyphens, underscores and points.
pub proof fn tokens_have_safe_characters(s: Seq<char>)
    ensures
        crate::auth::token_safe(s) <==> 1 <= s.len() <= 128 && forall|i: int|
            0 <= i < s.len() ==> may_stand_in_tokens(#[trigger] s[i]),
{
    if crate::auth::token_safe(s) {
        assert forall|i: int| 0 <= i < s.len() implies may_stand_in_tokens(#[trigger] s[i]) by {
            assert(crate::auth::is_token_char(s[i]));
        }
    }
    if forall|i: int| 0 <= i < s.len() ==> may_stand_in_tokens(#[trigger] s[i]) {
        assert forall|i: int| 0 <= i < s.len() implies crate::auth::is_token_char(
            #[trigger] s[i],
        ) by {
            assert(may_stand_in_tokens(s[i]));
        }
    }
}

/// The character may stand in a token.
pub open spec fn may_stand_in_tokens(c: char) -> bool {
    ||| '0' <= c <= '9'
    ||| 'a' <= c <= 'z'
    ||| 'A' <= c <= 'Z'
    ||| c == '-'
    ||| c == '.'
    ||| c == '_'
}

/// The value between quotes, or without them: as many as there are are taken off.
pub open spec fn unquoted(value: Seq<char>) -> Seq<char> {
    crate::text::trim_end_char_spec(crate::text::trim_start_char_spec(value, '"'), '"')
}

/// The part of a header gives a cookie a value: it is the name of the cookie, an equals sign and a
/// token, with blanks around them or quotes around the token.
pub open spec fn gives(part: Seq<char>, name: Seq<char>, value: Seq<char>) -> bool {
    exists|left: Seq<char>, right: Seq<char>|
        {
            &&& #[trigger] (left.push('=') + right) == crate::text::trim_spec(part)
            &&& !left.contains('=')
            &&& crate::text::trim_spec(left) == name
            &&& unquoted(crate::text::trim_spec(right)) == value
            &&& crate::auth::token_safe(value)
        }
}

proof fn lemma_part(part: Seq<char>, name: Seq<char>, value: Seq<char>)
    ensures
        crate::auth::cookie_in_part(part, name) == Some(value) <==> gives(part, name, value),
{
    let core = crate::text::trim_spec(part);
    crate::text_laws::texts_are_parted_at_the_first_separator(core, '=');
    if crate::auth::cookie_in_part(part, name) == Some(value) {
        let (left, right) = crate::text::split_once_spec(core, '=')->0;
        assert(left.push('=') + right == core);
        assert(gives(part, name, value));
    }
    if gives(part, name, value) {
        let (left, right) = choose|left: Seq<char>, right: Seq<char>|
            {
                &&& #[trigger] (left.push('=') + right) == core
                &&& !left.contains('=')
                &&& crate::text::trim_spec(left) == name
                &&& unquoted(crate::text::trim_spec(right)) == value
                &&& crate::auth::token_safe(value)
            };
        let at = left.len() as int;
        assert(core[at] == '=');
        let (a, b) = match crate::text::split_once_spec(core, '=') {
            Some(p) => p,
            None => (core, core),
        };
        assert(core.contains('='));
        assert(a.push('=') + b == core);
        if a.len() < at {
            assert(core[a.len() as int] == '=');
            assert(left[a.len() as int] == '=');
        }
        if a.len() > at {
            assert(a[at] == '=');
        }
        assert(a =~= core.take(at));
        assert(left =~= core.take(at));
        assert(b =~= core.skip(at + 1));
        assert(right =~= core.skip(at + 1));
    }
}

/// A cookie has the value that the first part of the header gives it; where no part gives it one,
/// it has none.
pub proof fn the_first_part_gives_the_cookie(parts: Seq<Seq<char>>, name: Seq<char>)
    ensures
        match crate::auth::cookie_in_parts(parts, name) {
            Some(value) => exists|i: int|
                {
                    &&& 0 <= i < parts.len()
                    &&& gives(#[trigger] parts[i], name, value)
                    &&& forall|j: int, other: Seq<char>|
                        0 <= j < i ==> !#[trigger] gives(parts[j], name, other)
                },
            None => forall|j: int, other: Seq<char>|
                0 <= j < parts.len() ==> !#[trigger] gives(parts[j], name, other),
        },
    decreases parts.len(),
{
    if parts.len() > 0 {
        let rest = parts.drop_first();
        the_first_part_gives_the_cookie(rest, name);
        match crate::auth::cookie_in_part(parts[0], name) {
            Some(value) => {
                lemma_part(parts[0], name, value);
                assert(gives(parts[0], name, value));
            },
            None => {
                assert forall|other: Seq<char>| !#[trigger] gives(parts[0], name, other) by {
                    lemma_part(parts[0], name, other);
                }
                match crate::auth::cookie_in_parts(parts, name) {
                    Some(value) => {
                        let i = choose|i: int|
                            {
                                &&& 0 <= i < rest.len()
                                &&& gives(#[trigger] rest[i], name, value)
                                &&& forall|j: int, other: Seq<char>|
                                    0 <= j < i ==> !#[trigger] gives(rest[j], name, other)
                            };
                        assert(parts[i + 1] == rest[i]);
                        assert forall|j: int, other: Seq<char>|
                            0 <= j < i + 1 implies !#[trigger] gives(
                            parts[j],
                            name,
                            other,
                        ) by {
                            if j > 0 {
                                assert(parts[j] == rest[j - 1]);
                                assert(!gives(rest[j - 1], name, other));
                            }
                        }
                    },
                    None => {
                        assert forall|j: int, other: Seq<char>|
                            0 <= j < parts.len() implies !#[trigger] gives(
                            parts[j],
                            name,
                            other,
                        ) by {
                            if j > 0 {
                                assert(parts[j] == rest[j - 1]);
                                assert(!gives(rest[j - 1], name, other));
                            }
                        }
                    },
                }
            },
        }
    }
}

/// The parts of a header stand between semicolons; without a header there are no cookies.
pub proof fn cookies_stand_between_semicolons(parts: Seq<Seq<char>>, name: Seq<char>)
    requires
        parts.len() >= 1,
        forall|k: int, i: int|
            #![trigger parts[k][i]]
            0 <= k < parts.len() && 0 <= i < parts[k].len() ==> parts[k][i] != ';',
    ensures
        crate::auth::cookie_of(None, name) is None,
        crate::auth::cookie_of(Some(crate::text_laws::joined(parts, ';')), name)
            == crate::auth::cookie_in_parts(parts, name),
{
    crate::text_laws::joined_parts_are_cut_again(parts, ';');
}

/// The cookies of a session hold for twelve hours and only for this site. Scripts cannot read the
/// token of the session. On a secure site they are sent only over secure connections. A session is
/// closed with empty cookies that are over at once.
pub proof fn cookies_are_written_out(token: Seq<char>)
    ensures
        crate::auth::session_cookie(token, false) == "routescope_session"@ + "="@ + token
            + "; Path=/; SameSite=Lax; Max-Age="@ + crate::text::decimal(12 * 60 * 60)
            + "; HttpOnly"@,
        crate::auth::session_cookie(token, true) == crate::auth::session_cookie(token, false)
            + "; Secure"@,
        crate::auth::csrf_cookie(token, false) == "routescope_csrf"@ + "="@ + token
            + "; Path=/; SameSite=Lax; Max-Age="@ + crate::text::decimal(12 * 60 * 60),
        crate::auth::csrf_cookie(token, true) == crate::auth::csrf_cookie(token, false)
            + "; Secure"@,
        crate::auth::cleared_session_cookie(false) == "routescope_session"@ + "="@
            + "; Path=/; SameSite=Lax; Max-Age="@ + crate::text::decimal(0) + "; HttpOnly"@,
        crate::auth::cleared_session_cookie(true) == crate::auth::cleared_session_cookie(false)
            + "; Secure"@,
        crate::auth::cleared_csrf_cookie(false) == "routescope_csrf"@ + "="@
            + "; Path=/; SameSite=Lax; Max-Age="@ + crate::text::decimal(0),
        crate::auth::cleared_csrf_cookie(true) == crate::auth::cleared_csrf_cookie(false)
            + "; Secure"@,
{
    reveal_strlit("");
    let secure = "; Secure"@;
    assert(crate::auth::session_cookie(token, false) =~= "routescope_session"@ + "="@ + token
        + "; Path=/; SameSite=Lax; Max-Age="@ + crate::text::decimal(12 * 60 * 60)
        + "; HttpOnly"@);
    assert(crate::auth::session_cookie(token, true) =~= crate::auth::session_cookie(token, false)
        + secure);
    assert(crate::auth::csrf_cookie(token, false) =~= "routescope_csrf"@ + "="@ + token
        + "; Path=/; SameSite=Lax; Max-Age="@ + crate::text::decimal(12 * 60 * 60));
    assert(crate::auth::csrf_cookie(token, true) =~= crate::auth::csrf_cookie(token, false)
        + secure);
    assert(crate::auth::cleared_session_cookie(false) =~= "routescope_session"@ + "="@
        + "; Path=/; SameSite=Lax; Max-Age="@ + crate::text::decimal(0) + "; HttpOnly"@);
    assert(crate::auth::cleared_session_cookie(true) =~= crate::auth::cleared_session_cookie(false)
        + secure);
    assert(crate::auth::cleared_csrf_cookie(false) =~= "routescope_csrf"@ + "="@
        + "; Path=/; SameSite=Lax; Max-Age="@ + crate::text::decimal(0));
    assert(crate::auth::cleared_csrf_cookie(true) =~= crate::auth::cleared_csrf_cookie(false)
        + secure);
}

/// A session is kept under the digest of its token until twelve hours after it was opened. It is
/// found by that token alone, and by no header without it.
pub proof fn requests_need_the_token_of_a_session(a: AuthView, header: Option<Seq<char>>, now: u64)
    ensures
        crate::auth::has_session(a, header, now) <==> exists|token: Seq<char>|
            {
                &&& crate::auth::cookie_of(header, "routescope_session"@) == Some(token)
                &&& a.sessions.dom().contains(#[trigger] crate::auth::digest_of(token))
                &&& now < a.sessions[crate::auth::digest_of(token)].expires_at
            },
{
    match crate::auth::cookie_of(header, "routescope_session"@) {
        Some(token) => {
            let d = crate::auth::digest_of(token);
        },
        None => {},
    }
}

/// A request that changes something must bring a token that is not empty: the one that was given
/// out with the session, or, where logins are skipped, the one in the browser's own cookie.
pub proof fn changes_need_the_token_of_their_session(
    a: AuthView,
    header: Option<Seq<char>>,
    submitted: Seq<char>,
    now: u64,
)
    ensures
        crate::auth::request_genuine(a, true, header, submitted, now) <==> submitted.len() > 0
            && crate::auth::cookie_of(header, "routescope_csrf"@) == Some(submitted),
        crate::auth::request_genuine(a, false, header, submitted, now) ==> submitted.len() > 0
            && crate::auth::has_session(a, header, now),
        submitted.len() > 0 ==> (crate::auth::request_genuine(a, false, header, submitted, now)
            <==> exists|token: Seq<char>|
            {
                &&& crate::auth::cookie_of(header, "routescope_session"@) == Some(token)
                &&& a.sessions.dom().contains(#[trigger] crate::auth::digest_of(token))
                &&& now < a.sessions[crate::auth::digest_of(token)].expires_at
                &&& a.sessions[crate::auth::digest_of(token)].csrf == crate::auth::digest_of(
                    submitted,
                )
            }),
{
    requests_need_the_token_of_a_session(a, header, now);
    match crate::auth::cookie_of(header, "routescope_session"@) {
        Some(token) => {
            let d = crate::auth::digest_of(token);
        },
        None => {},
    }
}

/// Asking for a session forgets those that are over, and changes nothing else.
pub proof fn asking_forgets_what_is_over(
    a: AuthView,
    header: Option<Seq<char>>,
    now: u64,
    k: Seq<u8>,
)
    ensures
        ({
            let after = crate::auth::after_session_check(a, header, now);
            &&& after.account == a.account
            &&& after.attempts == a.attempts
            &&& crate::auth::cookie_of(header, "routescope_session"@) is None ==> after == a
            &&& crate::auth::cookie_of(header, "routescope_session"@) is Some ==> (
            after.sessions.dom().contains(k) <==> a.sessions.dom().contains(k) && now
                < a.sessions[k].expires_at)
            &&& after.sessions.dom().contains(k) ==> a.sessions.dom().contains(k)
                && after.sessions[k] == a.sessions[k]
        }),
{
}

/// The text without the blanks around it, where something is left.
pub open spec fn is_filled(s: Option<Seq<char>>) -> bool {
    s is Some && crate::text::trim_spec(s->0).len() > 0
}

/// The source of a login is the address at the other end. Where that is not known, it is the first
/// address that the request was forwarded for, else the address that a proxy names.
pub proof fn logins_come_from_the_other_end(
    remote: Option<Seq<char>>,
    forwarded_for: Option<Seq<char>>,
    real_ip: Option<Seq<char>>,
)
    ensures
        ({
            let source = crate::login::source_of(remote, forwarded_for, real_ip);
            let first = match forwarded_for {
                Some(list) => Some(crate::text::split_spec(list, ',')[0]),
                None => None,
            };
            &&& remote is Some ==> source == remote->0
            &&& remote is None && is_filled(first) ==> source == crate::text::trim_spec(first->0)
            &&& remote is None && !is_filled(first) && is_filled(real_ip) ==> source
                == crate::text::trim_spec(real_ip->0)
            &&& remote is None && !is_filled(first) && !is_filled(real_ip) ==> source == "unknown"@
        }),
{
}

/// Answers to logins have these statuses and texts.
pub proof fn logins_are_answered(reply: LoginReply)
    ensures
        reply is Forbidden ==> reply.status_code() == 403 && reply.text()
            == "登录请求已失效，请刷新页面后重试。"@,
        reply is NotConfigured ==> reply.status_code() == 503 && reply.text()
            == "No local administrator account is configured."@,
        reply is TooManyRequests ==> reply.status_code() == 429 && reply.text()
            == "Too many failed login attempts. Try again later."@,
        reply is Unauthorized ==> reply.status_code() == 401 && reply.text()
            == "用户名或密码错误。"@,
        reply is LoggedIn ==> reply.status_code() == 303 && reply.text().len() == 0,
{
    reveal_strlit("");
}

/// A login is decided by what is wrong with it first: the form does not come from this browser,
/// there is no account, the source must wait, or the credentials are wrong. It is right where
/// nothing is wrong with it.
pub proof fn logins_are_decided_in_order(
    a: AuthView,
    cookies: Option<Seq<char>>,
    csrf_token: Seq<char>,
    source: Seq<char>,
    name: Seq<char>,
    password: Seq<char>,
    now: u64,
)
    ensures
        ({
            let v = crate::login::verdict(a, cookies, csrf_token, source, name, password, now);
            let forged = crate::auth::cookie_of(cookies, "routescope_csrf"@) != Some(csrf_token);
            let waits = crate::auth::wait_of(a.attempts, source, now);
            let right = crate::auth::credentials_ok(a.account, name, password);
            &&& v is Forged <==> forged
            &&& v is NotConfigured <==> !forged && a.account is None
            &&& v is Limited <==> !forged && a.account is Some && waits is Some
            &&& v matches LoginVerdict::Limited(secs) ==> waits == Some(secs)
            &&& v is Right <==> !forged && a.account is Some && waits is None && right
            &&& v is Wrong <==> !forged && a.account is Some && waits is None && !right
        }),
{
}

/// A login that failed is counted for its source, and opens and closes no session.
pub proof fn failed_logins_open_nothing(
    a: AuthView,
    source: Seq<char>,
    other: Seq<char>,
    now: u64,
)
    requires
        other != source,
    ensures
        ({
            let after = crate::login::login_failed(a, source, now);
            &&& after.account == a.account
            &&& after.sessions == a.sessions
            &&& after.attempts.dom().contains(source)
            &&& after.attempts[source].failures >= 1
            &&& a.attempts.dom().contains(source) && now - a.attempts[source].window_started
                < quarter() && a.attempts[source].failures < u32::MAX
                ==> after.attempts[source].failures == a.attempts[source].failures + 1
                && after.attempts[source].window_started == a.attempts[source].window_started
            &&& !a.attempts.dom().contains(source) || now - a.attempts[source].window_started
                >= quarter() ==> after.attempts[source].failures == 1
                && after.attempts[source].window_started == now
            &&& after.attempts.dom().contains(other) <==> a.attempts.dom().contains(other) && now
                - a.attempts[other].window_started < quarter()
            &&& after.attempts.dom().contains(other) ==> after.attempts[other] == a.attempts[other]
        }),
{
    let checked = crate::login::attempts_checked(a, now);
    failures_are_known_for_a_quarter_of_an_hour(a.attempts, source, now);
    failures_are_known_for_a_quarter_of_an_hour(a.attempts, other, now);
}

/// A login that succeeded clears the count of its source, and opens one session for twelve hours.
pub proof fn successful_logins_open_one_session(
    a: AuthView,
    source: Seq<char>,
    token: Seq<char>,
    csrf: Seq<char>,
    now: u64,
    k: Seq<u8>,
)
    requires
        now + 12 * 60 * 60 * 1_000_000_000 <= u64::MAX,
    ensures
        ({
            let after = crate::login::login_succeeded(a, source, token, csrf, now);
            let d = crate::auth::digest_of(token);
            &&& after.account == a.account
            &&& !after.attempts.dom().contains(source)
            &&& after.sessions.dom().contains(d)
            &&& after.sessions[d].csrf == crate::auth::digest_of(csrf)
            &&& after.sessions[d].expires_at - now == 12 * 60 * 60 * 1_000_000_000
            &&& k != d ==> (after.sessions.dom().contains(k) <==> a.sessions.dom().contains(k)
                && now < a.sessions[k].expires_at)
            &&& k != d && after.sessions.dom().contains(k) ==> after.sessions[k] == a.sessions[k]
        }),
{
}

/// The token of a logout comes from the form, else from the header.
pub proof fn logouts_bring_their_token(form: Option<Seq<char>>, header: Option<Seq<char>>)
    ensures
        form is Some ==> crate::login::logout_token(form, header) == form->0,
        form is None && header is Some ==> crate::login::logout_token(form, header) == header->0,
        form is None && header is None ==> crate::login::logout_token(form, header).len() == 0,
{
    reveal_strlit("");
}

/// Why the accounts could not be set up is told.
pub proof fn setup_errors_are_told(e: AuthInitError)
    ensures
        e matches AuthInitError::Storage(m) ==> e.text() == "authentication storage error: "@ + m@,
        e matches AuthInitError::InvalidConfig(m) ==> e.text()
            == "invalid authentication config: "@ + m@,
        e is InvalidPasswordHash ==> e.text()
            == "configured password hash is not a valid Argon2 PHC string"@,
{
}

/// A login succeeds exactly where its form comes from this browser, there is an account, the source
/// need not wait and the credentials are right. It then opens a session, under the digest of the
/// token that is in the cookie, for twelve hours.
pub proof fn logins_succeed_with_the_right_credentials(
    secure: bool,
    cookies: Option<&str>,
    source: &str,
    name: &str,
    password: &str,
    csrf_token: &str,
    now: u64,
)
    requires
        now + 12 * 60 * 60 * 1_000_000_000 <= u64::MAX,
    ensures
        forall|auth: &mut AuthService, r: LoginReply| #[trigger]
            call_ensures(
                crate::login::login,
                (auth, secure, cookies, source, name, password, csrf_token, now),
                r,
            ) ==> {
                let a = (*auth)@;
                let b = (*final(auth))@;
                &&& r is LoggedIn <==> crate::auth::cookie_of(
                    crate::storage::opt_str_view(cookies),
                    "routescope_csrf"@,
                ) == Some(csrf_token@) && a.account is Some && crate::auth::wait_of(
                    a.attempts,
                    source@,
                    now,
                ) is None && crate::auth::credentials_ok(a.account, name@, password@)
                &&& b.account == a.account
                &&& !(r is LoggedIn) ==> b.sessions == a.sessions
                &&& r is LoggedIn ==> exists|token: Seq<char>, csrf: Seq<char>|
                    {
                        &&& r->session_cookie@ == #[trigger] crate::auth::session_cookie(
                            token,
                            secure,
                        )
                        &&& r->csrf_cookie@ == #[trigger] crate::auth::csrf_cookie(csrf, secure)
                        &&& b.sessions.dom().contains(crate::auth::digest_of(token))
                        &&& b.sessions[crate::auth::digest_of(token)].csrf == crate::auth::digest_of(
                            csrf,
                        )
                        &&& b.sessions[crate::auth::digest_of(token)].expires_at - now == 12 * 60
                            * 60 * 1_000_000_000
                    }
                &&& r is LoggedIn ==> !b.attempts.dom().contains(source@)
                &&& r is Unauthorized ==> b.attempts.dom().contains(source@)
                    && b.attempts[source@].failures >= 1
                &&& r is TooManyRequests <==> crate::auth::cookie_of(
                    crate::storage::opt_str_view(cookies),
                    "routescope_csrf"@,
                ) == Some(csrf_token@) && a.account is Some && crate::auth::wait_of(
                    a.attempts,
                    source@,
                    now,
                ) is Some
            },
{
}

/// A logout closes the session of the request where its token comes with it; without a session
/// there is nothing to close, and with a wrong token nothing is.
pub proof fn logouts_close_their_own_session(
    secure: bool,
    cookies: Option<&str>,
    form_token: Option<&str>,
    header_token: Option<&str>,
    now: u64,
)
    ensures
        forall|auth: &mut AuthService, r: LogoutReply| #[trigger]
            call_ensures(
                crate::login::logout,
                (auth, secure, cookies, form_token, header_token, now),
                r,
            ) ==> {
                let a = (*auth)@;
                let b = (*final(auth))@;
                let cookie = crate::auth::cookie_of(
                    crate::storage::opt_str_view(cookies),
                    "routescope_session"@,
                );
                let brought = crate::login::logout_token(
                    crate::storage::opt_str_view(form_token),
                    crate::storage::opt_str_view(header_token),
                );
                &&& b.account == a.account
                &&& b.attempts == a.attempts
                &&& r is Forbidden <==> cookie is Some && !crate::auth::csrf_ok(
                    a,
                    cookie->0,
                    brought,
                    now,
                )
                &&& cookie is None ==> b == a
                &&& !(r is Forbidden) && cookie is Some ==> !b.sessions.dom().contains(
                    crate::auth::digest_of(cookie->0),
                )
                &&& forall|k: Seq<u8>|
                    cookie is Some && (r is Forbidden || k != crate::auth::digest_of(cookie->0))
                        ==> (#[trigger] b.sessions.dom().contains(k) <==> a.sessions.dom().contains(
                        k,
                    ) && now < a.sessions[k].expires_at)
            },
{
}

} // verus!
