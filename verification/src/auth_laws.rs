//! What holds of sessions, tokens and the login limit.
use vstd::prelude::*;

use crate::auth::{AuthView, LoginAttempt};

verus! {

/// Whatever tokens chance gives, the session that is opened with them is valid, with its own token
/// against forged requests, for twelve hours and no longer; both tokens may be used in cookies and
/// forms; and every other session that has not expired stays valid, with the token that it had.
pub proof fn opened_sessions_hold(
    a: AuthView,
    token: Seq<char>,
    csrf: Seq<char>,
    other: Seq<char>,
    other_csrf: Seq<char>,
    now: u64,
    later: u64,
)
    requires
        crate::auth::is_fresh_token(token),
        crate::auth::is_fresh_token(csrf),
        now + 43_200_000_000_000 <= u64::MAX,
        now <= later,
    ensures
        ({
            let after = crate::auth::session_opened(a, token, csrf, now);
            let live = later < now + 43_200_000_000_000;
            &&& crate::auth::token_safe(token)
            &&& crate::auth::token_safe(csrf)
            &&& crate::auth::session_ok(after, token, later) == live
            &&& crate::auth::csrf_ok(after, token, csrf, later) == live
            &&& crate::auth::digest_of(other) != crate::auth::digest_of(token) ==> {
                &&& crate::auth::session_ok(after, other, later) == crate::auth::session_ok(
                    a,
                    other,
                    later,
                )
                &&& crate::auth::csrf_ok(after, other, other_csrf, later) == crate::auth::csrf_ok(
                    a,
                    other,
                    other_csrf,
                    later,
                )
            }
        }),
{
    crate::auth::fresh_tokens_are_safe(token);
    crate::auth::fresh_tokens_are_safe(csrf);
}

/// What can happen to the sessions of the service.
pub enum AuthEvent {
    /// A session was opened with a token and a token against forged requests.
    Opened(Seq<char>, Seq<char>, u64),
    /// A session, or its token against forged requests, was asked about.
    Checked(u64),
    /// A session was closed.
    Closed(Seq<char>),
    /// A login was counted, or the count of a source was cleared.
    Counted(Map<Seq<char>, LoginAttempt>),
}

/// What the service holds after an event.
pub open spec fn after_event(a: AuthView, e: AuthEvent) -> AuthView {
    match e {
        AuthEvent::Opened(token, csrf, now) => crate::auth::session_opened(a, token, csrf, now),
        AuthEvent::Checked(now) => AuthView {
            sessions: crate::auth::live_sessions(a.sessions, now),
            ..a
        },
        AuthEvent::Closed(token) => AuthView {
            sessions: a.sessions.remove(crate::auth::digest_of(token)),
            ..a
        },
        AuthEvent::Counted(attempts) => AuthView { attempts, ..a },
    }
}

/// What the service holds after events, one after the other.
pub open spec fn after_events(a: AuthView, events: Seq<AuthEvent>) -> AuthView
    decreases events.len(),
{
    if events.len() == 0 {
        a
    } else {
        after_event(after_events(a, events.drop_last()), events.last())
    }
}

/// The event is not about the session of the token, and does not come after a time.
pub open spec fn passes_by(e: AuthEvent, token: Seq<char>, later: u64) -> bool {
    match e {
        AuthEvent::Opened(other, _, now) => crate::auth::digest_of(other)
            != crate::auth::digest_of(token) && now <= later,
        AuthEvent::Checked(now) => now <= later,
        AuthEvent::Closed(other) => crate::auth::digest_of(other) != crate::auth::digest_of(token),
        AuthEvent::Counted(_) => true,
    }
}

/// Whatever happens to other sessions, a session and its token against forged requests are then
/// what they would have been without it: other sessions can be opened, asked about and closed, and
/// expired ones forgotten.
pub proof fn sessions_are_left_alone(
    a: AuthView,
    events: Seq<AuthEvent>,
    token: Seq<char>,
    csrf: Seq<char>,
    later: u64,
)
    requires
        forall|i: int| 0 <= i < events.len() ==> passes_by(#[trigger] events[i], token, later),
    ensures
        crate::auth::session_ok(after_events(a, events), token, later) == crate::auth::session_ok(
            a,
            token,
            later,
        ),
        crate::auth::csrf_ok(after_events(a, events), token, csrf, later) == crate::auth::csrf_ok(
            a,
            token,
            csrf,
            later,
        ),
    decreases events.len(),
{
    if events.len() > 0 {
        let t = events.drop_last();
        assert forall|i: int| 0 <= i < t.len() implies passes_by(
            #[trigger] t[i],
            token,
            later,
        ) by {
            assert(passes_by(events[i], token, later));
        }
        sessions_are_left_alone(a, t, token, csrf, later);
        assert(passes_by(events[events.len() - 1], token, later));
    }
}

/// A session that was opened, and has not been closed since, is valid for twelve hours and no
/// longer, whatever else happened. For as long it accepts the token against forged requests that
/// was issued with it, and no token with another digest; afterwards it accepts none.
pub proof fn open_sessions_accept_their_own_token(
    a: AuthView,
    token: Seq<char>,
    csrf: Seq<char>,
    now: u64,
    events: Seq<AuthEvent>,
    submitted: Seq<char>,
    later: u64,
)
    requires
        now + 43_200_000_000_000 <= u64::MAX,
        now <= later,
        forall|i: int| 0 <= i < events.len() ==> passes_by(#[trigger] events[i], token, later),
    ensures
        ({
            let b = after_events(crate::auth::session_opened(a, token, csrf, now), events);
            let live = later < now + 43_200_000_000_000;
            &&& crate::auth::session_ok(b, token, later) == live
            &&& crate::auth::csrf_ok(b, token, submitted, later) == (live
                && crate::auth::digest_of(submitted) == crate::auth::digest_of(csrf))
            &&& crate::auth::csrf_ok(b, token, csrf, later) == live
        }),
{
    let opened = crate::auth::session_opened(a, token, csrf, now);
    sessions_are_left_alone(opened, events, token, submitted, later);
    sessions_are_left_alone(opened, events, token, csrf, later);
}

/// A session that was closed stays closed, whatever else happens: neither it nor any token against
/// forged requests is accepted again, until one is opened with the same digest. Closing it leaves
/// every other session as it was, and closing it again changes nothing.
pub proof fn closed_sessions_accept_nothing(
    a: AuthView,
    token: Seq<char>,
    events: Seq<AuthEvent>,
    submitted: Seq<char>,
    other: Seq<char>,
    later: u64,
)
    requires
        forall|i: int| 0 <= i < events.len() ==> passes_by(#[trigger] events[i], token, later),
    ensures
        ({
            let closed = after_event(a, AuthEvent::Closed(token));
            let b = after_events(closed, events);
            &&& !crate::auth::session_ok(b, token, later)
            &&& !crate::auth::csrf_ok(b, token, submitted, later)
            &&& after_event(closed, AuthEvent::Closed(token)) == closed
            &&& crate::auth::digest_of(other) != crate::auth::digest_of(token) ==> {
                &&& crate::auth::session_ok(closed, other, later) == crate::auth::session_ok(
                    a,
                    other,
                    later,
                )
                &&& crate::auth::csrf_ok(closed, other, submitted, later)
                    == crate::auth::csrf_ok(a, other, submitted, later)
            }
            &&& !a.sessions.dom().contains(crate::auth::digest_of(token)) ==> closed == a
        }),
{
    let closed = after_event(a, AuthEvent::Closed(token));
    sessions_are_left_alone(closed, events, token, submitted, later);
    assert(closed.sessions.remove(crate::auth::digest_of(token)) =~= closed.sessions);
    if !a.sessions.dom().contains(crate::auth::digest_of(token)) {
        assert(closed.sessions =~= a.sessions);
    }
}

/// Without a live session no token against forged requests is accepted, and a token that no session
/// was opened with has none.
pub proof fn tokens_need_a_live_session(
    a: AuthView,
    token: Seq<char>,
    submitted: Seq<char>,
    later: u64,
)
    ensures
        !crate::auth::session_ok(a, token, later) ==> !crate::auth::csrf_ok(
            a,
            token,
            submitted,
            later,
        ),
        !a.sessions.dom().contains(crate::auth::digest_of(token)) ==> !crate::auth::session_ok(
            a,
            token,
            later,
        ),
{
}

/// Forgetting expired sessions changes nothing that a later check could see.
pub proof fn forgetting_expired_sessions_is_invisible(
    a: AuthView,
    token: Seq<char>,
    csrf: Seq<char>,
    now: u64,
    later: u64,
)
    requires
        now <= later,
    ensures
        ({
            let b = AuthView { sessions: crate::auth::live_sessions(a.sessions, now), ..a };
            &&& crate::auth::session_ok(b, token, later) == crate::auth::session_ok(
                a,
                token,
                later,
            )
            &&& crate::auth::csrf_ok(b, token, csrf, later) == crate::auth::csrf_ok(
                a,
                token,
                csrf,
                later,
            )
        }),
{
}

/// A failed login counts for its own source alone.
pub proof fn sources_are_limited_apart(
    m: Map<Seq<char>, LoginAttempt>,
    source: Seq<char>,
    other: Seq<char>,
    now: u64,
    later: u64,
)
    requires
        source != other,
    ensures
        crate::auth::wait_of(
            m.insert(source, crate::auth::attempt_after(m, source, now)),
            other,
            later,
        ) == crate::auth::wait_of(m, other, later),
{
    let n = m.insert(source, crate::auth::attempt_after(m, source, now));
    let a = crate::auth::recent_attempts(n, later);
    let b = crate::auth::recent_attempts(m, later);
    assert(a.dom().contains(other) == b.dom().contains(other));
}

/// What is known of a source after a number of failed logins at the same moment.
pub open spec fn failures(
    m: Map<Seq<char>, LoginAttempt>,
    source: Seq<char>,
    now: u64,
    n: nat,
) -> Map<Seq<char>, LoginAttempt>
    decreases n,
{
    if n == 0 {
        m
    } else {
        let before = failures(m, source, now, (n - 1) as nat);
        before.insert(source, crate::auth::attempt_after(before, source, now))
    }
}

/// A source that fails five times must wait; one that fails less need not.
pub proof fn five_failures_lock_a_source(
    m: Map<Seq<char>, LoginAttempt>,
    source: Seq<char>,
    now: u64,
    n: nat,
)
    requires
        !m.dom().contains(source),
        n < 0xffff_ffff,
    ensures
        n > 0 ==> failures(m, source, now, n).dom().contains(source) && failures(
            m,
            source,
            now,
            n,
        )[source] == (LoginAttempt { window_started: now, failures: n as u32 }),
        n == 0 ==> failures(m, source, now, n) == m,
        crate::auth::wait_of(failures(m, source, now, n), source, now) is Some <==> n >= 5,
        n >= 5 ==> crate::auth::wait_of(failures(m, source, now, n), source, now) == Some(900int),
    decreases n,
{
    if n > 0 {
        five_failures_lock_a_source(m, source, now, (n - 1) as nat);
        let before = failures(m, source, now, (n - 1) as nat);
        if n > 1 {
            assert(before[source].failures == n - 1);
        }
    }
    let after = failures(m, source, now, n);
    let recent = crate::auth::recent_attempts(after, now);
    assert(recent.dom().contains(source) == (n > 0));
}

/// A source that must wait need not wait longer than the window, and at least a second.
pub proof fn waiting_is_bounded(m: Map<Seq<char>, LoginAttempt>, source: Seq<char>, now: u64)
    ensures
        match crate::auth::wait_of(m, source, now) {
            Some(secs) => 1 <= secs <= 900,
            None => true,
        },
{
}

/// After a successful login, or once the window has passed, a source need not wait.
pub proof fn success_and_time_unlock(
    m: Map<Seq<char>, LoginAttempt>,
    source: Seq<char>,
    now: u64,
)
    ensures
        crate::auth::wait_of(m.remove(source), source, now) is None,
        m.dom().contains(source) && now >= m[source].window_started + 900_000_000_000
            ==> crate::auth::wait_of(m, source, now) is None,
{
    let a = crate::auth::recent_attempts(m.remove(source), now);
    assert(!a.dom().contains(source));
    let b = crate::auth::recent_attempts(m, now);
    if m.dom().contains(source) && now >= m[source].window_started + 900_000_000_000 {
        assert(!b.dom().contains(source));
    }
}

/// A session cookie that a response sets is found again in the request that sends it back.
pub proof fn cookie_parts_read_back(name: Seq<char>, value: Seq<char>, rest: Seq<Seq<char>>)
    requires
        crate::auth::token_safe(value),
        crate::auth::token_safe(name),
    ensures
        crate::auth::cookie_in_parts(seq![name + seq!['='] + value] + rest, name) == Some(value),
{
    let part = name + seq!['='] + value;
    let parts = seq![part] + rest;
    assert(parts[0] == part);
    lemma_token_trim(name);
    lemma_token_trim(value);
    assert(part[0] == name[0]);
    assert(part.last() == value.last());
    assert(crate::auth::is_token_char(name[0]));
    assert(crate::auth::is_token_char(value[value.len() - 1]));
    assert(crate::text::trim_start_spec(part) == part);
    assert(crate::text::trim_end_spec(part) == part);
    assert(crate::text::trim_spec(part) == part);
    lemma_first_index(name, value);
    assert(part.take(name.len() as int) =~= name);
    assert(part.skip(name.len() as int + 1) =~= value);
    assert(crate::auth::is_token_char(value[0]));
    assert(crate::text::trim_start_char_spec(value, '"') == value);
    assert(crate::text::trim_end_char_spec(value, '"') == value);
}

proof fn lemma_token_trim(s: Seq<char>)
    requires
        crate::auth::token_safe(s),
    ensures
        crate::text::trim_spec(s) == s,
{
    assert(crate::auth::is_token_char(s[0]));
    assert(crate::auth::is_token_char(s[s.len() - 1]));
    assert(crate::text::trim_start_spec(s) == s);
    assert(crate::text::trim_end_spec(s) == s);
}

proof fn lemma_first_index(name: Seq<char>, value: Seq<char>)
    requires
        forall|i: int| 0 <= i < name.len() ==> crate::auth::is_token_char(#[trigger] name[i]),
    ensures
        crate::text::first_index(name + seq!['='] + value, '=') == name.len(),
    decreases name.len(),
{
    let part = name + seq!['='] + value;
    if name.len() == 0 {
        assert(part[0] == '=');
    } else {
        let t = name.drop_first();
        assert(part[0] == name[0]);
        assert(crate::auth::is_token_char(name[0]));
        assert(part.drop_first() =~= t + seq!['='] + value);
        assert forall|i: int| 0 <= i < t.len() implies crate::auth::is_token_char(
            #[trigger] t[i],
        ) by {
            assert(t[i] == name[i + 1]);
        }
        lemma_first_index(t, value);
    }
}

} // verus!
