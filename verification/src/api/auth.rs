//! Dashboard authentication: throttling login attempts per client address,
//! checking credentials, the claims of an issued token, and which requests must
//! carry one.
use vstd::prelude::*;

use crate::config::DashboardConfig;
use crate::provider::manager::{find_id, lemma_find_id, lemma_find_push};
use crate::text::{ends_with, starts_with, str_ends_with, str_eq, str_strip_prefix, string_from};

verus! {

/// How long a window of login attempts lasts, in seconds.
pub const LOGIN_WINDOW_SECS: u64 = 60;

/// How many login attempts a client address may make in one window.
pub const MAX_LOGIN_ATTEMPTS: u32 = 5;

/// How long an issued token is valid, in seconds.
pub const TOKEN_LIFETIME_SECS: u64 = 86400;

/// The attempts one client address made in its current window.
#[derive(Debug)]
pub struct LoginRecord {
    pub ip: String,
    pub count: u32,
    pub window_start: u64,
}

/// The login attempts of every client address seen, one record each.
#[derive(Debug)]
pub struct LoginAttempts {
    pub records: Vec<LoginRecord>,
}

/// One step of the limiter for a client whose record is `entry` (none yet: an
/// empty window starting now): whether the attempt is let through, and the record
/// afterwards. A window older than 60 seconds restarts with this attempt; in a
/// live window the sixth and later attempts are refused.
pub open spec fn rate_step(entry: Option<(u32, u64)>, now: u64) -> (bool, (u32, u64)) {
    let (count, start) = match entry {
        Some(e) => e,
        None => (0u32, now),
    };
    if now - start > LOGIN_WINDOW_SECS {
        (true, (1u32, now))
    } else if count >= MAX_LOGIN_ATTEMPTS {
        (false, (count, start))
    } else {
        (true, ((count + 1) as u32, start))
    }
}

impl LoginAttempts {
    /// The client addresses, in order of first attempt.
    pub open spec fn ips(&self) -> Seq<Seq<char>> {
        Seq::new(self.records@.len(), |i: int| self.records@[i].ip@)
    }

    /// The record of `ip`: its count and window start.
    pub open spec fn record_of(&self, ip: Seq<char>) -> Option<(u32, u64)> {
        let i = find_id(self.ips(), ip);
        if i >= 0 {
            Some((self.records@[i].count, self.records@[i].window_start))
        } else {
            None
        }
    }

    /// One record per address.
    pub open spec fn wf(&self) -> bool {
        forall|i: int, j: int| 0 <= i < j < self.ips().len() ==> self.ips()[i] != self.ips()[j]
    }

    pub fn new() -> (r: LoginAttempts)
        ensures
            r.wf(),
            forall|ip: Seq<char>| r.record_of(ip) is None,
    {
        LoginAttempts { records: Vec::new() }
    }

    fn index_of(&self, ip: &str) -> (r: Option<usize>)
        ensures
            match r {
                Some(i) => i < self.records@.len() && find_id(self.ips(), ip@) == i as int,
                None => find_id(self.ips(), ip@) < 0,
            },
    {
        proof {
            lemma_find_id(self.ips(), ip@);
        }
        let mut i: usize = 0;
        while i < self.records.len()
            invariant
                i <= self.records@.len(),
                -1 <= find_id(self.ips(), ip@) < self.ips().len(),
                find_id(self.ips(), ip@) >= 0 ==> self.ips()[find_id(self.ips(), ip@)] == ip@,
                find_id(self.ips(), ip@) >= 0 ==> forall|j: int|
                    0 <= j < find_id(self.ips(), ip@) ==> self.ips()[j] != ip@,
                find_id(self.ips(), ip@) < 0 ==> forall|j: int| 0 <= j < self.ips().len() ==> self.ips()[j] != ip@,
                forall|j: int| 0 <= j < i ==> self.ips()[j] != ip@,
            decreases self.records.len() - i,
        {
            if str_eq(self.records[i].ip.as_str(), ip) {
                assert(self.ips()[i as int] == ip@);
                return Some(i);
            }
            i = i + 1;
        }
        None
    }
}

/// Records a login attempt from `ip` at `now` (seconds since the epoch) and says
/// whether it may proceed. The clock must not have gone back behind the start of
/// `ip`'s window.
pub fn check_rate_limit(attempts: &mut LoginAttempts, ip: &str, now: u64) -> (r: bool)
    requires
        old(attempts).wf(),
        old(attempts).record_of(ip@) matches Some((c, s)) ==> s <= now,
    ensures
        final(attempts).wf(),
        r == rate_step(old(attempts).record_of(ip@), now).0,
        final(attempts).record_of(ip@) == Some(rate_step(old(attempts).record_of(ip@), now).1),
        forall|other: Seq<char>| other != ip@ ==> final(attempts).record_of(other) == old(attempts).record_of(other),
{
    let ghost old_ips = attempts.ips();
    let ghost old_att = *attempts;
    proof {
        lemma_find_id(old_ips, ip@);
    }
    let i: usize = match attempts.index_of(ip) {
        Some(i) => i,
        None => {
            attempts.records.push(LoginRecord { ip: string_from(ip), count: 0, window_start: now });
            assert(attempts.ips() =~= old_ips.push(ip@));
            proof {
                lemma_find_push(old_ips, ip@, ip@);
                assert forall|other: Seq<char>| other != ip@ implies find_id(attempts.ips(), other) == find_id(old_ips, other) by {
                    lemma_find_push(old_ips, ip@, other);
                }
                assert forall|a: int, b: int| 0 <= a < b < attempts.ips().len() implies attempts.ips()[a] != attempts.ips()[b] by {
                    if b == old_ips.len() {
                        assert(old_ips[a] != ip@);
                    }
                }
                assert forall|other: Seq<char>| other != ip@ implies attempts.record_of(other) == old_att.record_of(other) by {
                    lemma_find_push(old_ips, ip@, other);
                    lemma_find_id(old_ips, other);
                    if find_id(old_ips, other) >= 0 {
                        assert(attempts.records@[find_id(old_ips, other)] == old_att.records@[find_id(old_ips, other)]);
                    }
                }
            }
            attempts.records.len() - 1
        },
    };
    let ghost mid = *attempts;
    proof {
        lemma_find_id(mid.ips(), ip@);
    }
    let count: u32 = attempts.records[i].count;
    let start: u64 = attempts.records[i].window_start;
    assert(mid.record_of(ip@) == Some((count, start)));
    assert(rate_step(old_att.record_of(ip@), now) == rate_step(Some((count, start)), now));
    let (allowed, count2, start2): (bool, u32, u64) = if now - start > LOGIN_WINDOW_SECS {
        (true, 1u32, now)
    } else if count >= MAX_LOGIN_ATTEMPTS {
        (false, count, start)
    } else {
        (true, count + 1, start)
    };
    let ip_owned = string_from(attempts.records[i].ip.as_str());
    attempts.records.set(i, LoginRecord { ip: ip_owned, count: count2, window_start: start2 });
    assert(attempts.ips() =~= mid.ips());
    proof {
        assert forall|other: Seq<char>| other != ip@ implies attempts.record_of(other) == mid.record_of(other) by {
            lemma_find_id(mid.ips(), other);
            if find_id(mid.ips(), other) >= 0 {
                assert(find_id(mid.ips(), other) != i);
            }
        }
    }
    allowed
}

/// Running the limiter over attempts at `times`, in order, from record `entry`:
/// how many were let through, and the record afterwards.
pub open spec fn rate_run(entry: Option<(u32, u64)>, times: Seq<u64>) -> (nat, Option<(u32, u64)>)
    decreases times.len(),
{
    if times.len() == 0 {
        (0, entry)
    } else {
        let prev = rate_run(entry, times.drop_last());
        let step = rate_step(prev.1, times.last());
        (if step.0 { prev.0 + 1 } else { prev.0 }, Some(step.1))
    }
}

/// Law: within one window no more than five attempts get through. From a record
/// that counted `c` attempts in the window starting at `w`, any attempts made no
/// earlier than `w` and at most 60 seconds after it let at most `5 - c` more
/// through, and the window stays the same.
pub proof fn lemma_rate_limit_window(c: u32, w: u64, times: Seq<u64>)
    requires
        c <= MAX_LOGIN_ATTEMPTS,
        forall|i: int| 0 <= i < times.len() ==> w <= #[trigger] times[i] && times[i] - w <= LOGIN_WINDOW_SECS,
    ensures
        rate_run(Some((c, w)), times).0 + c <= MAX_LOGIN_ATTEMPTS,
        rate_run(Some((c, w)), times).1 == Some(((c + rate_run(Some((c, w)), times).0) as u32, w)),
    decreases times.len(),
{
    if times.len() > 0 {
        let pre = times.drop_last();
        assert forall|i: int| 0 <= i < pre.len() implies w <= #[trigger] pre[i] && pre[i] - w <= LOGIN_WINDOW_SECS by {
            assert(pre[i] == times[i]);
        }
        lemma_rate_limit_window(c, w, pre);
        assert(times.last() == times[times.len() - 1]);
    }
}

/// Law: the limiter lets at most five attempts through per window. A record that
/// counts at most five attempts still does after any attempt; a full live window
/// refuses and stays as it is; an attempt let through in a live window is counted.
pub proof fn lemma_rate_limit_bound(entry: Option<(u32, u64)>, now: u64)
    requires
        entry matches Some((c, s)) ==> c <= MAX_LOGIN_ATTEMPTS && s <= now,
    ensures
        rate_step(entry, now).1.0 <= MAX_LOGIN_ATTEMPTS,
        rate_step(entry, now).1.1 <= now,
        entry matches Some((c, s)) && c == MAX_LOGIN_ATTEMPTS && now - s <= LOGIN_WINDOW_SECS
            ==> !rate_step(entry, now).0 && rate_step(entry, now).1 == entry.unwrap(),
        rate_step(entry, now).0 ==> rate_step(entry, now).1.0 >= 1,
        entry matches Some((c, s)) && now - s > LOGIN_WINDOW_SECS ==> rate_step(entry, now) == (true, (1u32, now)),
{
}

/// What a dashboard token claims: its user, when it expires and when it was
/// issued (seconds since the epoch).
#[derive(Debug)]
pub struct Claims {
    pub sub: String,
    pub exp: u64,
    pub iat: u64,
}

/// How a login request is answered.
#[derive(Debug)]
pub enum LoginDecision {
    /// Too many attempts from this address in the current window.
    TooManyAttempts,
    /// The user name or password is wrong.
    InvalidCredentials,
    /// A token with these claims is to be issued.
    Issue(Claims),
}

/// The user name the dashboard accepts.
pub open spec fn expected_username(dashboard: DashboardConfig) -> Seq<char> {
    match dashboard.username {
        Some(u) => u@,
        None => "astrbot"@,
    }
}

/// The password the dashboard accepts.
pub open spec fn expected_password(dashboard: DashboardConfig) -> Seq<char> {
    match dashboard.password {
        Some(p) => p@,
        None => "astrbot"@,
    }
}

/// The address a request is counted under: the `X-Forwarded-For` header's value,
/// else `unknown`.
pub open spec fn client_address(forwarded_for: Option<Seq<char>>) -> Seq<char> {
    match forwarded_for {
        Some(f) => f,
        None => "unknown"@,
    }
}

/// The address a request is counted under.
pub fn client_ip(forwarded_for: Option<&str>) -> (r: String)
    ensures
        r@ == client_address(match forwarded_for {
            Some(f) => Some(f@),
            None => None,
        }),
{
    match forwarded_for {
        Some(f) => string_from(f),
        None => string_from("unknown"),
    }
}

/// Whether `username` and `password` are the configured credentials (both
/// `astrbot` where none are configured).
pub fn credentials_match(dashboard: &DashboardConfig, username: &str, password: &str) -> (r: bool)
    ensures
        r == (username@ == expected_username(*dashboard) && password@ == expected_password(*dashboard)),
{
    let user_ok = match &dashboard.username {
        Some(u) => str_eq(username, u.as_str()),
        None => str_eq(username, "astrbot"),
    };
    let pass_ok = match &dashboard.password {
        Some(p) => str_eq(password, p.as_str()),
        None => str_eq(password, "astrbot"),
    };
    user_ok && pass_ok
}

/// Decides a login request made at `now` from `forwarded_for`: throttled
/// addresses are refused first; then the credentials are checked; a good login
/// gets a token for its user valid for a day.
pub fn login(
    attempts: &mut LoginAttempts,
    forwarded_for: Option<&str>,
    dashboard: &DashboardConfig,
    username: &str,
    password: &str,
    now: u64,
) -> (r: LoginDecision)
    requires
        old(attempts).wf(),
        old(attempts).record_of(client_address(match forwarded_for {
            Some(f) => Some(f@),
            None => None,
        })) matches Some((c, s)) ==> s <= now,
        now + TOKEN_LIFETIME_SECS <= u64::MAX,
    ensures
        ({
            let ip = client_address(match forwarded_for {
                Some(f) => Some(f@),
                None => None,
            });
            let step = rate_step(old(attempts).record_of(ip), now);
            &&& final(attempts).wf()
            &&& final(attempts).record_of(ip) == Some(step.1)
            &&& forall|other: Seq<char>| other != ip ==> final(attempts).record_of(other) == old(attempts).record_of(other)
            &&& !step.0 ==> r is TooManyAttempts
            &&& step.0 && !(username@ == expected_username(*dashboard) && password@ == expected_password(*dashboard))
                ==> r is InvalidCredentials
            &&& step.0 && username@ == expected_username(*dashboard) && password@ == expected_password(*dashboard)
                ==> (r matches LoginDecision::Issue(c) && c.sub@ == username@ && c.iat == now
                    && c.exp == now + TOKEN_LIFETIME_SECS)
        }),
{
    let ip = client_ip(forwarded_for);
    if !check_rate_limit(attempts, ip.as_str(), now) {
        return LoginDecision::TooManyAttempts;
    }
    if !credentials_match(dashboard, username, password) {
        return LoginDecision::InvalidCredentials;
    }
    LoginDecision::Issue(Claims { sub: string_from(username), exp: now + TOKEN_LIFETIME_SECS, iat: now })
}

impl LoginDecision {
    /// The HTTP status the decision is answered with.
    pub fn status(&self) -> (r: u16)
        ensures
            r == match *self {
                LoginDecision::TooManyAttempts => 429u16,
                LoginDecision::InvalidCredentials => 401u16,
                LoginDecision::Issue(_) => 200u16,
            },
    {
        match self {
            LoginDecision::TooManyAttempts => 429,
            LoginDecision::InvalidCredentials => 401,
            LoginDecision::Issue(_) => 200,
        }
    }

    /// The error a refusal is explained with.
    pub fn error_message(&self) -> (r: Option<&'static str>)
        ensures
            match *self {
                LoginDecision::TooManyAttempts => r matches Some(m) && m@ == "too many login attempts, try again later"@,
                LoginDecision::InvalidCredentials => r matches Some(m) && m@ == "invalid credentials"@,
                LoginDecision::Issue(_) => r is None,
            },
    {
        match self {
            LoginDecision::TooManyAttempts => Some("too many login attempts, try again later"),
            LoginDecision::InvalidCredentials => Some("invalid credentials"),
            LoginDecision::Issue(_) => None,
        }
    }
}

/// Whether a request to `path` is let through without a token: logging in and
/// the health check.
pub fn is_public_path(path: &str) -> (r: bool)
    ensures
        r == (ends_with(path@, "/auth/login"@) || ends_with(path@, "/operations/health"@)),
{
    str_ends_with(path, "/auth/login") || str_ends_with(path, "/operations/health")
}

/// The token of an `Authorization` header: what follows `Bearer `.
pub fn bearer_token(authorization: Option<&str>) -> (r: Option<String>)
    ensures
        match authorization {
            Some(h) => match r {
                Some(t) => starts_with(h@, "Bearer "@) && t@ == h@.skip(7),
                None => !starts_with(h@, "Bearer "@),
            },
            None => r is None,
        },
{
    match authorization {
        Some(h) => {
            proof {
                reveal_strlit("Bearer ");
            }
            str_strip_prefix(h, "Bearer ")
        },
        None => None,
    }
}

/// What the guard in front of the API does with a request.
#[derive(Debug)]
pub enum AuthGate {
    /// Let it through unchecked.
    Public,
    /// Refuse it: it carries no bearer token.
    MissingToken,
    /// Let it through if this token verifies.
    Verify(String),
}

/// Decides how a request to `path` with `authorization` is guarded.
pub fn auth_gate(path: &str, authorization: Option<&str>) -> (r: AuthGate)
    ensures
        (ends_with(path@, "/auth/login"@) || ends_with(path@, "/operations/health"@)) ==> r is Public,
        !(ends_with(path@, "/auth/login"@) || ends_with(path@, "/operations/health"@)) ==> match authorization {
            Some(h) => if starts_with(h@, "Bearer "@) {
                r matches AuthGate::Verify(t) && t@ == h@.skip(7)
            } else {
                r is MissingToken
            },
            None => r is MissingToken,
        },
{
    if is_public_path(path) {
        return AuthGate::Public;
    }
    match bearer_token(authorization) {
        Some(t) => AuthGate::Verify(t),
        None => AuthGate::MissingToken,
    }
}

/// The token the verify endpoint checks: the bearer token, else empty.
pub fn presented_token(authorization: Option<&str>) -> (r: String)
    ensures
        match authorization {
            Some(h) => if starts_with(h@, "Bearer "@) {
                r@ == h@.skip(7)
            } else {
                r@.len() == 0
            },
            None => r@.len() == 0,
        },
{
    match bearer_token(authorization) {
        Some(t) => t,
        None => String::new(),
    }
}

} // verus!
