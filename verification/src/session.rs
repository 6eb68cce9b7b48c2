//! Authentication state of a Bitwarden session and the decisions of one `/sync` run.
//!
//! Times are nanoseconds on a monotonic clock that the caller reads; a token is published
//! together with its expiry and the account-crypto flag, and only after login succeeded.

use vstd::prelude::*;
use crate::config::BitwardenProviderConfig;

verus! {

/// Tokens are renewed when they expire within this many nanoseconds (five minutes).
pub const TOKEN_RENEWAL_WINDOW_NANOS: u64 = 300_000_000_000;

/// Nanoseconds in one second.
pub const NANOS_PER_SEC: u64 = 1_000_000_000;

/// Mutable authentication state shared by the loads of one provider.
#[derive(Debug)]
pub struct AuthState {
    /// Bearer token, present only once login and crypto setup succeeded.
    pub token: Option<String>,
    /// Expiry of `token` on the caller's clock.
    pub exp: Option<u64>,
    /// Whether the account keys were set up; never reset.
    pub crypto: bool,
}

impl AuthState {
    /// A token and its expiry are published and withdrawn together, and a token is only ever
    /// published once the account keys are set up.
    pub open spec fn wf(&self) -> bool {
        &&& self.token.is_some() == self.exp.is_some()
        &&& self.token.is_some() ==> self.crypto
    }

    /// The current token is the one whose text is `t`.
    pub open spec fn holds(&self, t: Seq<char>) -> bool {
        self.token matches Some(cur) && cur@ == t
    }

    /// Login is due at `now` when there is no expiry or it falls within the renewal window.
    pub open spec fn spec_stale(&self, now: u64) -> bool {
        match self.exp {
            None => true,
            Some(exp) => now + TOKEN_RENEWAL_WINDOW_NANOS >= exp,
        }
    }

    /// The state before any login: no token, no expiry, no account keys.
    pub fn new() -> (s: AuthState)
        ensures
            s.wf(),
            s.token is None,
            s.exp is None,
            !s.crypto,
    {
        AuthState { token: None, exp: None, crypto: false }
    }

    /// Returns whether a login is needed before the next request at time `now`.
    pub fn stale(&self, now: u64) -> (r: bool)
        ensures
            r == self.spec_stale(now),
    {
        match self.exp {
            None => true,
            Some(exp) => now >= exp || exp - now <= TOKEN_RENEWAL_WINDOW_NANOS,
        }
    }

    /// Returns whether a successful login must still set up the account keys.
    pub fn crypto_needed(&self) -> (r: bool)
        ensures
            r == !self.crypto,
    {
        !self.crypto
    }

    /// Publishes the result of a successful login: token, expiry and account keys together.
    pub fn publish(&mut self, token: String, exp: u64)
        ensures
            final(self).token == Some(token),
            final(self).exp == Some(exp),
            final(self).crypto,
            final(self).wf(),
    {
        self.token = Some(token);
        self.exp = Some(exp);
        self.crypto = true;
    }

    /// Withdraws the token `used` after the server rejected it, unless another login already
    /// replaced it; returns whether the session is now without a token.
    pub fn invalidate(&mut self, used: &String) -> (no_token: bool)
        requires
            old(self).wf(),
        ensures
            final(self).wf(),
            final(self).crypto == old(self).crypto,
            old(self).holds(used@) ==> final(self).token is None && final(self).exp is None,
            !old(self).holds(used@) ==> *final(self) == *old(self),
            no_token == final(self).token is None,
    {
        let current = match &self.token {
            Some(t) => t.eq(used),
            None => false,
        };
        if current {
            self.token = None;
            self.exp = None;
        }
        self.token.is_none()
    }

    /// The token to send with the next `/sync` request.
    pub fn current_token(&self) -> (r: Result<String, SyncFailure>)
        ensures
            match self.token {
                Some(t) => r == Ok::<String, SyncFailure>(t),
                None => r == Err::<String, SyncFailure>(SyncFailure::MissingToken),
            },
    {
        match &self.token {
            Some(t) => Ok(t.clone()),
            None => Err(SyncFailure::MissingToken),
        }
    }
}

/// Expiry of a token that lives `expires_in` seconds from `now`, or `None` when that instant
/// cannot be represented on the clock.
pub fn login_expiry(now: u64, expires_in: u64) -> (r: Option<u64>)
    ensures
        match r {
            Some(exp) => exp == now + expires_in * NANOS_PER_SEC,
            None => now + expires_in * NANOS_PER_SEC > u64::MAX,
        },
{
    match expires_in.checked_mul(NANOS_PER_SEC) {
        Some(ttl) => now.checked_add(ttl),
        None => {
            assert(expires_in * NANOS_PER_SEC > u64::MAX);
            None
        },
    }
}

/// Why a `/sync` run failed before it had a body to parse.
#[derive(Debug, Clone, Copy, PartialEq, Eq, Structural)]
pub enum SyncFailure {
    /// No token was published when the request was about to be sent.
    MissingToken,
    /// The server answered with this non-success status.
    Status(u16),
    /// The server rejected the token again after it was refreshed.
    UnauthorizedAfterRefresh(u16),
}

/// What the caller does after a `/sync` response status arrived.
#[derive(Debug, Clone, Copy, PartialEq, Eq, Structural)]
pub enum SyncDecision {
    /// Read and parse the body.
    Parse,
    /// Send the request again, logging in first when `login` holds.
    Retry { login: bool },
    /// Stop with this failure.
    Fail(SyncFailure),
}

/// HTTP status 401.
pub const STATUS_UNAUTHORIZED: u16 = 401;

/// A status in the success class (200 to 299).
pub open spec fn spec_is_success(status: u16) -> bool {
    200 <= status && status <= 299
}

/// What follows a `/sync` response with `status`, given how many unauthorized responses the run
/// had before and whether the session is without a token once a rejected token was withdrawn:
/// the run's new rejection count and the decision.
pub open spec fn sync_step(rejected: u8, status: u16, no_token: bool) -> (u8, SyncDecision) {
    if status == STATUS_UNAUTHORIZED {
        if rejected >= 1 {
            (rejected, SyncDecision::Fail(SyncFailure::UnauthorizedAfterRefresh(status)))
        } else {
            (1, SyncDecision::Retry { login: no_token })
        }
    } else if spec_is_success(status) {
        (rejected, SyncDecision::Parse)
    } else {
        (rejected, SyncDecision::Fail(SyncFailure::Status(status)))
    }
}

/// Progress of one `/sync` run: how many responses were rejected as unauthorized so far.
#[derive(Debug)]
pub struct SyncRun {
    pub rejected: u8,
}

impl SyncRun {
    /// At most one rejection is ever recorded.
    pub open spec fn wf(&self) -> bool {
        self.rejected <= 1
    }

    /// A run that has not yet sent a request.
    pub fn new() -> (r: SyncRun)
        ensures
            r.rejected == 0,
            r.wf(),
    {
        SyncRun { rejected: 0 }
    }

    /// Decides what follows a `/sync` response with `status` that answered a request sent
    /// with `used`.
    ///
    /// A 401 withdraws `used` if it is still current; the first one leads to a retry (with a
    /// login only when no replacement token exists), the second one fails the run. Any other
    /// non-success status fails the run, a success status leads to parsing the body.
    pub fn on_status(&mut self, auth: &mut AuthState, used: &String, status: u16) -> (d: SyncDecision)
        requires
            old(self).wf(),
            old(auth).wf(),
        ensures
            final(self).wf(),
            final(auth).wf(),
            final(auth).crypto == old(auth).crypto,
            (final(self).rejected, d) == sync_step(old(self).rejected, status, final(auth).token is None),
            status == STATUS_UNAUTHORIZED && old(auth).holds(used@) ==> final(auth).token is None,
            status != STATUS_UNAUTHORIZED || !old(auth).holds(used@) ==> *final(auth) == *old(auth),
    {
        if status == STATUS_UNAUTHORIZED {
            let no_token = auth.invalidate(used);
            if self.rejected >= 1 {
                SyncDecision::Fail(SyncFailure::UnauthorizedAfterRefresh(status))
            } else {
                self.rejected = 1;
                SyncDecision::Retry { login: no_token }
            }
        } else if 200 <= status && status <= 299 {
            SyncDecision::Parse
        } else {
            SyncDecision::Fail(SyncFailure::Status(status))
        }
    }
}


/// A `/sync` run sends at most two requests: after the first unauthorized response leads to a
/// retry, no response to the retried request leads to another one.
pub proof fn law_sync_retries_at_most_once(first: u16, second: u16, no_token_first: bool, no_token_second: bool)
    ensures
        ({
            let (rejected, d1) = sync_step(0, first, no_token_first);
            d1 is Retry ==> rejected == 1 && !(sync_step(rejected, second, no_token_second).1 is Retry)
        }),
        forall|status: u16, no_token: bool| !(#[trigger] sync_step(1, status, no_token).1 is Retry),
{
}

/// Only an unauthorized response leads to a retry, and the retry logs in again exactly when no
/// other login has already replaced the rejected token.
pub proof fn law_retry_only_after_unauthorized(rejected: u8, status: u16, no_token: bool)
    ensures
        sync_step(rejected, status, no_token).1 is Retry ==> status == STATUS_UNAUTHORIZED
            && sync_step(rejected, status, no_token).1 == (SyncDecision::Retry { login: no_token }),
{
}

/// A token is fresh for the requests sent before the renewal window of its expiry begins, and
/// stale from then on.
pub proof fn law_token_freshness(auth: AuthState, now: u64)
    requires
        auth.wf(),
    ensures
        auth.exp matches Some(exp) ==> (auth.spec_stale(now) <==> now + TOKEN_RENEWAL_WINDOW_NANOS >= exp),
        auth.token is None ==> auth.spec_stale(now),
{
}

/// Connection, per-read and total HTTP timeouts, in seconds, and the two endpoints with their
/// user agents.
#[derive(Debug)]
pub struct SessionSettings {
    pub connect_timeout_secs: u64,
    pub read_timeout_secs: u64,
    pub total_timeout_secs: u64,
    pub api_url: String,
    pub api_user_agent: String,
    pub identity_url: String,
    pub identity_user_agent: String,
}

impl SessionSettings {
    /// Settings of the session of one provider: 5 s to connect, 5 s per read, 10 s in total,
    /// and the provider's API and identity base URLs.
    pub fn new(config: &BitwardenProviderConfig) -> (s: SessionSettings)
        ensures
            s.connect_timeout_secs == 5,
            s.read_timeout_secs == 5,
            s.total_timeout_secs == 10,
            s.api_url@ == config.api_url@,
            s.api_user_agent@ == "OpenAPI-Generator/latest/rust"@,
            s.identity_url@ == config.identity_url@,
            s.identity_user_agent@ == "OpenAPI-Generator/v1/rust"@,
    {
        SessionSettings {
            connect_timeout_secs: 5,
            read_timeout_secs: 5,
            total_timeout_secs: 10,
            api_url: config.api_url.clone(),
            api_user_agent: String::from_str("OpenAPI-Generator/latest/rust"),
            identity_url: config.identity_url.clone(),
            identity_user_agent: String::from_str("OpenAPI-Generator/v1/rust"),
        }
    }
}

/// URL of the vault sync endpoint under an API base URL.
pub fn sync_url(api_url: &str) -> (u: String)
    ensures
        u@ == api_url@ + "/sync"@,
{
    let mut u = String::from_str(api_url);
    u.append("/sync");
    u
}

/// URL of the token endpoint under an identity base URL.
pub fn token_url(identity_url: &str) -> (u: String)
    ensures
        u@ == identity_url@ + "/connect/token"@,
{
    let mut u = String::from_str(identity_url);
    u.append("/connect/token");
    u
}

/// Headers of the sync request besides the bearer token: Bitwarden only includes SSH-key
/// items when the request identifies as its web client.
pub fn sync_headers() -> (h: Vec<(String, String)>)
    ensures
        h@.len() == 2,
        h@[0].0@ == "bitwarden-client-name"@ && h@[0].1@ == "web"@,
        h@[1].0@ == "bitwarden-client-version"@ && h@[1].1@ == "2026.3.1"@,
{
    let mut h: Vec<(String, String)> = Vec::new();
    h.push((String::from_str("bitwarden-client-name"), String::from_str("web")));
    h.push((String::from_str("bitwarden-client-version"), String::from_str("2026.3.1")));
    h
}

/// Headers of the token request.
pub fn token_headers() -> (h: Vec<(String, String)>)
    ensures
        h@.len() == 3,
        h@[0].0@ == "content-type"@ && h@[0].1@ == "application/x-www-form-urlencoded; charset=utf-8"@,
        h@[1].0@ == "accept"@ && h@[1].1@ == "application/json"@,
        h@[2].0@ == "Device-Type"@ && h@[2].1@ == "10"@,
{
    let mut h: Vec<(String, String)> = Vec::new();
    h.push((String::from_str("content-type"), String::from_str("application/x-www-form-urlencoded; charset=utf-8")));
    h.push((String::from_str("accept"), String::from_str("application/json")));
    h.push((String::from_str("Device-Type"), String::from_str("10")));
    h
}

} // verus!
