//! Identity-Aware Proxy credentials: the cached identity token, the state machine
//! of its refresh, and the retry schedule after failures.
//!
//! Time is passed in: instants are milliseconds of a monotonic clock, wall-clock
//! time is Unix seconds. The caller runs the fetch and the timers and reports back.

use base64::Engine;
use vstd::arithmetic::power2::{lemma2_to64, pow2};
use vstd::prelude::*;

use crate::text::{chars_of, find_char_from, first_index_of, string_from_chars, trim, trim_bounds};

verus! {

/// How long before expiry a loaded token is refreshed, in milliseconds.
pub const PROACTIVE_REFRESH_BUFFER_MS: u128 = 300000;

/// The retry delay after the first failure of a streak, in milliseconds.
pub const BASE_FAILURE_RETRY_DELAY_MS: u128 = 30000;

/// The longest retry delay, in milliseconds.
pub const MAX_FAILURE_RETRY_DELAY_MS: u128 = 300000;

/// Failed fetches in a row that are retried automatically before giving up until a
/// manual refresh or a challenge.
pub const MAX_FAILURE_RETRIES: u32 = 5;

/// A fetched identity token and the instant it expires.
#[derive(Clone, Debug, PartialEq, Eq)]
pub struct CachedToken {
    pub token: String,
    pub expires_at: u128,
}

impl CachedToken {
    /// A copy of this token.
    pub fn duplicate(&self) -> (r: CachedToken)
        ensures
            r == *self,
    {
        CachedToken { token: self.token.clone(), expires_at: self.expires_at }
    }

    /// The token while it has not expired at `now`.
    pub fn valid_token(&self, now: u128) -> (r: Option<String>)
        ensures
            match r {
                Some(t) => self.expires_at > now && t@ == self.token@,
                None => self.expires_at <= now,
            },
    {
        if self.expires_at > now {
            Some(self.token.clone())
        } else {
            None
        }
    }
}

/// Where the credentials stand.
#[derive(Clone, Debug, PartialEq, Eq)]
pub enum IapCredentialsState {
    Missing,
    /// A fetch is running; `previous` is the last loaded token, still attached to
    /// requests while it is valid.
    Refreshing { previous: Option<CachedToken> },
    Loaded(CachedToken),
    /// The last fetch failed; the last loaded token may still be valid for a while.
    Failed { message: String, previous: Option<CachedToken> },
    /// A token injected through the environment: never refreshed.
    EnvInjected { token: String },
}

/// The last loaded token that a state keeps.
pub open spec fn previous_of(s: IapCredentialsState) -> Option<CachedToken> {
    match s {
        IapCredentialsState::Loaded(c) => Some(c),
        IapCredentialsState::Refreshing { previous } => previous,
        IapCredentialsState::Failed { previous, .. } => previous,
        _ => None,
    }
}

/// The token attached to requests at `now`, if any.
pub open spec fn cached_token_at(s: IapCredentialsState, now: u128) -> Option<Seq<char>> {
    match s {
        IapCredentialsState::Loaded(c) => Some(c.token@),
        IapCredentialsState::EnvInjected { token } => Some(token@),
        IapCredentialsState::Refreshing { previous } => match previous {
            Some(c) => if c.expires_at > now {
                Some(c.token@)
            } else {
                None
            },
            None => None,
        },
        IapCredentialsState::Failed { previous, .. } => match previous {
            Some(c) => if c.expires_at > now {
                Some(c.token@)
            } else {
                None
            },
            None => None,
        },
        IapCredentialsState::Missing => None,
    }
}

impl IapCredentialsState {
    /// A copy of this state.
    pub fn duplicate(&self) -> (r: IapCredentialsState)
        ensures
            r == *self,
    {
        match self {
            IapCredentialsState::Missing => IapCredentialsState::Missing,
            IapCredentialsState::Refreshing { previous } => IapCredentialsState::Refreshing {
                previous: match previous {
                    Some(c) => Some(c.duplicate()),
                    None => None,
                },
            },
            IapCredentialsState::Loaded(c) => IapCredentialsState::Loaded(c.duplicate()),
            IapCredentialsState::Failed { message, previous } => IapCredentialsState::Failed {
                message: message.clone(),
                previous: match previous {
                    Some(c) => Some(c.duplicate()),
                    None => None,
                },
            },
            IapCredentialsState::EnvInjected { token } => IapCredentialsState::EnvInjected {
                token: token.clone(),
            },
        }
    }

    pub fn previous_token(&self) -> (r: Option<CachedToken>)
        ensures
            r == previous_of(*self),
    {
        match self {
            IapCredentialsState::Loaded(cached) => Some(cached.duplicate()),
            IapCredentialsState::Refreshing { previous } | IapCredentialsState::Failed { previous, .. } => {
                match previous {
                    Some(c) => Some(c.duplicate()),
                    None => None,
                }
            },
            IapCredentialsState::EnvInjected { .. } | IapCredentialsState::Missing => None,
        }
    }
}

pub open spec fn opt_view(o: Option<String>) -> Option<Seq<char>> {
    match o {
        Some(s) => Some(s@),
        None => None,
    }
}

/// The IAP configuration and the current credentials.
pub struct IapState {
    audiences: String,
    service_account_email: String,
    inner: IapCredentialsState,
}

impl IapState {
    /// The credentials state, as a spec value.
    pub closed spec fn state_spec(&self) -> IapCredentialsState {
        self.inner
    }

    pub closed spec fn audiences_spec(&self) -> Seq<char> {
        self.audiences@
    }

    pub closed spec fn service_account_email_spec(&self) -> Seq<char> {
        self.service_account_email@
    }

    /// A state for the configured audiences and service account; a non-empty token
    /// injected through the environment is used as is and never refreshed.
    pub fn new(audiences: &str, service_account_email: &str, injected_token: Option<String>) -> (r: IapState)
        ensures
            r.audiences_spec() == audiences@,
            r.service_account_email_spec() == service_account_email@,
            match injected_token {
                Some(t) => if t@.len() > 0 {
                    r.state_spec() == IapCredentialsState::EnvInjected { token: t }
                } else {
                    r.state_spec() == IapCredentialsState::Missing
                },
                None => r.state_spec() == IapCredentialsState::Missing,
            },
    {
        let initial = match injected_token {
            Some(token) => if token.as_str().is_empty() {
                IapCredentialsState::Missing
            } else {
                IapCredentialsState::EnvInjected { token }
            },
            None => IapCredentialsState::Missing,
        };
        IapState {
            audiences: audiences.to_owned(),
            service_account_email: service_account_email.to_owned(),
            inner: initial,
        }
    }

    /// The token to attach to a request at `now`.
    pub fn get_cached(&self, now: u128) -> (r: Option<String>)
        ensures
            opt_view(r) == cached_token_at(self.state_spec(), now),
    {
        match &self.inner {
            IapCredentialsState::Loaded(cached) => Some(cached.token.clone()),
            IapCredentialsState::EnvInjected { token } => Some(token.clone()),
            IapCredentialsState::Refreshing { previous } | IapCredentialsState::Failed { previous, .. } => {
                match previous {
                    Some(c) => c.valid_token(now),
                    None => None,
                }
            },
            IapCredentialsState::Missing => None,
        }
    }

    pub fn state(&self) -> (r: IapCredentialsState)
        ensures
            r == self.state_spec(),
    {
        self.inner.duplicate()
    }

    pub fn audiences(&self) -> (r: &str)
        ensures
            r@ == self.audiences_spec(),
    {
        self.audiences.as_str()
    }

    pub fn service_account_email(&self) -> (r: &str)
        ensures
            r@ == self.service_account_email_spec(),
    {
        self.service_account_email.as_str()
    }

    pub fn set_refreshing(&mut self)
        ensures
            final(self).state_spec() == (IapCredentialsState::Refreshing {
                previous: previous_of(old(self).state_spec()),
            }),
            final(self).audiences_spec() == old(self).audiences_spec(),
            final(self).service_account_email_spec() == old(self).service_account_email_spec(),
    {
        let previous = self.inner.previous_token();
        self.inner = IapCredentialsState::Refreshing { previous };
    }

    pub fn set_loaded(&mut self, cached: CachedToken)
        ensures
            final(self).state_spec() == IapCredentialsState::Loaded(cached),
            final(self).audiences_spec() == old(self).audiences_spec(),
            final(self).service_account_email_spec() == old(self).service_account_email_spec(),
    {
        self.inner = IapCredentialsState::Loaded(cached);
    }

    pub fn set_failed(&mut self, message: String)
        ensures
            final(self).state_spec() == (IapCredentialsState::Failed {
                message,
                previous: previous_of(old(self).state_spec()),
            }),
            final(self).audiences_spec() == old(self).audiences_spec(),
            final(self).service_account_email_spec() == old(self).service_account_email_spec(),
    {
        let previous = self.inner.previous_token();
        self.inner = IapCredentialsState::Failed { message, previous };
    }
}

/// What the manager tells its observers.
#[derive(Clone, Copy, Debug, PartialEq, Eq, Structural)]
pub enum IapManagerEvent {
    StateChanged,
}

/// The fetch that a refresh asks the caller to run.
#[derive(Clone, Debug, PartialEq, Eq)]
pub struct FetchRequest {
    pub audiences: String,
    pub service_account_email: String,
}

/// What the caller does after a fetch has finished.
#[derive(Clone, Debug, PartialEq, Eq)]
pub struct FetchFollowUp {
    /// The error to show in a toast (only for the first failure of a streak).
    pub failure_toast: Option<String>,
    /// When to start the next refresh, in milliseconds from now; `None` to wait for
    /// a manual refresh or a challenge.
    pub next_refresh_in: Option<u128>,
}

/// What answering a challenge amounts to.
#[derive(Clone, Debug, PartialEq, Eq)]
pub enum ChallengeResponse {
    /// IAP is off.
    Ignored,
    /// The injected token was rejected; it cannot be refreshed, only logged.
    StaleInjectedToken,
    /// A refresh was started, or one was already running.
    Refresh(Option<FetchRequest>),
}

/// The delay before retry number `failures + 1`: the base delay doubled per earlier
/// failure, at most the maximum delay.
pub open spec fn failure_retry_delay(failures: nat) -> int {
    let d = BASE_FAILURE_RETRY_DELAY_MS * pow2(failures);
    if d < MAX_FAILURE_RETRY_DELAY_MS {
        d
    } else {
        MAX_FAILURE_RETRY_DELAY_MS as int
    }
}

/// When to refresh a token that expires at `expires_at`, seen at `now`: the time left
/// minus the buffer, never below zero.
pub open spec fn proactive_refresh_delay(expires_at: u128, now: u128) -> u128 {
    let left: int = if expires_at > now { expires_at - now } else { 0 };
    if left > PROACTIVE_REFRESH_BUFFER_MS {
        (left - PROACTIVE_REFRESH_BUFFER_MS) as u128
    } else {
        0
    }
}

/// Owns the IAP refresh lifecycle: initial fetch, proactive refresh before expiry,
/// retries after failures, and refresh on challenge.
pub struct IapManager {
    state: Option<IapState>,
    consecutive_failures: u32,
}

impl IapManager {
    pub closed spec fn state_opt(&self) -> Option<IapCredentialsState> {
        match self.state {
            Some(s) => Some(s.state_spec()),
            None => None,
        }
    }

    pub closed spec fn config(&self) -> Option<(Seq<char>, Seq<char>)> {
        match self.state {
            Some(s) => Some((s.audiences_spec(), s.service_account_email_spec())),
            None => None,
        }
    }

    pub closed spec fn failures(&self) -> nat {
        self.consecutive_failures as nat
    }

    pub closed spec fn inv(&self) -> bool {
        self.consecutive_failures <= MAX_FAILURE_RETRIES
    }

    /// Whether a refresh may start from a state: not while one runs, never for an
    /// injected token.
    pub open spec fn can_start_refresh(s: IapCredentialsState) -> bool {
        !(s is Refreshing) && !(s is EnvInjected)
    }

    /// A manager for `state` (`None` when IAP is off), with its first refresh started.
    pub fn new(state: Option<IapState>) -> (r: (IapManager, Option<FetchRequest>))
        ensures
            r.0.inv(),
            r.0.config() == match state {
                Some(s) => Some((s.audiences_spec(), s.service_account_email_spec())),
                None => None,
            },
            match state {
                None => r.0.state_opt() is None && r.1 is None,
                Some(s) => if Self::can_start_refresh(s.state_spec()) {
                    &&& r.0.state_opt() == Some(
                        IapCredentialsState::Refreshing { previous: previous_of(s.state_spec()) },
                    )
                    &&& r.1 matches Some(f) && f.audiences@ == s.audiences_spec()
                        && f.service_account_email@ == s.service_account_email_spec()
                } else {
                    r.0.state_opt() == Some(s.state_spec()) && r.1 is None
                },
            },
            r.0.failures() == 0,
    {
        let mut manager = IapManager { state, consecutive_failures: 0 };
        let fetch = manager.start_refresh();
        (manager, fetch)
    }

    /// Whether IAP is on for this build.
    pub fn is_enabled(&self) -> (r: bool)
        ensures
            r == self.state_opt() is Some,
    {
        self.state.is_some()
    }

    pub fn state(&self) -> (r: Option<IapCredentialsState>)
        ensures
            r == self.state_opt(),
    {
        match &self.state {
            Some(s) => Some(s.state()),
            None => None,
        }
    }

    /// Starts a refresh unless IAP is off, a refresh is running, or the token was
    /// injected; the state then becomes `Refreshing` and the fetch to run is returned.
    pub fn start_refresh(&mut self) -> (r: Option<FetchRequest>)
        ensures
            final(self).config() == old(self).config(),
            final(self).failures() == old(self).failures(),
            old(self).inv() ==> final(self).inv(),
            match old(self).state_opt() {
                Some(s) => if Self::can_start_refresh(s) {
                    &&& final(self).state_opt() == Some(
                        IapCredentialsState::Refreshing { previous: previous_of(s) },
                    )
                    &&& r matches Some(f) && Some((f.audiences@, f.service_account_email@))
                        == old(self).config()
                } else {
                    final(self).state_opt() == old(self).state_opt() && r is None
                },
                None => final(self).state_opt() is None && r is None,
            },
    {
        match &mut self.state {
            None => None,
            Some(state) => {
                let current = state.state();
                match current {
                    IapCredentialsState::Refreshing { .. } | IapCredentialsState::EnvInjected { .. } => None,
                    _ => {
                        state.set_refreshing();
                        Some(
                            FetchRequest {
                                audiences: state.audiences().to_owned(),
                                service_account_email: state.service_account_email().to_owned(),
                            },
                        )
                    },
                }
            },
        }
    }

    /// Answers an IAP challenge: an injected token cannot be refreshed; otherwise the
    /// failure streak is reset and a refresh is started.
    pub fn handle_challenge(&mut self) -> (r: ChallengeResponse)
        ensures
            final(self).config() == old(self).config(),
            old(self).inv() ==> final(self).inv(),
            match old(self).state_opt() {
                None => r == ChallengeResponse::Ignored && final(self).state_opt() is None
                    && final(self).failures() == old(self).failures(),
                Some(s) => if s is EnvInjected {
                    r == ChallengeResponse::StaleInjectedToken && final(self).state_opt()
                        == old(self).state_opt() && final(self).failures() == old(self).failures()
                } else {
                    &&& final(self).failures() == 0
                    &&& r matches ChallengeResponse::Refresh(f)
                    &&& (f is Some <==> Self::can_start_refresh(s))
                    &&& if Self::can_start_refresh(s) {
                        final(self).state_opt() == Some(
                            IapCredentialsState::Refreshing { previous: previous_of(s) },
                        )
                    } else {
                        final(self).state_opt() == old(self).state_opt()
                    }
                },
            },
    {
        let injected = match &self.state {
            None => return ChallengeResponse::Ignored,
            Some(state) => matches!(state.state(), IapCredentialsState::EnvInjected { .. }),
        };
        if injected {
            return ChallengeResponse::StaleInjectedToken;
        }
        self.consecutive_failures = 0;
        let fetch = self.start_refresh();
        ChallengeResponse::Refresh(fetch)
    }

    /// Takes in the result of a fetch finished at `now`. A token is loaded, the streak
    /// reset and the next refresh scheduled before expiry; a failure is recorded (the
    /// last token kept), toasted if it starts a streak, and retried with a growing
    /// delay until the streak reaches its limit. Nothing changes when IAP is off.
    pub fn finish_refresh(&mut self, result: Result<CachedToken, String>, now: u128) -> (r: FetchFollowUp)
        requires
            old(self).inv(),
        ensures
            final(self).inv(),
            final(self).config() == old(self).config(),
            match old(self).state_opt() {
                None => final(self).state_opt() is None && r.failure_toast is None
                    && r.next_refresh_in is None && final(self).failures() == old(self).failures(),
                Some(s) => match result {
                    Ok(cached) => {
                        &&& final(self).state_opt() == Some(IapCredentialsState::Loaded(cached))
                        &&& final(self).failures() == 0
                        &&& r.failure_toast is None
                        &&& r.next_refresh_in == Some(proactive_refresh_delay(cached.expires_at, now))
                    },
                    Err(message) => {
                        &&& final(self).state_opt() == Some(
                            IapCredentialsState::Failed { message, previous: previous_of(s) },
                        )
                        &&& (r.failure_toast matches Some(t) ==> t@ == message@)
                        &&& (r.failure_toast is Some <==> old(self).failures() == 0)
                        &&& if old(self).failures() >= MAX_FAILURE_RETRIES {
                            r.next_refresh_in is None && final(self).failures() == old(self).failures()
                        } else {
                            &&& r.next_refresh_in == Some(failure_retry_delay(old(self).failures()) as u128)
                            &&& final(self).failures() == old(self).failures() + 1
                        }
                    },
                },
            },
    {
        let failures = self.consecutive_failures;
        match &mut self.state {
            None => FetchFollowUp { failure_toast: None, next_refresh_in: None },
            Some(state) => match result {
                Ok(cached) => {
                    let expires_at = cached.expires_at;
                    state.set_loaded(cached);
                    self.consecutive_failures = 0;
                    FetchFollowUp {
                        failure_toast: None,
                        next_refresh_in: Some(refresh_delay(expires_at, now)),
                    }
                },
                Err(message) => {
                    let toast = if failures == 0 {
                        Some(message.clone())
                    } else {
                        None
                    };
                    state.set_failed(message);
                    let next = if failures >= MAX_FAILURE_RETRIES {
                        None
                    } else {
                        self.consecutive_failures = failures + 1;
                        Some(retry_delay(failures))
                    };
                    FetchFollowUp { failure_toast: toast, next_refresh_in: next }
                },
            },
        }
    }
}

/// The delay before the next proactive refresh.
pub fn refresh_delay(expires_at: u128, now: u128) -> (r: u128)
    ensures
        r == proactive_refresh_delay(expires_at, now),
{
    let left = if expires_at > now { expires_at - now } else { 0 };
    if left > PROACTIVE_REFRESH_BUFFER_MS {
        left - PROACTIVE_REFRESH_BUFFER_MS
    } else {
        0
    }
}

/// The delay before retry number `failures + 1`.
pub fn retry_delay(failures: u32) -> (r: u128)
    requires
        failures < MAX_FAILURE_RETRIES,
    ensures
        r == failure_retry_delay(failures as nat),
{
    proof {
        lemma2_to64();
    }
    let mut d: u128 = BASE_FAILURE_RETRY_DELAY_MS;
    let mut i: u32 = 0;
    while i < failures
        invariant
            i <= failures < MAX_FAILURE_RETRIES,
            d == BASE_FAILURE_RETRY_DELAY_MS * pow2(i as nat),
        decreases failures - i,
    {
        proof {
            lemma2_to64();
        }
        d = d * 2;
        i = i + 1;
    }
    if d < MAX_FAILURE_RETRY_DELAY_MS {
        d
    } else {
        MAX_FAILURE_RETRY_DELAY_MS
    }
}

/// Why a token could not be fetched or cached.
#[derive(Clone, Debug, PartialEq, Eq)]
pub enum IapError {
    /// `gcloud` exited with an error; its trimmed standard error.
    CommandFailed(String),
    /// The output is not UTF-8.
    OutputNotUtf8,
    /// The output is blank.
    EmptyToken,
    /// The token has no `exp` claim that can be read.
    MissingExpiry,
    /// The token expired before it was fetched.
    AlreadyExpired { exp: u64, now: u64 },
}

/// The bytes that URL-safe base64 without padding decodes `input` to, if it is valid.
pub uninterp spec fn base64_url_no_pad_decode(input: Seq<char>) -> Option<Seq<u8>>;

/// The unsigned integer member `name` of the JSON object in `payload`, if the payload
/// is a JSON object with such a member.
pub uninterp spec fn json_u64_member(payload: Seq<u8>, name: Seq<char>) -> Option<u64>;

/// `URL_SAFE_NO_PAD.decode` of the base64 crate: the bytes that URL-safe base64
/// without padding stands for, or `None` (its error) when the input is not such base64.
#[verifier::external_body]
fn decode_base64_url(input: &str) -> (r: Option<Vec<u8>>)
    ensures
        match r {
            Some(bytes) => base64_url_no_pad_decode(input@) == Some(bytes@),
            None => base64_url_no_pad_decode(input@) is None,
        },
{
    base64::engine::general_purpose::URL_SAFE_NO_PAD.decode(input).ok()
}

/// `serde_json::from_slice` into a `Value`, then `Value::get` of the member `name` and
/// `Value::as_u64`: `None` when the bytes are not JSON, not an object, lack the member,
/// or the member is not an unsigned integer that fits in 64 bits.
#[verifier::external_body]
fn u64_member(payload: &[u8], name: &str) -> (r: Option<u64>)
    ensures
        r == json_u64_member(payload@, name@),
{
    serde_json::from_slice::<serde_json::Value>(payload).ok()?.get(name)?.as_u64()
}

/// The second `.`-separated segment of a JWT (its payload), if there is one.
pub open spec fn jwt_payload_segment(token: Seq<char>) -> Option<Seq<char>> {
    match first_index_of(token, '.') {
        None => None,
        Some(i) => {
            let rest = token.skip(i + 1);
            match first_index_of(rest, '.') {
                Some(j) => Some(rest.take(j)),
                None => Some(rest),
            }
        },
    }
}

/// The `exp` claim of a JWT.
pub open spec fn jwt_exp(token: Seq<char>) -> Option<u64> {
    match jwt_payload_segment(token) {
        None => None,
        Some(seg) => match base64_url_no_pad_decode(seg) {
            None => None,
            Some(bytes) => json_u64_member(bytes, "exp"@),
        },
    }
}

/// Reads the `exp` claim (Unix seconds) of a JWT.
pub fn parse_exp_from_jwt(token: &str) -> (r: Option<u64>)
    ensures
        r == jwt_exp(token@),
{
    let v = chars_of(token);
    let n = v.len();
    let i = find_char_from(&v, 0, '.');
    assert(v@.skip(0) =~= v@);
    if i == n {
        return None;
    }
    let j = find_char_from(&v, i + 1, '.');
    let segment = string_from_chars(&v, i + 1, j);
    proof {
        let rest = v@.skip(i + 1);
        if j < n {
            assert(rest.take(j - (i + 1)) =~= v@.subrange(i + 1, j as int));
        } else {
            assert(rest =~= v@.subrange(i + 1, j as int));
        }
    }
    match decode_base64_url(segment.as_str()) {
        None => None,
        Some(bytes) => u64_member(bytes.as_slice(), "exp"),
    }
}

/// The instant a JWT expires, seen at Unix time `now_unix` and monotonic instant `now`.
pub fn get_expires_at(token: &str, now_unix: u64, now: u64) -> (r: Result<u128, IapError>)
    ensures
        match jwt_exp(token@) {
            None => r == Err::<u128, IapError>(IapError::MissingExpiry),
            Some(exp) => if exp < now_unix {
                r == Err::<u128, IapError>(IapError::AlreadyExpired { exp, now: now_unix })
            } else {
                r == Ok::<u128, IapError>((now + (exp - now_unix) * 1000) as u128)
            },
        },
{
    let exp = match parse_exp_from_jwt(token) {
        Some(exp) => exp,
        None => return Err(IapError::MissingExpiry),
    };
    if exp < now_unix {
        return Err(IapError::AlreadyExpired { exp, now: now_unix });
    }
    let secs_remaining = (exp - now_unix) as u128;
    Ok(now as u128 + secs_remaining * 1000)
}

/// `String::from_utf8`: the text of `bytes` when they are valid UTF-8.
#[verifier::external_body]
fn string_from_utf8(bytes: Vec<u8>) -> (r: Option<String>)
    ensures
        match r {
            Some(s) => vstd::utf8::valid_utf8(bytes@) && s@ == vstd::utf8::decode_utf8(bytes@),
            None => !vstd::utf8::valid_utf8(bytes@),
        },
{
    String::from_utf8(bytes).ok()
}

/// The token that the output of a successful `gcloud auth print-identity-token` stands
/// for.
pub open spec fn token_outcome(stdout: Seq<u8>, now_unix: u64, now: u64) -> Result<(Seq<char>, u128), IapError> {
    if !vstd::utf8::valid_utf8(stdout) {
        Err(IapError::OutputNotUtf8)
    } else {
        let token = trim(vstd::utf8::decode_utf8(stdout));
        if token.len() == 0 {
            Err(IapError::EmptyToken)
        } else {
            match jwt_exp(token) {
                None => Err(IapError::MissingExpiry),
                Some(exp) => if exp < now_unix {
                    Err(IapError::AlreadyExpired { exp, now: now_unix })
                } else {
                    Ok((token, (now + (exp - now_unix) * 1000) as u128))
                },
            }
        }
    }
}

/// Turns the output of `gcloud auth print-identity-token` into a cached token: the
/// command must have succeeded, its output be UTF-8 and, trimmed, a JWT that has not
/// expired at Unix time `now_unix`; the token expires at monotonic instant
/// `now + (exp - now_unix) * 1000`.
pub fn token_from_output(
    success: bool,
    stdout: Vec<u8>,
    stderr: &str,
    now_unix: u64,
    now: u64,
) -> (r: Result<CachedToken, IapError>)
    ensures
        !success ==> (r matches Err(IapError::CommandFailed(m)) && m@ == trim(stderr@)),
        success ==> match token_outcome(stdout@, now_unix, now) {
            Ok((token, expires_at)) => r matches Ok(c) && c.token@ == token && c.expires_at
                == expires_at,
            Err(e) => r == Err::<CachedToken, IapError>(e),
        },
{
    if !success {
        let err = chars_of(stderr);
        let (lo, hi) = trim_bounds(&err);
        return Err(IapError::CommandFailed(string_from_chars(&err, lo, hi)));
    }
    let ghost bytes = stdout@;
    let text = match string_from_utf8(stdout) {
        Some(text) => text,
        None => return Err(IapError::OutputNotUtf8),
    };
    let v = chars_of(text.as_str());
    let (lo, hi) = trim_bounds(&v);
    if lo == hi {
        return Err(IapError::EmptyToken);
    }
    let token = string_from_chars(&v, lo, hi);
    match get_expires_at(token.as_str(), now_unix, now) {
        Ok(expires_at) => Ok(CachedToken { token, expires_at }),
        Err(e) => Err(e),
    }
}

} // verus!
