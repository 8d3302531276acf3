//! Credentials and the two authorisation flows.
//!
//! The module decides when a credential is expired, what to do with a cached
//! credential, how the device-code poll loop reacts to each answer of the token
//! endpoint, how the browser flow builds its authorisation URL and reads the
//! redirect it gets back, and how a credential is laid out in the credential
//! vault. Network, vault and file access belong to the caller.
use vstd::prelude::*;
use vstd::string::*;
use vstd::utf8::encode_utf8;
use sha2::Digest;
use crate::secret::erase_text;
use crate::text::{
    after, before, chars_eq, chars_of, decimal, decimal_of, lemma_decimal_has_no,
    lemma_parse_decimal_of_decimal, lemma_run_len, parse_decimal, parse_decimal_spec,
    push_str_chars, run_len, string_of, take_after, take_before, Stop,
};
use crate::urlcode::{percent_encode_bytes, percent_encode_spec};
pub use crate::urlcode::{percent_encode, simple_url_decode};
pub use crate::callback::parse_auth_callback;

verus! {

/// Seconds before the server-side expiry at which a credential already counts
/// as expired.
pub const EXPIRY_MARGIN_SECS: u64 = 60;

/// Extra delay, in seconds, that a `slow_down` answer adds before the next poll.
pub const SLOW_DOWN_EXTRA_SECS: u64 = 5;

/// Seconds that the browser flow waits for the redirect before it gives up.
pub const CALLBACK_TIMEOUT_SECS: u64 = 300;

/// Lifetime assumed for a vault credential whose metadata cannot be read.
pub const DEFAULT_EXPIRES_IN: u64 = 3600;

/// Why an authorisation attempt failed.
#[derive(Debug, Clone)]
pub enum AuthError {
    /// The redirect carried no authorisation code.
    Denied { denied_error: String, denied_description: String },
    /// The user took too long to approve the device code.
    DeviceCodeExpired,
    /// The token endpoint answered with an error that ends the attempt.
    Protocol { protocol_error: String, protocol_description: String },
    /// The token endpoint answered with something that is neither a token nor
    /// an error.
    UnexpectedResponse,
    /// The token endpoint reported success but sent no readable credential.
    InvalidTokenResponse,
    /// The token endpoint refused to exchange the authorisation code.
    ExchangeFailed { exchange_status: String, exchange_body: String },
    /// A request did not reach the server or its answer did not arrive. The
    /// attempt ends; whether to try again is for the caller to decide.
    Transport { transport_message: String },
    /// No redirect arrived at the loopback listener in time.
    CallbackTimeout,
}

impl AuthError {
    /// The text of the error.
    pub open spec fn message_spec(self) -> Seq<char> {
        match self {
            AuthError::Denied { denied_error, denied_description } => "Authentication denied: "@
                + denied_error@ + " - "@ + denied_description@,
            AuthError::DeviceCodeExpired => "Device code expired. Please restart and try again."@,
            AuthError::Protocol { protocol_error, protocol_description } =>
                "Authentication error: "@ + protocol_error@ + " - "@ + protocol_description@,
            AuthError::UnexpectedResponse => "Unexpected response during authentication"@,
            AuthError::InvalidTokenResponse => "Failed to parse token response"@,
            AuthError::ExchangeFailed { exchange_status, exchange_body } =>
                "Token exchange failed ("@ + exchange_status@ + "): "@ + exchange_body@,
            AuthError::Transport { transport_message } => transport_message@,
            AuthError::CallbackTimeout => "Authentication timed out after 5 minutes"@,
        }
    }

    /// The text of the error, as shown to the user.
    pub fn message(&self) -> (r: String)
        ensures
            r@ == self.message_spec(),
    {
        let mut out: Vec<char> = Vec::new();
        match self {
            AuthError::Denied { denied_error, denied_description } => {
                push_str_chars(&mut out, "Authentication denied: ");
                push_str_chars(&mut out, denied_error.as_str());
                push_str_chars(&mut out, " - ");
                push_str_chars(&mut out, denied_description.as_str());
                assert(out@ =~= self.message_spec());
            },
            AuthError::DeviceCodeExpired => {
                push_str_chars(&mut out, "Device code expired. Please restart and try again.");
                assert(out@ =~= self.message_spec());
            },
            AuthError::Protocol { protocol_error, protocol_description } => {
                push_str_chars(&mut out, "Authentication error: ");
                push_str_chars(&mut out, protocol_error.as_str());
                push_str_chars(&mut out, " - ");
                push_str_chars(&mut out, protocol_description.as_str());
                assert(out@ =~= self.message_spec());
            },
            AuthError::UnexpectedResponse => {
                push_str_chars(&mut out, "Unexpected response during authentication");
                assert(out@ =~= self.message_spec());
            },
            AuthError::InvalidTokenResponse => {
                push_str_chars(&mut out, "Failed to parse token response");
                assert(out@ =~= self.message_spec());
            },
            AuthError::ExchangeFailed { exchange_status, exchange_body } => {
                push_str_chars(&mut out, "Token exchange failed (");
                push_str_chars(&mut out, exchange_status.as_str());
                push_str_chars(&mut out, "): ");
                push_str_chars(&mut out, exchange_body.as_str());
                assert(out@ =~= self.message_spec());
            },
            AuthError::Transport { transport_message } => {
                push_str_chars(&mut out, transport_message.as_str());
                assert(out@ =~= self.message_spec());
            },
            AuthError::CallbackTimeout => {
                push_str_chars(&mut out, "Authentication timed out after 5 minutes");
                assert(out@ =~= self.message_spec());
            },
        }
        string_of(&out)
    }
}

/// Answer of the device-authorisation endpoint.
#[derive(Debug, Clone)]
pub struct DeviceCodeResponse {
    pub device_code: String,
    pub user_code: String,
    pub verification_uri: String,
    pub interval: u64,
    pub message: String,
}

/// A bearer credential with the time at which it was obtained. It cannot be
/// printed, so that its secrets never reach a log; `erase` overwrites them.
pub struct TokenResponse {
    pub access_token: String,
    pub refresh_token: Option<String>,
    pub expires_in: u64,
    pub token_type: String,
    pub obtained_at: u64,
}

impl Clone for TokenResponse {
    fn clone(&self) -> (r: Self)
        ensures
            r == *self,
    {
        let refresh_token = match &self.refresh_token {
            Some(t) => Some(t.clone()),
            None => None,
        };
        TokenResponse {
            access_token: self.access_token.clone(),
            refresh_token,
            expires_in: self.expires_in,
            token_type: self.token_type.clone(),
            obtained_at: self.obtained_at,
        }
    }
}

#[verifier::external_type_specification]
#[verifier::external_body]
pub struct ExSystemTime(std::time::SystemTime);

/// `SystemTime::now` reads the system clock. Nothing is claimed of the value.
pub assume_specification[ std::time::SystemTime::now ]() -> (r: std::time::SystemTime)
;

/// The whole seconds from the Unix epoch to `t`, through
/// `SystemTime::duration_since`. A time before the epoch reads as 0. Nothing
/// is claimed of the value, which verified code never compares with `t`.
#[verifier::external_body]
fn seconds_since_epoch(t: &std::time::SystemTime) -> (r: u64) {
    match t.duration_since(std::time::UNIX_EPOCH) {
        Ok(d) => d.as_secs(),
        Err(_) => 0,
    }
}

/// The reading of the system clock, in whole seconds since the Unix epoch.
pub fn unix_seconds() -> (r: u64) {
    let t = std::time::SystemTime::now();
    seconds_since_epoch(&t)
}

impl TokenResponse {
    /// Whether the credential counts as expired at time `now`: true exactly
    /// when `now` has reached the expiry time less the safety margin.
    pub open spec fn expired_at(&self, now: u64) -> bool {
        now as int >= self.obtained_at as int + self.expires_in as int - 60
    }

    /// Whether the credential counts as expired at time `now`.
    pub fn is_expired_at(&self, now: u64) -> (r: bool)
        ensures
            r == self.expired_at(now),
    {
        let lhs: u128 = now as u128 + EXPIRY_MARGIN_SECS as u128;
        let rhs: u128 = self.obtained_at as u128 + self.expires_in as u128;
        lhs >= rhs
    }

    /// Whether the credential counts as expired on the system clock.
    pub fn is_expired(&self) -> (r: bool)
        ensures
            exists|now: u64| r == self.expired_at(now),
    {
        let now: u64 = unix_seconds();
        self.is_expired_at(now)
    }

    /// The same credential, obtained at time `now`.
    pub fn stamped_at(self, now: u64) -> (r: Self)
        ensures
            r == (TokenResponse { obtained_at: now, ..self }),
    {
        let mut t = self;
        t.obtained_at = now;
        t
    }

    /// The same credential, obtained at the current reading of the system
    /// clock.
    pub fn with_timestamp(self) -> (r: Self)
        ensures
            exists|now: u64| r == (TokenResponse { obtained_at: now, ..self }),
    {
        let now: u64 = unix_seconds();
        self.stamped_at(now)
    }

    /// Erases the secret strings of the credential: afterwards the access
    /// token is empty and a refresh token, if there was one, is empty too.
    pub fn erase(&mut self)
        ensures
            final(self).access_token@.len() == 0,
            final(self).refresh_token is Some == old(self).refresh_token is Some,
            final(self).refresh_token is Some ==> final(self).refresh_token->0@.len() == 0,
            final(self).expires_in == old(self).expires_in,
            final(self).token_type == old(self).token_type,
            final(self).obtained_at == old(self).obtained_at,
    {
        erase_text(&mut self.access_token);
        match &mut self.refresh_token {
            Some(t) => {
                erase_text(t);
            },
            None => {},
        }
    }
}

/// What to do with the credential found in the store.
#[derive(Debug, Clone, Copy, PartialEq, Eq, Structural)]
pub enum TokenDecision {
    /// No usable credential: run an authorisation flow.
    Authorize,
    /// The cached credential is still valid.
    UseCached,
    /// The cached credential is expired and carries a refresh token.
    Refresh,
}

/// The decision for a cached credential at time `now`.
pub open spec fn token_decision_spec(cached: Option<TokenResponse>, now: u64) -> TokenDecision {
    match cached {
        None => TokenDecision::Authorize,
        Some(t) => if !t.expired_at(now) {
            TokenDecision::UseCached
        } else if t.refresh_token is Some {
            TokenDecision::Refresh
        } else {
            TokenDecision::Authorize
        },
    }
}

/// Decides what to do with the credential found in the store: an absent one
/// asks for authorisation, a valid one is used, an expired one is refreshed if
/// it carries a refresh token and asks for authorisation otherwise.
pub fn token_decision(cached: &Option<TokenResponse>, now: u64) -> (r: TokenDecision)
    ensures
        r == token_decision_spec(*cached, now),
{
    match cached {
        None => TokenDecision::Authorize,
        Some(t) => {
            if !t.is_expired_at(now) {
                TokenDecision::UseCached
            } else if t.refresh_token.is_some() {
                TokenDecision::Refresh
            } else {
                TokenDecision::Authorize
            }
        },
    }
}

/// The credential that a refresh attempt leaves the caller with: the new one
/// if the refresh succeeded, none if it failed. A failed refresh is never
/// retried.
pub fn refresh_outcome(refreshed: Option<TokenResponse>, now: u64) -> (r: Option<TokenResponse>)
    ensures
        r == match refreshed {
            Some(t) => Some(TokenResponse { obtained_at: now, ..t }),
            None => None,
        },
{
    match refreshed {
        Some(t) => Some(t.stamped_at(now)),
        None => None,
    }
}

// ---- Device-code flow ----

/// What the token endpoint answered to one poll.
pub enum PollReply {
    /// A success status with a readable credential.
    Token(TokenResponse),
    /// A success status whose body holds no readable credential.
    Malformed,
    /// A named error, with its description if it has one.
    Error { code: String, description: Option<String> },
    /// Anything else.
    Unreadable,
    /// No answer: the request failed on the way.
    Transport { message: String },
}

/// What the poll loop does next.
pub enum PollAction {
    /// The flow succeeded: persist the credential and return it.
    Succeed(TokenResponse),
    /// Sleep for `delay` seconds, then poll again.
    Retry { delay: u64 },
    /// The flow ended without a credential.
    Fail(AuthError),
}

/// The seconds to wait after a `slow_down` answer: the interval and the
/// mandatory extra delay, capped at the largest representable value.
pub open spec fn slowed_delay(interval: u64) -> u64 {
    if interval as int + 5 <= u64::MAX {
        (interval + 5) as u64
    } else {
        u64::MAX
    }
}

/// Whether `r` is the action that the reply `reply`, received at time `now`
/// while polling every `interval` seconds, calls for.
pub open spec fn poll_action_for(
    interval: u64,
    reply: PollReply,
    now: u64,
    r: PollAction,
) -> bool {
    match reply {
        PollReply::Token(t) => r == PollAction::Succeed(TokenResponse { obtained_at: now, ..t }),
        PollReply::Malformed => r is Fail && r->Fail_0 is InvalidTokenResponse,
        PollReply::Unreadable => r is Fail && r->Fail_0 is UnexpectedResponse,
        PollReply::Transport { message } => r == PollAction::Fail(
            AuthError::Transport { transport_message: message },
        ),
        PollReply::Error { code, description } => if code@ == "authorization_pending"@ {
            r == (PollAction::Retry { delay: interval })
        } else if code@ == "slow_down"@ {
            r == (PollAction::Retry { delay: slowed_delay(interval) })
        } else if code@ == "expired_token"@ {
            r is Fail && r->Fail_0 is DeviceCodeExpired
        } else {
            &&& r is Fail
            &&& r->Fail_0 is Protocol
            &&& r->Fail_0->protocol_error == code
            &&& r->Fail_0->protocol_description@ == match description {
                Some(d) => d@,
                None => Seq::<char>::empty(),
            }
        },
    }
}

fn code_is(code: &String, name: &str) -> (r: bool)
    ensures
        r == (code@ == name@),
{
    let a = chars_of(code.as_str());
    let b = chars_of(name);
    chars_eq(&a, &b)
}

/// One step of the device-code poll loop: from the answer of the token
/// endpoint to what the loop does next. A credential ends the flow and is
/// stamped with `now`; `authorization_pending` polls again after the interval;
/// `slow_down` polls again after the interval and the extra delay;
/// `expired_token`, any other named error and any unreadable answer end the
/// flow with an error, and so does a request that failed on the way: the loop
/// never retries by itself what the protocol does not tell it to retry.
pub fn poll_step(interval: u64, reply: PollReply, now: u64) -> (r: PollAction)
    ensures
        poll_action_for(interval, reply, now, r),
{
    match reply {
        PollReply::Token(t) => PollAction::Succeed(t.stamped_at(now)),
        PollReply::Malformed => PollAction::Fail(AuthError::InvalidTokenResponse),
        PollReply::Unreadable => PollAction::Fail(AuthError::UnexpectedResponse),
        PollReply::Transport { message } => PollAction::Fail(
            AuthError::Transport { transport_message: message },
        ),
        PollReply::Error { code, description } => {
            if code_is(&code, "authorization_pending") {
                PollAction::Retry { delay: interval }
            } else if code_is(&code, "slow_down") {
                let delay: u64 = if interval <= u64::MAX - SLOW_DOWN_EXTRA_SECS {
                    interval + SLOW_DOWN_EXTRA_SECS
                } else {
                    u64::MAX
                };
                PollAction::Retry { delay }
            } else if code_is(&code, "expired_token") {
                PollAction::Fail(AuthError::DeviceCodeExpired)
            } else {
                let protocol_description = match description {
                    Some(d) => d,
                    None => String::new(),
                };
                PollAction::Fail(AuthError::Protocol { protocol_error: code, protocol_description })
            }
        },
    }
}

// ---- Browser flow ----

/// The SHA-256 digest of a byte string, as `sha2` computes it.
pub uninterp spec fn sha256_spec(data: Seq<u8>) -> Seq<u8>;

/// The URL-safe base64 encoding without padding of a byte string, as `base64`
/// computes it.
pub uninterp spec fn base64url_spec(data: Seq<u8>) -> Seq<char>;

/// Computes the SHA-256 digest of `data` through `sha2::Sha256::digest`. The
/// digest is a function of the data alone and is 32 bytes long.
#[verifier::external_body]
fn sha256(data: &[u8]) -> (r: Vec<u8>)
    ensures
        r@ == sha256_spec(data@),
        r@.len() == 32,
{
    sha2::Sha256::digest(data).to_vec()
}

/// Encodes `data` through `base64::Engine::encode` on the engine
/// `URL_SAFE_NO_PAD`. The text is a function of the data alone; it holds four
/// characters for every three bytes, and two or three for a remainder of one
/// or two bytes. The outside function panics when that length overflows
/// `usize`, which the bound on `data` rules out.
#[verifier::external_body]
fn base64url_nopad(data: &[u8]) -> (r: String)
    requires
        data@.len() <= 0x3000_0000,
    ensures
        r@ == base64url_spec(data@),
        r@.len() == (4 * data@.len() + 2) / 3,
{
    base64::Engine::encode(&base64::engine::general_purpose::URL_SAFE_NO_PAD, data)
}

/// Draws 32 bytes from the thread-local generator of `rand`, through
/// `rand::RngCore::fill_bytes` on `rand::thread_rng()`. Only the length is
/// claimed. The outside function panics if the operating system cannot seed
/// the generator.
#[verifier::external_body]
fn random_bytes() -> (r: Vec<u8>)
    ensures
        r@.len() == 32,
{
    let mut bytes = [0u8; 32];
    rand::RngCore::fill_bytes(&mut rand::thread_rng(), &mut bytes);
    bytes.to_vec()
}

/// The PKCE verifier made from 32 bytes.
pub fn verifier_from_bytes(bytes: &[u8]) -> (r: String)
    requires
        bytes@.len() == 32,
    ensures
        r@ == base64url_spec(bytes@),
        r@.len() == 43,
{
    base64url_nopad(bytes)
}

/// A fresh PKCE verifier: 32 random bytes in URL-safe base64 without padding,
/// which makes 43 characters.
pub fn generate_code_verifier() -> (r: String)
    ensures
        r@.len() == 43,
        exists|bytes: Seq<u8>| bytes.len() == 32 && r@ == base64url_spec(bytes),
{
    let bytes = random_bytes();
    verifier_from_bytes(bytes.as_slice())
}

/// The PKCE challenge of a verifier: the URL-safe base64 encoding, without
/// padding, of the SHA-256 digest of the verifier's UTF-8 bytes.
pub open spec fn code_challenge_spec(verifier: Seq<char>) -> Seq<char> {
    base64url_spec(sha256_spec(encode_utf8(verifier)))
}

/// The PKCE challenge of a verifier.
pub fn compute_code_challenge(verifier: &str) -> (r: String)
    ensures
        r@ == code_challenge_spec(verifier@),
        r@.len() == 43,
{
    let digest = sha256(verifier.as_bytes());
    base64url_nopad(digest.as_slice())
}

/// The challenge depends on the characters of the verifier alone: equal
/// verifiers have equal challenges.
pub proof fn lemma_challenge_deterministic(a: &str, b: &str)
    requires
        a@ == b@,
    ensures
        code_challenge_spec(a@) == code_challenge_spec(b@),
{
}

/// The permissions that every authorisation asks for.
pub fn scopes() -> (r: &'static str)
    ensures
        r@ == scopes_spec(),
{
    "User.Read User.ReadBasic.All Chat.ReadWrite ChatMessage.Read ChatMessage.Send Presence.Read Presence.ReadWrite Team.ReadBasic.All Channel.ReadBasic.All ChannelMessage.Read.All ChannelMessage.Send offline_access"
}

/// The permissions that every authorisation asks for.
pub open spec fn scopes_spec() -> Seq<char> {
    "User.Read User.ReadBasic.All Chat.ReadWrite ChatMessage.Read ChatMessage.Send Presence.Read Presence.ReadWrite Team.ReadBasic.All Channel.ReadBasic.All ChannelMessage.Read.All ChannelMessage.Send offline_access"@
}

/// The address of an endpoint of a tenant.
pub open spec fn endpoint_spec(tenant: Seq<char>, name: Seq<char>) -> Seq<char> {
    "https://login.microsoftonline.com/"@ + tenant + "/oauth2/v2.0/"@ + name
}

fn endpoint(tenant: &str, name: &str) -> (r: Vec<char>)
    ensures
        r@ == endpoint_spec(tenant@, name@),
{
    let mut out: Vec<char> = Vec::new();
    push_str_chars(&mut out, "https://login.microsoftonline.com/");
    push_str_chars(&mut out, tenant);
    push_str_chars(&mut out, "/oauth2/v2.0/");
    push_str_chars(&mut out, name);
    assert(out@ =~= endpoint_spec(tenant@, name@));
    out
}

/// The address of the token endpoint of a tenant.
pub fn token_endpoint(tenant: &str) -> (r: String)
    ensures
        r@ == endpoint_spec(tenant@, "token"@),
{
    let out = endpoint(tenant, "token");
    string_of(&out)
}

/// The address of the device-authorisation endpoint of a tenant.
pub fn device_code_endpoint(tenant: &str) -> (r: String)
    ensures
        r@ == endpoint_spec(tenant@, "devicecode"@),
{
    let out = endpoint(tenant, "devicecode");
    string_of(&out)
}

/// The redirect address of a loopback listener on `port`.
pub fn redirect_uri(port: u16) -> (r: String)
    ensures
        r@ == "http://localhost:"@ + decimal(port as nat),
{
    let mut out: Vec<char> = Vec::new();
    push_str_chars(&mut out, "http://localhost:");
    let mut digits = decimal_of(port as u64);
    out.append(&mut digits);
    assert(out@ =~= "http://localhost:"@ + decimal(port as nat));
    string_of(&out)
}

/// The address that the browser is sent to.
pub open spec fn authorize_url_spec(
    tenant: Seq<char>,
    client_id: Seq<char>,
    redirect: Seq<char>,
    challenge: Seq<char>,
) -> Seq<char> {
    endpoint_spec(tenant, "authorize"@) + "?client_id="@ + percent_encode_spec(
        encode_utf8(client_id),
    ) + "&response_type=code&redirect_uri="@ + percent_encode_spec(encode_utf8(redirect))
        + "&scope="@ + percent_encode_spec(encode_utf8(scopes_spec())) + "&code_challenge="@
        + challenge + "&code_challenge_method=S256&prompt=select_account"@
}

/// Builds the address that the browser is sent to: the tenant's authorisation
/// endpoint with the client, the redirect address and the scopes
/// percent-encoded, and the challenge with its method.
pub fn authorize_url(tenant: &str, client_id: &str, redirect: &str, challenge: &str) -> (r: String)
    ensures
        r@ == authorize_url_spec(tenant@, client_id@, redirect@, challenge@),
{
    let mut out = endpoint(tenant, "authorize");
    push_str_chars(&mut out, "?client_id=");
    let mut a = percent_encode_bytes(client_id.as_bytes());
    out.append(&mut a);
    push_str_chars(&mut out, "&response_type=code&redirect_uri=");
    let mut b = percent_encode_bytes(redirect.as_bytes());
    out.append(&mut b);
    push_str_chars(&mut out, "&scope=");
    let mut c = percent_encode_bytes(scopes().as_bytes());
    out.append(&mut c);
    push_str_chars(&mut out, "&code_challenge=");
    push_str_chars(&mut out, challenge);
    push_str_chars(&mut out, "&code_challenge_method=S256&prompt=select_account");
    assert(out@ =~= authorize_url_spec(tenant@, client_id@, redirect@, challenge@));
    string_of(&out)
}

/// The result of exchanging the authorisation code: the credential, stamped
/// with `now`, when the endpoint reported success and sent a readable one; the
/// response body as a diagnostic when it reported failure.
pub fn exchange_outcome(
    success: bool,
    status: String,
    token: Option<TokenResponse>,
    body: String,
    now: u64,
) -> (r: Result<TokenResponse, AuthError>)
    ensures
        !success ==> r is Err && r->Err_0 == (AuthError::ExchangeFailed {
            exchange_status: status,
            exchange_body: body,
        }),
        success && token is None ==> r is Err && r->Err_0 is InvalidTokenResponse,
        success && token is Some ==> r == Ok::<TokenResponse, AuthError>(
            TokenResponse { obtained_at: now, ..token->0 },
        ),
{
    if !success {
        Err(AuthError::ExchangeFailed { exchange_status: status, exchange_body: body })
    } else {
        match token {
            Some(t) => Ok(t.stamped_at(now)),
            None => Err(AuthError::InvalidTokenResponse),
        }
    }
}

// ---- Stored form ----

/// The tier that holds a stored credential.
#[derive(Debug, Clone, Copy, PartialEq, Eq, Structural)]
pub enum StoreTier {
    /// The credential vault of the operating system.
    Vault,
    /// A file that only the user can read.
    File,
}

/// The tier that a write ends in, given which of the three vault entries were
/// written: the vault only when all three were, the file otherwise.
pub fn store_tier(access_written: bool, refresh_written: bool, metadata_written: bool) -> (r:
    StoreTier)
    ensures
        r == if access_written && refresh_written && metadata_written {
            StoreTier::Vault
        } else {
            StoreTier::File
        },
{
    if access_written && refresh_written && metadata_written {
        StoreTier::Vault
    } else {
        StoreTier::File
    }
}

/// The metadata entry of a credential: its lifetime and the time it was
/// obtained, in decimal, separated by a comma.
pub open spec fn vault_metadata_spec(expires_in: u64, obtained_at: u64) -> Seq<char> {
    decimal(expires_in as nat) + seq![','] + decimal(obtained_at as nat)
}

/// The metadata entry of a credential.
pub fn vault_metadata(token: &TokenResponse) -> (r: String)
    ensures
        r@ == vault_metadata_spec(token.expires_in, token.obtained_at),
{
    let mut out = decimal_of(token.expires_in);
    out.push(',');
    let mut b = decimal_of(token.obtained_at);
    out.append(&mut b);
    assert(out@ =~= vault_metadata_spec(token.expires_in, token.obtained_at));
    string_of(&out)
}

/// The refresh-token entry of a credential: the refresh token, or the empty
/// text when there is none.
pub fn vault_refresh_entry(token: &TokenResponse) -> (r: String)
    ensures
        r@ == match token.refresh_token {
            Some(t) => t@,
            None => Seq::<char>::empty(),
        },
{
    match &token.refresh_token {
        Some(t) => t.clone(),
        None => String::new(),
    }
}

/// The lifetime that a metadata entry gives: its first comma-separated field
/// read in decimal, or the default lifetime.
pub open spec fn metadata_expires_in(meta: Seq<char>) -> u64 {
    match parse_decimal_spec(before(meta, ',')) {
        Some(n) => n,
        None => 3600,
    }
}

/// The time that a metadata entry gives: its second comma-separated field read
/// in decimal, or 0.
pub open spec fn metadata_obtained_at(meta: Seq<char>) -> u64 {
    match after(meta, ',') {
        Some(rest) => match parse_decimal_spec(before(rest, ',')) {
            Some(n) => n,
            None => 0,
        },
        None => 0,
    }
}

/// Reads the two numbers of a metadata entry.
pub fn parse_vault_metadata(meta: &str) -> (r: (u64, u64))
    ensures
        r.0 == metadata_expires_in(meta@),
        r.1 == metadata_obtained_at(meta@),
{
    let v = chars_of(meta);
    let first = take_before(&v, ',');
    let expires_in: u64 = match parse_decimal(&first) {
        Some(n) => n,
        None => DEFAULT_EXPIRES_IN,
    };
    let obtained_at: u64 = match take_after(&v, ',') {
        Some(rest) => {
            let second = take_before(&rest, ',');
            match parse_decimal(&second) {
                Some(n) => n,
                None => 0,
            }
        },
        None => 0,
    };
    (expires_in, obtained_at)
}

/// The credential that three vault entries make. Without a non-empty access
/// token there is none. An empty refresh entry means no refresh token, and a
/// missing metadata entry reads as an empty one.
pub fn token_from_vault(
    access: Option<String>,
    refresh: Option<String>,
    metadata: Option<String>,
) -> (r: Option<TokenResponse>)
    ensures
        r is Some <==> (access is Some && access->0@.len() > 0),
        r is Some ==> {
            &&& r->0.access_token == access->0
            &&& r->0.refresh_token == if refresh is Some && refresh->0@.len() > 0 {
                refresh
            } else {
                None
            }
            &&& r->0.token_type@ == "Bearer"@
            &&& r->0.expires_in == metadata_expires_in(
                match metadata {
                    Some(m) => m@,
                    None => Seq::<char>::empty(),
                },
            )
            &&& r->0.obtained_at == metadata_obtained_at(
                match metadata {
                    Some(m) => m@,
                    None => Seq::<char>::empty(),
                },
            )
        },
{
    let access_token = match access {
        Some(a) => a,
        None => {
            return None;
        },
    };
    if access_token.as_str().is_empty() {
        return None;
    }
    let refresh_token = match refresh {
        Some(t) => if t.as_str().is_empty() {
            None
        } else {
            Some(t)
        },
        None => None,
    };
    let meta = match metadata {
        Some(m) => m,
        None => String::new(),
    };
    let (expires_in, obtained_at) = parse_vault_metadata(meta.as_str());
    Some(
        TokenResponse {
            access_token,
            refresh_token,
            expires_in,
            token_type: String::from_str("Bearer"),
            obtained_at,
        },
    )
}


/// What is written into the metadata entry is read back from it: the lifetime
/// and the time of a credential survive the vault.
pub proof fn lemma_metadata_round_trip(expires_in: u64, obtained_at: u64)
    ensures
        metadata_expires_in(vault_metadata_spec(expires_in, obtained_at)) == expires_in,
        metadata_obtained_at(vault_metadata_spec(expires_in, obtained_at)) == obtained_at,
{
    let a = decimal(expires_in as nat);
    let b = decimal(obtained_at as nat);
    let meta = vault_metadata_spec(expires_in, obtained_at);
    lemma_decimal_has_no(expires_in as nat, ',');
    lemma_decimal_has_no(obtained_at as nat, ',');
    assert(meta[a.len() as int] == ',');
    assert forall|j: int| 0 <= j < a.len() implies !Stop::At(',').hits(#[trigger] meta[j]) by {
        assert(meta[j] == a[j]);
    }
    lemma_run_len(meta, Stop::At(','), a.len() as int);
    assert(meta.take(a.len() as int) =~= a);
    assert(meta.skip(a.len() as int + 1) =~= b);
    lemma_run_len(b, Stop::At(','), b.len() as int);
    assert(b.take(b.len() as int) =~= b);
    lemma_parse_decimal_of_decimal(expires_in);
    lemma_parse_decimal_of_decimal(obtained_at);
}

/// The names of the vault entries that a clearing deletes: the three entries
/// of a credential and the single combined entry that was once used.
pub fn vault_entry_names() -> (r: Vec<&'static str>)
    ensures
        r@.len() == 4,
        r@[0]@ == "at"@,
        r@[1]@ == "rt"@,
        r@[2]@ == "meta"@,
        r@[3]@ == "default"@,
{
    let mut names: Vec<&'static str> = Vec::new();
    names.push("at");
    names.push("rt");
    names.push("meta");
    names.push("default");
    names
}

/// The bytes that are written over a credential file of `len` bytes before it
/// is deleted: as many zeros.
pub fn wipe_pattern(len: usize) -> (r: Vec<u8>)
    ensures
        r@.len() == len,
        forall|i: int| 0 <= i < len ==> r@[i] == 0,
{
    let mut out: Vec<u8> = Vec::new();
    let mut i: usize = 0;
    while i < len
        invariant
            i <= len,
            out@.len() == i,
            forall|j: int| 0 <= j < i ==> out@[j] == 0,
        decreases len - i,
    {
        out.push(0);
        i += 1;
    }
    out
}

/// The credential that a load ends with: the vault's if it holds one, the
/// file's otherwise.
pub fn select_stored(vault: Option<TokenResponse>, file: Option<TokenResponse>) -> (r: Option<
    TokenResponse,
>)
    ensures
        r == if vault is Some {
            vault
        } else {
            file
        },
{
    match vault {
        Some(t) => Some(t),
        None => file,
    }
}

} // verus!
