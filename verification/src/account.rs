//! Account sign-in rules: which server to talk to, how a sign-in reply is
//! checked and recorded, the local fallback when the server cannot be
//! reached, and the account information shown while offline.
use vstd::prelude::*;

use crate::config::AccountConfig;
use crate::download::{lower_hex, status_display, status_reason};
use crate::huggingface::decimal;
use crate::mesh::{hex_decode, hex_decoded, hex_encode};

verus! {

broadcast use vstd::string::group_string_axioms;

/// Result of a sign-in.
#[derive(Clone, Debug)]
pub struct AuthResult {
    pub auth_mode: String,
    pub tier: String,
    pub jwt: String,
    pub license_token: Option<String>,
}

/// Usage counters of an account.
#[derive(Clone, Debug)]
pub struct UsageSummary {
    pub cloud_requests_today: i64,
    pub cloud_requests_limit: Option<i64>,
    pub mesh_seconds_contributed: i64,
    pub mesh_seconds_consumed: i64,
    pub model_downloads_this_month: i64,
}

/// An API key of the account, without its secret.
#[derive(Clone, Debug)]
pub struct ApiKeyInfo {
    pub id: String,
    pub key_prefix: String,
    pub label: String,
    pub created_at: String,
    pub last_used_at: Option<String>,
}

/// A newly created API key, with its secret.
#[derive(Clone, Debug)]
pub struct NewApiKey {
    pub id: String,
    pub key: String,
    pub key_prefix: String,
    pub label: String,
}

/// Account details as the server reports them.
#[derive(Clone, Debug)]
pub struct AccountInfo {
    pub auth_mode: String,
    pub tier: String,
    pub status: String,
    pub user_id: Option<String>,
    pub email: Option<String>,
    pub display_name: Option<String>,
    pub pubkey: Option<String>,
    pub current_period_end: Option<String>,
    pub limits: serde_json::Value,
}

/// Names the member names of a JSON value when it is an object (none when
/// it is not an object).
pub uninterp spec fn json_object_keys(v: serde_json::Value) -> Option<Set<Seq<char>>>;

/// `serde_json::Value::Object` of an empty `serde_json::Map`: the JSON value
/// `{}`, an object without members.
#[verifier::external_body]
fn empty_json_object() -> (v: serde_json::Value)
    ensures
        json_object_keys(v) == Some(Set::<Seq<char>>::empty()),
{
    serde_json::Value::Object(serde_json::Map::new())
}

/// The server for account operations: the configured account server, else
/// the mesh coordination server.
pub fn account_server_url(account: &AccountConfig, coordination_server: &str) -> (r: String)
    ensures
        r@ == match account.server_url {
            Some(u) => u@,
            None => coordination_server@,
        },
{
    match &account.server_url {
        Some(u) => u.clone(),
        None => coordination_server.to_owned(),
    }
}

/// A present, non-empty string field of a reply.
pub open spec fn present(s: Option<Seq<char>>) -> bool {
    s matches Some(v) && v.len() > 0
}

/// The view of an optional string argument.
pub open spec fn opt_view(s: Option<&str>) -> Option<Seq<char>> {
    match s {
        Some(v) => Some(v@),
        None => None,
    }
}

/// The tier of a reply, "community" when it names none.
pub open spec fn tier_or_default(tier: Option<Seq<char>>) -> Seq<char> {
    match tier {
        Some(t) => t,
        None => "community"@,
    }
}

fn nonempty(s: Option<&str>) -> (r: Option<String>)
    ensures
        r is Some <==> present(opt_view(s)),
        r matches Some(v) ==> opt_view(s) == Some(v@),
{
    match s {
        Some(v) => if v.is_empty() {
            None
        } else {
            Some(v.to_owned())
        },
        None => None,
    }
}

fn opt_string(s: Option<&str>) -> (r: Option<String>)
    ensures
        match r {
            Some(v) => opt_view(s) == Some(v@),
            None => s is None,
        },
{
    match s {
        Some(v) => Some(v.to_owned()),
        None => None,
    }
}

/// The account after a successful sign-in was recorded.
pub open spec fn signed_in(
    old_acc: AccountConfig,
    acc: AccountConfig,
    mode: Seq<char>,
    jwt: Seq<char>,
    refresh: Seq<char>,
    tier: Seq<char>,
    license: Option<Seq<char>>,
) -> bool {
    &&& acc.auth_mode matches Some(m) && m@ == mode
    &&& acc.jwt_token matches Some(j) && j@ == jwt
    &&& acc.refresh_token matches Some(r) && r@ == refresh
    &&& acc.tier matches Some(t) && t@ == tier
    &&& match acc.license_token {
        Some(l) => license == Some(l@),
        None => license is None,
    }
    &&& acc.user_id == old_acc.user_id
    &&& acc.display_name == old_acc.display_name
    &&& acc.recovery_email == old_acc.recovery_email
    &&& acc.server_url == old_acc.server_url
}

/// Check a sign-in reply and record it in the account.
///
/// The reply must carry a non-empty JWT ("Server returned empty JWT") and a
/// non-empty refresh token ("Server returned empty refresh token"); the tier
/// defaults to "community". On success the account holds the mode, tokens,
/// tier and license, and the result carries the mode, tier, JWT and license.
/// On failure the account is unchanged.
pub fn complete_sign_in(
    account: &mut AccountConfig,
    auth_mode: &str,
    jwt: Option<&str>,
    refresh_token: Option<&str>,
    tier: Option<&str>,
    license_token: Option<&str>,
) -> (r: Result<AuthResult, String>)
    ensures
        !present(opt_view(jwt)) ==> (r matches Err(e) && e@ == "Server returned empty JWT"@
            && *final(account) == *old(account)),
        present(opt_view(jwt)) && !present(opt_view(refresh_token)) ==> (r matches Err(e) && e@
            == "Server returned empty refresh token"@ && *final(account) == *old(account)),
        present(opt_view(jwt)) && present(opt_view(refresh_token)) ==> (r matches Ok(a) && {
            &&& a.auth_mode@ == auth_mode@
            &&& a.jwt@ == opt_view(jwt)->0
            &&& a.tier@ == tier_or_default(opt_view(tier))
            &&& match a.license_token {
                Some(l) => opt_view(license_token) == Some(l@),
                None => license_token is None,
            }
            &&& signed_in(
                *old(account),
                *final(account),
                auth_mode@,
                opt_view(jwt)->0,
                opt_view(refresh_token)->0,
                tier_or_default(opt_view(tier)),
                opt_view(license_token),
            )
        }),
{
    let jwt = match nonempty(jwt) {
        Some(j) => j,
        None => {
            return Err("Server returned empty JWT".to_owned());
        },
    };
    let refresh = match nonempty(refresh_token) {
        Some(r) => r,
        None => {
            return Err("Server returned empty refresh token".to_owned());
        },
    };
    let tier = match tier {
        Some(t) => t.to_owned(),
        None => "community".to_owned(),
    };
    let license = opt_string(license_token);
    account.auth_mode = Some(auth_mode.to_owned());
    account.jwt_token = Some(jwt.clone());
    account.refresh_token = Some(refresh);
    account.tier = Some(tier.clone());
    account.license_token = match &license {
        Some(l) => Some(l.clone()),
        None => None,
    };
    Ok(AuthResult { auth_mode: auth_mode.to_owned(), tier, jwt, license_token: license })
}

/// The auth mode of a token refresh reply, "email" when it names none.
pub open spec fn refresh_mode(mode: Option<Seq<char>>) -> Seq<char> {
    match mode {
        Some(m) => m,
        None => "email"@,
    }
}

/// Check a token refresh reply and record it; the new JWT on success.
pub fn complete_refresh(
    account: &mut AccountConfig,
    auth_mode: Option<&str>,
    jwt: Option<&str>,
    refresh_token: Option<&str>,
    tier: Option<&str>,
    license_token: Option<&str>,
) -> (r: Result<String, String>)
    ensures
        !present(opt_view(jwt)) ==> (r matches Err(e) && e@ == "Server returned empty JWT"@
            && *final(account) == *old(account)),
        present(opt_view(jwt)) && !present(opt_view(refresh_token)) ==> (r matches Err(e) && e@
            == "Server returned empty refresh token"@ && *final(account) == *old(account)),
        present(opt_view(jwt)) && present(opt_view(refresh_token)) ==> (r matches Ok(j) && j@
            == opt_view(jwt)->0 && signed_in(
            *old(account),
            *final(account),
            refresh_mode(opt_view(auth_mode)),
            opt_view(jwt)->0,
            opt_view(refresh_token)->0,
            tier_or_default(opt_view(tier)),
            opt_view(license_token),
        )),
{
    let mode = match auth_mode {
        Some(m) => m,
        None => "email",
    };
    match complete_sign_in(account, mode, jwt, refresh_token, tier, license_token) {
        Ok(a) => Ok(a.jwt),
        Err(e) => Err(e),
    }
}

/// The stand-in sign-in used when the account server cannot be reached:
/// fixed local tokens on the "pro" tier. The license is left as it was; a
/// display name, when given, is recorded.
pub fn offline_sign_in(account: &mut AccountConfig, auth_mode: &str, display_name: Option<String>) -> (r:
    AuthResult)
    ensures
        r.auth_mode@ == auth_mode@,
        r.tier@ == "pro"@,
        r.jwt@ == "mock_jwt_token_for_local_testing"@,
        r.license_token is None,
        final(account).auth_mode matches Some(m) && m@ == auth_mode@,
        final(account).jwt_token matches Some(j) && j@ == "mock_jwt_token_for_local_testing"@,
        final(account).refresh_token matches Some(t) && t@ == "mock_refresh_token"@,
        final(account).tier matches Some(t) && t@ == "pro"@,
        final(account).license_token == old(account).license_token,
        final(account).display_name == match display_name {
            Some(n) => Some(n),
            None => old(account).display_name,
        },
        final(account).user_id == old(account).user_id,
        final(account).server_url == old(account).server_url,
{
    account.auth_mode = Some(auth_mode.to_owned());
    account.jwt_token = Some("mock_jwt_token_for_local_testing".to_owned());
    account.refresh_token = Some("mock_refresh_token".to_owned());
    account.tier = Some("pro".to_owned());
    if let Some(n) = display_name {
        account.display_name = Some(n);
    }
    AuthResult {
        auth_mode: auth_mode.to_owned(),
        tier: "pro".to_owned(),
        jwt: "mock_jwt_token_for_local_testing".to_owned(),
        license_token: None,
    }
}

/// The account information shown from the local record while the server
/// cannot vouch for it: available when the record holds a license token
/// (after a failed token refresh) or a JWT (when the server is unreachable).
pub fn cached_account_info(account: &AccountConfig, after_failed_refresh: bool) -> (r: Option<
    AccountInfo,
>)
    ensures
        r is Some <==> (if after_failed_refresh {
            account.license_token is Some
        } else {
            account.jwt_token is Some
        }),
        r matches Some(info) ==> ({
            &&& info.auth_mode@ == match account.auth_mode {
                Some(m) => m@,
                None => Seq::<char>::empty(),
            }
            &&& info.tier@ == match account.tier {
                Some(t) => t@,
                None => "community"@,
            }
            &&& info.status@ == "active"@
            &&& info.user_id == account.user_id
            &&& info.email is None
            &&& info.display_name == account.display_name
            &&& info.pubkey is None
            &&& info.current_period_end is None
            &&& json_object_keys(info.limits) == Some(Set::<Seq<char>>::empty())
        }),
{
    let available = if after_failed_refresh {
        account.license_token.is_some()
    } else {
        account.jwt_token.is_some()
    };
    if !available {
        return None;
    }
    Some(
        AccountInfo {
            auth_mode: match &account.auth_mode {
                Some(m) => m.clone(),
                None => String::new(),
            },
            tier: match &account.tier {
                Some(t) => t.clone(),
                None => "community".to_owned(),
            },
            status: "active".to_owned(),
            user_id: match &account.user_id {
                Some(u) => Some(u.clone()),
                None => None,
            },
            email: None,
            display_name: match &account.display_name {
                Some(d) => Some(d.clone()),
                None => None,
            },
            pubkey: None,
            current_period_end: None,
            limits: empty_json_object(),
        },
    )
}


/// The `Authorization` header value for a token.
pub fn bearer(jwt: &str) -> (r: String)
    ensures
        r@ == "Bearer "@ + jwt@,
{
    let mut r = "Bearer ".to_owned();
    r.append(jwt);
    r
}

/// The stored JWT, required by every account request but the sign-ins.
pub fn require_jwt(account: &AccountConfig) -> (r: Result<String, String>)
    ensures
        match account.jwt_token {
            Some(j) => r matches Ok(v) && v@ == j@,
            None => r matches Err(e) && e@ == "Not authenticated"@,
        },
{
    match &account.jwt_token {
        Some(j) => Ok(j.clone()),
        None => Err("Not authenticated".to_owned()),
    }
}

/// Signing out forgets every account field.
pub fn sign_out(account: &mut AccountConfig)
    ensures
        account_is_cleared(*final(account)),
{
    *account = AccountConfig::default();
}

/// Every field of the account record is unset.
pub open spec fn account_is_cleared(a: AccountConfig) -> bool {
    &&& a.auth_mode is None
    &&& a.jwt_token is None
    &&& a.refresh_token is None
    &&& a.tier is None
    &&& a.license_token is None
    &&& a.user_id is None
    &&& a.display_name is None
    &&& a.recovery_email is None
    &&& a.server_url is None
}

/// What a request to the account server came to.
#[derive(Clone, Debug)]
pub enum FetchOutcome {
    /// The server answered with this status.
    Status(u16),
    /// The server could not be reached; the text describes why.
    Unreachable(String),
}

/// The next step of looking up the signed-in account.
#[derive(Debug)]
pub enum AccountStep {
    /// Ask the server for the account, sending this `Authorization` value.
    Fetch(String),
    /// The token expired: refresh it.
    Refresh,
    /// The server's answer is the account.
    UseReply,
    /// Done, with this answer (no account, or the locally recorded one).
    Finish(Option<AccountInfo>),
    /// Done, failing with this error.
    Fail(String),
}

/// Start looking up the account: nothing without a stored token, else ask
/// the server with it.
pub fn account_lookup_start(account: &AccountConfig) -> (r: AccountStep)
    ensures
        match account.jwt_token {
            Some(j) => r matches AccountStep::Fetch(h) && h@ == "Bearer "@ + j@,
            None => r matches AccountStep::Finish(None),
        },
{
    match &account.jwt_token {
        Some(j) => AccountStep::Fetch(bearer(j.as_str())),
        None => AccountStep::Finish(None),
    }
}

/// After the server answered a lookup. On the first try: a success is the
/// account, 401 asks for a token refresh, anything else falls back to the
/// local record. On the retry after a refresh: a success is the account, a
/// refused answer signs the user out, an unreachable server is an error.
pub fn account_after_fetch(account: &mut AccountConfig, outcome: &FetchOutcome, is_retry: bool) -> (r:
    AccountStep)
    ensures
        match *outcome {
            FetchOutcome::Status(code) => if 200 <= code < 300 {
                r is UseReply && *final(account) == *old(account)
            } else if is_retry {
                r matches AccountStep::Finish(None) && account_is_cleared(*final(account))
            } else if code == 401 {
                r is Refresh && *final(account) == *old(account)
            } else {
                *final(account) == *old(account) && (r matches AccountStep::Finish(info)
                    && shows_cached(*old(account), false, info))
            },
            FetchOutcome::Unreachable(e) => *final(account) == *old(account) && (if is_retry {
                r matches AccountStep::Fail(m) && m@ == e@
            } else {
                r matches AccountStep::Finish(info) && shows_cached(*old(account), false, info)
            }),
        },
{
    match outcome {
        FetchOutcome::Status(code) => {
            let code = *code;
            if 200 <= code && code < 300 {
                AccountStep::UseReply
            } else if is_retry {
                sign_out(account);
                AccountStep::Finish(None)
            } else if code == 401 {
                AccountStep::Refresh
            } else {
                AccountStep::Finish(cached_account_info(account, false))
            }
        },
        FetchOutcome::Unreachable(e) => {
            if is_retry {
                AccountStep::Fail(e.clone())
            } else {
                AccountStep::Finish(cached_account_info(account, false))
            }
        },
    }
}

/// After a token refresh: retry the lookup with the new token, or fall
/// back to the local record when the refresh failed.
pub fn account_after_refresh(account: &AccountConfig, refreshed: &Result<String, String>) -> (r:
    AccountStep)
    ensures
        match *refreshed {
            Ok(j) => r matches AccountStep::Fetch(h) && h@ == "Bearer "@ + j@,
            Err(_) => r matches AccountStep::Finish(info) && shows_cached(*account, true, info),
        },
{
    match refreshed {
        Ok(j) => AccountStep::Fetch(bearer(j.as_str())),
        Err(_) => AccountStep::Finish(cached_account_info(account, true)),
    }
}

/// `info` is what `cached_account_info` gives for the account.
pub open spec fn shows_cached(account: AccountConfig, after_failed_refresh: bool, info: Option<
    AccountInfo,
>) -> bool {
    &&& (info is Some <==> (if after_failed_refresh {
        account.license_token is Some
    } else {
        account.jwt_token is Some
    }))
    &&& info matches Some(i) ==> ({
        &&& i.auth_mode@ == match account.auth_mode {
            Some(m) => m@,
            None => Seq::<char>::empty(),
        }
        &&& i.tier@ == match account.tier {
            Some(t) => t@,
            None => "community"@,
        }
        &&& i.status@ == "active"@
        &&& i.user_id == account.user_id
        &&& i.email is None
        &&& i.display_name == account.display_name
        &&& i.pubkey is None
        &&& i.current_period_end is None
    })
}

/// Names the Ed25519 public key of a 32-byte secret key.
pub uninterp spec fn ed25519_public_key(secret: Seq<u8>) -> Seq<u8>;

/// Names the Ed25519 signature (RFC 8032, deterministic) of a message under
/// a 32-byte secret key.
pub uninterp spec fn ed25519_signature(secret: Seq<u8>, msg: Seq<u8>) -> Seq<u8>;

/// `ed25519_dalek::SigningKey::from_bytes(..).verifying_key().to_bytes()`:
/// the 32-byte public key of the secret key.
#[verifier::external_body]
fn public_key_of(secret: &[u8; 32]) -> (r: Vec<u8>)
    ensures
        r@ == ed25519_public_key(secret@),
        r@.len() == 32,
{
    ed25519_dalek::SigningKey::from_bytes(secret).verifying_key().to_bytes().to_vec()
}

/// `ed25519_dalek::Signer::sign` with the secret key, then `to_bytes`: the
/// 64-byte signature of the message.
#[verifier::external_body]
fn sign_with(secret: &[u8; 32], msg: &[u8]) -> (r: Vec<u8>)
    ensures
        r@ == ed25519_signature(secret@, msg@),
        r@.len() == 64,
{
    let key = ed25519_dalek::SigningKey::from_bytes(secret);
    ed25519_dalek::Signer::sign(&key, msg).to_bytes().to_vec()
}

/// The device's public key, hex encoded, as sent to request a challenge.
pub fn device_pubkey_hex(secret: &[u8; 32]) -> (r: String)
    ensures
        r@ == lower_hex(ed25519_public_key(secret@)),
{
    let pk = public_key_of(secret);
    hex_encode(pk.as_slice())
}

/// The answer to a device-key challenge.
#[derive(Clone, Debug)]
pub struct DeviceProof {
    pub pubkey_hex: String,
    pub nonce: String,
    pub signature_hex: String,
}

/// Answer the server's challenge: the nonce (hex) is decoded and signed
/// with the device key. A missing nonce or one that is not hex is refused.
pub fn answer_device_challenge(secret: &[u8; 32], nonce: Option<&str>) -> (r: Result<
    DeviceProof,
    String,
>)
    ensures
        match nonce {
            None => r matches Err(e) && e@ == "Missing nonce"@,
            Some(n) => match hex_decoded(n@) {
                None => r matches Err(e) && e@ == "Invalid nonce"@,
                Some(bytes) => r matches Ok(p) && p.pubkey_hex@ == lower_hex(
                    ed25519_public_key(secret@),
                ) && p.nonce@ == n@ && p.signature_hex@ == lower_hex(
                    ed25519_signature(secret@, bytes),
                ),
            },
        },
{
    let n = match nonce {
        Some(n) => n,
        None => {
            return Err("Missing nonce".to_owned());
        },
    };
    let bytes = match hex_decode(n) {
        Some(b) => b,
        None => {
            return Err("Invalid nonce".to_owned());
        },
    };
    let sig = sign_with(secret, bytes.as_slice());
    Ok(
        DeviceProof {
            pubkey_hex: device_pubkey_hex(secret),
            nonce: n.to_owned(),
            signature_hex: hex_encode(sig.as_slice()),
        },
    )
}

/// The error when the server refuses the signed challenge.
pub fn device_verify_failure(status: u16, body: &str) -> (r: String)
    requires
        100 <= status <= 999,
    ensures
        r@ == "Device verification failed ("@ + decimal(status as nat) + " "@ + status_reason(
            status,
        ) + "): "@ + body@,
{
    let mut m = "Device verification failed (".to_owned();
    let s = status_display(status);
    m.append(s.as_str());
    m.append("): ");
    m.append(body);
    m
}

} // verus!
