//! Configuration sections without floating-point settings: the API server,
//! cloud providers, custom endpoints and the account, with their defaults
//! and the migration of legacy provider keys.
use vstd::prelude::*;

use crate::keymap::KeyMap;

verus! {

broadcast use vstd::string::group_string_axioms;

/// Default for switches that are on unless configured off.
pub fn default_true() -> (r: bool)
    ensures
        r,
{
    true
}

/// A list holding one string.
fn one_string(s: &str) -> (r: Vec<String>)
    ensures
        r@.len() == 1,
        r@[0]@ == s@,
{
    let mut v: Vec<String> = Vec::new();
    v.push(s.to_owned());
    v
}

/// Default bootstrap coordination servers.
pub fn default_bootstrap_servers() -> (r: Vec<String>)
    ensures
        r@.len() == 1,
        r@[0]@ == "https://mesh.hivebear.com"@,
{
    one_string("https://mesh.hivebear.com")
}

/// Default STUN servers for NAT traversal.
pub fn default_stun_servers() -> (r: Vec<String>)
    ensures
        r@.len() == 1,
        r@[0]@ == "stun.l.google.com:19302"@,
{
    one_string("stun.l.google.com:19302")
}

/// Default relay servers for symmetric-NAT fallback.
pub fn default_relay_servers() -> (r: Vec<String>)
    ensures
        r@.len() == 1,
        r@[0]@ == "relay.hivebear.com:3478"@,
{
    one_string("relay.hivebear.com:3478")
}

/// Default tensor-transfer compression.
pub fn default_compression() -> (r: String)
    ensures
        r@ == "auto"@,
{
    "auto".to_owned()
}

/// Default tensor-transfer data type.
pub fn default_transfer_dtype() -> (r: String)
    ensures
        r@ == "auto"@,
{
    "auto".to_owned()
}

/// Default protocol of a custom endpoint.
pub fn default_protocol() -> (r: String)
    ensures
        r@ == "openai"@,
{
    "openai".to_owned()
}

/// API server configuration.
#[derive(Clone, Debug)]
pub struct ApiConfig {
    /// Bearer-token key; generated on first server start when `None`.
    pub api_key: Option<String>,
    pub bind_address: String,
    pub cors_origins: Vec<String>,
}

impl Default for ApiConfig {
    fn default() -> (c: ApiConfig)
        ensures
            c.api_key is None,
            c.bind_address@ == "127.0.0.1"@,
            c.cors_origins@.len() == 1,
            c.cors_origins@[0]@ == "*"@,
    {
        ApiConfig {
            api_key: None,
            bind_address: "127.0.0.1".to_owned(),
            cors_origins: one_string("*"),
        }
    }
}

/// A user-defined OpenAI-compatible (or other protocol) endpoint.
#[derive(Clone, Debug)]
pub struct CustomEndpoint {
    pub name: String,
    pub base_url: String,
    pub api_key: Option<String>,
    /// "openai", "anthropic", "gemini" or "cohere".
    pub protocol: String,
}

/// Cloud provider configuration. Provider keys live in `api_keys`, keyed by
/// provider prefix; the two legacy key fields are read for compatibility
/// and folded into `api_keys` by `migrate_legacy`.
pub struct CloudConfig {
    pub api_keys: KeyMap,
    pub custom_endpoints: Vec<CustomEndpoint>,
    pub cloud_fallback: bool,
    pub default_provider: Option<String>,
    pub openai_api_key: Option<String>,
    pub anthropic_api_key: Option<String>,
}

impl Default for CloudConfig {
    fn default() -> (c: CloudConfig)
        ensures
            c.api_keys.pairs().len() == 0,
            c.custom_endpoints@.len() == 0,
            !c.cloud_fallback,
            c.default_provider is None,
            c.openai_api_key is None,
            c.anthropic_api_key is None,
    {
        CloudConfig {
            api_keys: KeyMap::new(),
            custom_endpoints: Vec::new(),
            cloud_fallback: false,
            default_provider: None,
            openai_api_key: None,
            anthropic_api_key: None,
        }
    }
}

/// `m` with `key` set to `legacy` when there is a legacy key and `m` has
/// none for that provider yet.
pub open spec fn fold_legacy(
    m: Map<Seq<char>, Seq<char>>,
    key: Seq<char>,
    legacy: Option<String>,
) -> Map<Seq<char>, Seq<char>> {
    match legacy {
        Some(k) => if m.contains_key(key) {
            m
        } else {
            m.insert(key, k@)
        },
        None => m,
    }
}

/// The provider keys after folding in the legacy OpenAI and Anthropic keys.
pub open spec fn migrated_keys(
    m: Map<Seq<char>, Seq<char>>,
    openai: Option<String>,
    anthropic: Option<String>,
) -> Map<Seq<char>, Seq<char>> {
    fold_legacy(fold_legacy(m, "openai"@, openai), "anthropic"@, anthropic)
}

impl CloudConfig {
    /// Fold the legacy `openai_api_key` and `anthropic_api_key` fields into
    /// `api_keys`, without overwriting a key already there, and clear them.
    pub fn migrate_legacy(&mut self)
        ensures
            final(self).api_keys@ == migrated_keys(
                old(self).api_keys@,
                old(self).openai_api_key,
                old(self).anthropic_api_key,
            ),
            final(self).openai_api_key is None,
            final(self).anthropic_api_key is None,
            final(self).custom_endpoints == old(self).custom_endpoints,
            final(self).cloud_fallback == old(self).cloud_fallback,
            final(self).default_provider == old(self).default_provider,
    {
        let openai = self.openai_api_key.take();
        if let Some(key) = openai {
            self.api_keys.insert_if_absent("openai".to_owned(), key);
        }
        let anthropic = self.anthropic_api_key.take();
        if let Some(key) = anthropic {
            self.api_keys.insert_if_absent("anthropic".to_owned(), key);
        }
    }
}

/// Migrating legacy keys a second time changes nothing.
pub proof fn migrate_legacy_idempotent(m: Map<Seq<char>, Seq<char>>, openai: Option<String>, anthropic: Option<String>)
    ensures
        migrated_keys(migrated_keys(m, openai, anthropic), None, None) == migrated_keys(
            m,
            openai,
            anthropic,
        ),
{
}

/// Migration never overwrites a key that is already configured, and every
/// provider other than the two legacy ones keeps its key.
pub proof fn migrate_legacy_keeps_existing_keys(
    m: Map<Seq<char>, Seq<char>>,
    openai: Option<String>,
    anthropic: Option<String>,
    provider: Seq<char>,
)
    requires
        m.contains_key(provider),
    ensures
        migrated_keys(m, openai, anthropic).contains_key(provider),
        migrated_keys(m, openai, anthropic)[provider] == m[provider],
{
}

/// A legacy key for a provider without a configured key becomes its key.
pub proof fn migrate_legacy_adopts_missing_keys(
    m: Map<Seq<char>, Seq<char>>,
    openai: String,
    anthropic: Option<String>,
)
    requires
        !m.contains_key("openai"@),
    ensures
        migrated_keys(m, Some(openai), anthropic)["openai"@] == openai@,
{
    reveal_strlit("openai");
    reveal_strlit("anthropic");
}

/// Account and subscription configuration: email accounts and anonymous
/// device-key identities share it.
#[derive(Clone, Debug)]
pub struct AccountConfig {
    /// "email" or "device"; `None` when not signed in.
    pub auth_mode: Option<String>,
    pub jwt_token: Option<String>,
    pub refresh_token: Option<String>,
    /// Signed license for offline tier checks (device accounts).
    pub license_token: Option<String>,
    pub tier: Option<String>,
    pub user_id: Option<String>,
    pub display_name: Option<String>,
    pub recovery_email: Option<String>,
    pub server_url: Option<String>,
}

/// Every field of the account section is unset.
pub open spec fn account_is_empty(a: AccountConfig) -> bool {
    &&& a.auth_mode is None
    &&& a.jwt_token is None
    &&& a.refresh_token is None
    &&& a.license_token is None
    &&& a.tier is None
    &&& a.user_id is None
    &&& a.display_name is None
    &&& a.recovery_email is None
    &&& a.server_url is None
}

impl Default for AccountConfig {
    fn default() -> (c: AccountConfig)
        ensures
            account_is_empty(c),
    {
        AccountConfig {
            auth_mode: None,
            jwt_token: None,
            refresh_token: None,
            license_token: None,
            tier: None,
            user_id: None,
            display_name: None,
            recovery_email: None,
            server_url: None,
        }
    }
}


/// The HuggingFace token to export as `HF_TOKEN`: the stored
/// `huggingface` key, when it is set and not empty.
pub fn hf_token_to_export(api_keys: &KeyMap) -> (r: Option<String>)
    ensures
        match r {
            Some(t) => api_keys@.contains_key("huggingface"@) && t@ == api_keys@["huggingface"@]
                && t@.len() > 0,
            None => !api_keys@.contains_key("huggingface"@) || api_keys@["huggingface"@].len()
                == 0,
        },
{
    match api_keys.get("huggingface") {
        Some(t) => if t.unicode_len() > 0 {
            Some(t)
        } else {
            None
        },
        None => None,
    }
}

/// The settings checks, in the order they are made. The range checks on
/// fractional settings are made by the caller and passed in as flags; the
/// integer settings are checked here.
pub fn validate_settings(
    memory_usage_in_range: bool,
    tokens_per_sec_in_range: bool,
    default_context_length: u32,
    top_n_recommendations: usize,
    mesh_port: u16,
    contribution_in_range: bool,
    reputation_in_range: bool,
    verification_rate_in_range: bool,
) -> (r: Result<(), String>)
    ensures
        match settings_verdict(
            memory_usage_in_range,
            tokens_per_sec_in_range,
            default_context_length,
            top_n_recommendations,
            mesh_port,
            contribution_in_range,
            reputation_in_range,
            verification_rate_in_range,
        ) {
            Ok(_) => r is Ok,
            Err(m) => r matches Err(e) && e@ == m,
        },
{
    if !memory_usage_in_range {
        return Err("max_memory_usage must be between 0.1 and 1.0".to_owned());
    }
    if !tokens_per_sec_in_range {
        return Err("min_tokens_per_sec must be between 0 and 1000".to_owned());
    }
    if default_context_length < 512 || default_context_length > 131072 {
        return Err("default_context_length must be between 512 and 131072".to_owned());
    }
    if top_n_recommendations == 0 || top_n_recommendations > 100 {
        return Err("top_n_recommendations must be between 1 and 100".to_owned());
    }
    if mesh_port > 0 && mesh_port < 1024 {
        return Err("mesh port must be 0 (auto) or >= 1024".to_owned());
    }
    if !contribution_in_range {
        return Err("mesh max_contribution_percent must be between 0.0 and 1.0".to_owned());
    }
    if !reputation_in_range {
        return Err("mesh min_reputation must be between 0.0 and 1.0".to_owned());
    }
    if !verification_rate_in_range {
        return Err("mesh verification_rate must be between 0.0 and 1.0".to_owned());
    }
    Ok(())
}

/// The first failed settings check, by its message, or success.
pub open spec fn settings_verdict(
    memory_usage_in_range: bool,
    tokens_per_sec_in_range: bool,
    default_context_length: u32,
    top_n_recommendations: usize,
    mesh_port: u16,
    contribution_in_range: bool,
    reputation_in_range: bool,
    verification_rate_in_range: bool,
) -> Result<(), Seq<char>> {
    if !memory_usage_in_range {
        Err("max_memory_usage must be between 0.1 and 1.0"@)
    } else if !tokens_per_sec_in_range {
        Err("min_tokens_per_sec must be between 0 and 1000"@)
    } else if default_context_length < 512 || default_context_length > 131072 {
        Err("default_context_length must be between 512 and 131072"@)
    } else if top_n_recommendations == 0 || top_n_recommendations > 100 {
        Err("top_n_recommendations must be between 1 and 100"@)
    } else if mesh_port > 0 && mesh_port < 1024 {
        Err("mesh port must be 0 (auto) or >= 1024"@)
    } else if !contribution_in_range {
        Err("mesh max_contribution_percent must be between 0.0 and 1.0"@)
    } else if !reputation_in_range {
        Err("mesh min_reputation must be between 0.0 and 1.0"@)
    } else if !verification_rate_in_range {
        Err("mesh verification_rate must be between 0.0 and 1.0"@)
    } else {
        Ok(())
    }
}

/// Settings are accepted exactly when every value is in its documented
/// range: the context length from 512 to 131072 tokens, between 1 and 100
/// recommendations, a mesh port of 0 (chosen automatically) or at least
/// 1024, and the fractional settings in range.
pub proof fn settings_accepted_exactly_in_range(
    memory_usage_in_range: bool,
    tokens_per_sec_in_range: bool,
    default_context_length: u32,
    top_n_recommendations: usize,
    mesh_port: u16,
    contribution_in_range: bool,
    reputation_in_range: bool,
    verification_rate_in_range: bool,
)
    ensures
        settings_verdict(
            memory_usage_in_range,
            tokens_per_sec_in_range,
            default_context_length,
            top_n_recommendations,
            mesh_port,
            contribution_in_range,
            reputation_in_range,
            verification_rate_in_range,
        ) is Ok <==> {
            &&& memory_usage_in_range
            &&& tokens_per_sec_in_range
            &&& 512 <= default_context_length <= 131072
            &&& 1 <= top_n_recommendations <= 100
            &&& (mesh_port == 0 || mesh_port >= 1024)
            &&& contribution_in_range
            &&& reputation_in_range
            &&& verification_rate_in_range
        },
{
}

} // verus!
