use hivebear::config::hf_token_to_export;
use hivebear::config::validate_settings;
use hivebear::config::{
    default_bootstrap_servers, default_compression, default_protocol, default_relay_servers,
    default_stun_servers, default_transfer_dtype, default_true, AccountConfig, ApiConfig,
    CloudConfig,
};
use hivebear::keymap::KeyMap;

#[test]
fn api_config_defaults() {
    let c = ApiConfig::default();
    assert_eq!(c.api_key, None);
    assert_eq!(c.bind_address, "127.0.0.1");
    assert_eq!(c.cors_origins, vec!["*".to_string()]);
}

#[test]
fn serde_field_defaults() {
    assert!(default_true());
    assert_eq!(default_bootstrap_servers(), vec!["https://mesh.hivebear.com".to_string()]);
    assert_eq!(default_stun_servers(), vec!["stun.l.google.com:19302".to_string()]);
    assert_eq!(default_relay_servers(), vec!["relay.hivebear.com:3478".to_string()]);
    assert_eq!(default_compression(), "auto");
    assert_eq!(default_transfer_dtype(), "auto");
    assert_eq!(default_protocol(), "openai");
}

#[test]
fn account_default_is_signed_out() {
    let a = AccountConfig::default();
    assert!(a.auth_mode.is_none() && a.jwt_token.is_none() && a.refresh_token.is_none());
    assert!(a.license_token.is_none() && a.tier.is_none() && a.server_url.is_none());
}

#[test]
fn migrate_legacy_moves_keys_without_overwriting() {
    let mut c = CloudConfig::default();
    c.api_keys.insert("openai".into(), "sk-new".into());
    c.openai_api_key = Some("sk-old".into());
    c.anthropic_api_key = Some("sk-ant".into());
    c.migrate_legacy();
    assert_eq!(c.api_keys.get("openai").as_deref(), Some("sk-new"));
    assert_eq!(c.api_keys.get("anthropic").as_deref(), Some("sk-ant"));
    assert!(c.openai_api_key.is_none() && c.anthropic_api_key.is_none());
    c.migrate_legacy();
    assert_eq!(c.api_keys.len(), 2);
}

#[test]
fn migrate_legacy_adopts_openai_key() {
    let mut c = CloudConfig::default();
    c.openai_api_key = Some("sk-1".into());
    c.migrate_legacy();
    assert_eq!(c.api_keys.get("openai").as_deref(), Some("sk-1"));
    assert_eq!(c.api_keys.get("anthropic"), None);
}

#[test]
fn key_map_keeps_order_and_distinct_keys() {
    let mut m = KeyMap::new();
    m.insert("b".into(), "1".into());
    m.insert("a".into(), "2".into());
    m.insert("b".into(), "3".into());
    assert_eq!(m.len(), 2);
    assert_eq!(m.entries(), vec![("b".to_string(), "3".to_string()), ("a".to_string(), "2".to_string())]);
    assert!(!m.insert_if_absent("a".into(), "9".into()));
    assert!(m.insert_if_absent("c".into(), "4".into()));
    m.remove("b");
    assert!(!m.contains_key("b"));
    assert_eq!(m.entries(), vec![("a".to_string(), "2".to_string()), ("c".to_string(), "4".to_string())]);
    m.remove("zz");
    assert_eq!(m.len(), 2);
}

#[test]
fn hf_token_is_exported_when_set() {
    let mut keys = KeyMap::new();
    assert_eq!(hf_token_to_export(&keys), None);
    keys.insert("huggingface".to_string(), String::new());
    assert_eq!(hf_token_to_export(&keys), None);
    keys.insert("huggingface".to_string(), "hf_abc".to_string());
    assert_eq!(hf_token_to_export(&keys).as_deref(), Some("hf_abc"));
}

#[test]
fn settings_are_validated_in_order() {
    assert!(validate_settings(true, true, 4096, 10, 7878, true, true, true).is_ok());
    assert!(validate_settings(true, true, 512, 1, 0, true, true, true).is_ok());
    assert_eq!(validate_settings(false, false, 0, 0, 1, false, false, false).unwrap_err(), "max_memory_usage must be between 0.1 and 1.0");
    assert_eq!(validate_settings(true, false, 4096, 10, 7878, true, true, true).unwrap_err(), "min_tokens_per_sec must be between 0 and 1000");
    assert_eq!(validate_settings(true, true, 511, 10, 7878, true, true, true).unwrap_err(), "default_context_length must be between 512 and 131072");
    assert_eq!(validate_settings(true, true, 131073, 10, 7878, true, true, true).unwrap_err(), "default_context_length must be between 512 and 131072");
    assert_eq!(validate_settings(true, true, 4096, 0, 7878, true, true, true).unwrap_err(), "top_n_recommendations must be between 1 and 100");
    assert_eq!(validate_settings(true, true, 4096, 101, 7878, true, true, true).unwrap_err(), "top_n_recommendations must be between 1 and 100");
    assert_eq!(validate_settings(true, true, 4096, 10, 1023, true, true, true).unwrap_err(), "mesh port must be 0 (auto) or >= 1024");
    assert_eq!(validate_settings(true, true, 4096, 10, 1024, false, true, true).unwrap_err(), "mesh max_contribution_percent must be between 0.0 and 1.0");
    assert_eq!(validate_settings(true, true, 4096, 10, 1024, true, false, true).unwrap_err(), "mesh min_reputation must be between 0.0 and 1.0");
    assert_eq!(validate_settings(true, true, 4096, 10, 1024, true, true, false).unwrap_err(), "mesh verification_rate must be between 0.0 and 1.0");
}
