use hivebear::keymap::KeyMap;
use hivebear::secrets::{
    get_all_api_keys, keychain_service, keychain_user, known_providers, migrate_plaintext_keys,
    plaintext_keys_to_migrate,
};

#[test]
fn keychain_entry_names() {
    assert_eq!(keychain_service(), "hivebear");
    assert_eq!(keychain_user("groq"), "cloud::groq");
    let p = known_providers();
    assert_eq!(p.len(), 32);
    assert_eq!(p[0], "openai");
    assert_eq!(p[31], "ollama");
}

#[test]
fn collects_found_keys_only() {
    let keys = get_all_api_keys(
        &["openai", "groq", "xai"],
        &[Some("sk-1".into()), None, Some("xk".into())],
    );
    assert_eq!(keys.len(), 2);
    assert_eq!(keys.get("openai").as_deref(), Some("sk-1"));
    assert_eq!(keys.get("groq"), None);
    assert_eq!(keys.get("xai").as_deref(), Some("xk"));
}

#[test]
fn migration_skips_empty_keys_and_reports_stored_ones() {
    let mut m = KeyMap::new();
    m.insert("openai".into(), "sk".into());
    m.insert("groq".into(), "".into());
    m.insert("xai".into(), "xk".into());
    let todo = plaintext_keys_to_migrate(&m);
    assert_eq!(todo, vec![("openai".to_string(), "sk".to_string()), ("xai".to_string(), "xk".to_string())]);
    assert_eq!(migrate_plaintext_keys(&todo, &[false, true]), vec!["xai".to_string()]);
    assert!(migrate_plaintext_keys(&[], &[]).is_empty());
}

#[test]
fn repeated_provider_keeps_its_one_key() {
    let keys = get_all_api_keys(&["a", "b", "a"], &[Some("k".into()), None, Some("k".into())]);
    assert_eq!(keys.len(), 1);
    assert_eq!(keys.get("a").as_deref(), Some("k"));
    assert!(!keys.contains_key("b"));
}

#[test]
fn migrated_providers_are_named_once() {
    let mut m = KeyMap::new();
    m.insert("openai".into(), "k1".into());
    m.insert("groq".into(), "".into());
    m.insert("openai".into(), "k2".into());
    m.insert("xai".into(), "k3".into());
    let todo = plaintext_keys_to_migrate(&m);
    assert_eq!(todo, vec![("openai".to_string(), "k2".to_string()), ("xai".to_string(), "k3".to_string())]);
    assert_eq!(migrate_plaintext_keys(&todo, &[true, true]), vec!["openai".to_string(), "xai".to_string()]);
}

#[test]
fn later_found_key_wins_for_a_repeated_provider() {
    let keys = get_all_api_keys(&["a", "b", "a"], &[Some("1".into()), None, Some("2".into())]);
    assert_eq!(keys.get("a").as_deref(), Some("2"));
    let keys = get_all_api_keys(&["a", "b", "a"], &[Some("1".into()), None, None]);
    assert_eq!(keys.get("a").as_deref(), Some("1"));
    assert_eq!(keys.len(), 1);
}
