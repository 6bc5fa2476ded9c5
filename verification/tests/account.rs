use hivebear::account::{
    account_after_fetch, account_after_refresh, account_lookup_start, account_server_url,
    answer_device_challenge, bearer, cached_account_info, complete_refresh, complete_sign_in,
    device_pubkey_hex, device_verify_failure, offline_sign_in, require_jwt, sign_out, AccountStep,
    FetchOutcome,
};
use hivebear::config::AccountConfig;

const RFC8032_SECRET: [u8; 32] = [
    0x9d, 0x61, 0xb1, 0x9d, 0xef, 0xfd, 0x5a, 0x60, 0xba, 0x84, 0x4a, 0xf4, 0x92, 0xec, 0x2c, 0xc4,
    0x44, 0x49, 0xc5, 0x69, 0x7b, 0x32, 0x69, 0x19, 0x70, 0x3b, 0xac, 0x03, 0x1c, 0xae, 0x7f, 0x60,
];

#[test]
fn account_server_defaults_to_the_coordinator() {
    let mut a = AccountConfig::default();
    assert_eq!(account_server_url(&a, "http://coord"), "http://coord");
    a.server_url = Some("https://acct".into());
    assert_eq!(account_server_url(&a, "http://coord"), "https://acct");
}

#[test]
fn sign_in_requires_both_tokens() {
    let mut a = AccountConfig::default();
    assert_eq!(complete_sign_in(&mut a, "email", Some(""), Some("r"), None, None).unwrap_err(), "Server returned empty JWT");
    assert_eq!(complete_sign_in(&mut a, "email", Some("j"), None, None, None).unwrap_err(), "Server returned empty refresh token");
    assert!(a.jwt_token.is_none());
    let ok = complete_sign_in(&mut a, "device", Some("j"), Some("r"), None, Some("lic")).unwrap();
    assert_eq!(ok.auth_mode, "device");
    assert_eq!(ok.tier, "community");
    assert_eq!(ok.jwt, "j");
    assert_eq!(ok.license_token.as_deref(), Some("lic"));
    assert_eq!(a.refresh_token.as_deref(), Some("r"));
    assert_eq!(a.tier.as_deref(), Some("community"));
}

#[test]
fn refresh_defaults_to_email_mode() {
    let mut a = AccountConfig::default();
    let jwt = complete_refresh(&mut a, None, Some("new"), Some("r2"), Some("pro"), None).unwrap();
    assert_eq!(jwt, "new");
    assert_eq!(a.auth_mode.as_deref(), Some("email"));
    assert_eq!(a.tier.as_deref(), Some("pro"));
}

#[test]
fn offline_sign_in_uses_local_tokens() {
    let mut a = AccountConfig::default();
    let r = offline_sign_in(&mut a, "email", Some("Ada".into()));
    assert_eq!(r.jwt, "mock_jwt_token_for_local_testing");
    assert_eq!(r.tier, "pro");
    assert_eq!(a.refresh_token.as_deref(), Some("mock_refresh_token"));
    assert_eq!(a.display_name.as_deref(), Some("Ada"));
}

#[test]
fn cached_info_needs_a_license_after_a_failed_refresh() {
    let mut a = AccountConfig::default();
    a.jwt_token = Some("j".into());
    assert!(cached_account_info(&a, true).is_none());
    let info = cached_account_info(&a, false).unwrap();
    assert_eq!(info.tier, "community");
    assert_eq!(info.status, "active");
    assert_eq!(info.auth_mode, "");
    assert_eq!(info.limits, serde_json::Value::Object(serde_json::Map::new()));
    assert_eq!(info.limits.to_string(), "{}");
    a.license_token = Some("l".into());
    assert!(cached_account_info(&a, true).is_some());
}

#[test]
fn account_lookup_follows_the_server() {
    let mut a = AccountConfig::default();
    assert!(matches!(account_lookup_start(&a), AccountStep::Finish(None)));
    a.jwt_token = Some("j".into());
    a.refresh_token = Some("r".into());
    assert!(matches!(account_lookup_start(&a), AccountStep::Fetch(h) if h == "Bearer j"));
    assert!(matches!(account_after_fetch(&mut a, &FetchOutcome::Status(200), false), AccountStep::UseReply));
    assert!(matches!(account_after_fetch(&mut a, &FetchOutcome::Status(401), false), AccountStep::Refresh));
    assert!(matches!(account_after_fetch(&mut a, &FetchOutcome::Status(500), false), AccountStep::Finish(Some(_))));
    assert!(matches!(account_after_fetch(&mut a, &FetchOutcome::Unreachable("down".into()), false), AccountStep::Finish(Some(_))));
    assert!(matches!(account_after_refresh(&a, &Ok("k".into())), AccountStep::Fetch(h) if h == "Bearer k"));
    assert!(matches!(account_after_refresh(&a, &Err("no".into())), AccountStep::Finish(None)));
    assert!(matches!(account_after_fetch(&mut a, &FetchOutcome::Unreachable("down".into()), true), AccountStep::Fail(m) if m == "down"));
    assert!(a.jwt_token.is_some());
    assert!(matches!(account_after_fetch(&mut a, &FetchOutcome::Status(401), true), AccountStep::Finish(None)));
    assert!(a.jwt_token.is_none());
    assert!(a.refresh_token.is_none());
}

#[test]
fn requests_need_a_token() {
    let mut a = AccountConfig::default();
    assert_eq!(require_jwt(&a).unwrap_err(), "Not authenticated");
    a.jwt_token = Some("t".into());
    assert_eq!(require_jwt(&a).unwrap(), "t");
    assert_eq!(bearer("t"), "Bearer t");
    sign_out(&mut a);
    assert!(a.jwt_token.is_none());
}

#[test]
fn device_key_answers_the_challenge() {
    assert_eq!(
        device_pubkey_hex(&RFC8032_SECRET),
        "d75a980182b10ab7d54bfed3c964073a0ee172f3daa62325af021a68f707511a"
    );
    let proof = answer_device_challenge(&RFC8032_SECRET, Some("")).unwrap();
    assert_eq!(proof.nonce, "");
    assert_eq!(
        proof.signature_hex,
        "e5564300c360ac729086e2cc806e828a84877f1eb8e5d974d873e065224901555fb8821590a33bacc61e39701cf9b46bd25bf5f0595bbe24655141438e7a100b"
    );
    assert_eq!(answer_device_challenge(&RFC8032_SECRET, None).unwrap_err(), "Missing nonce");
    assert_eq!(answer_device_challenge(&RFC8032_SECRET, Some("xyz")).unwrap_err(), "Invalid nonce");
    assert_eq!(
        device_verify_failure(401, "bad sig"),
        "Device verification failed (401 Unauthorized): bad sig"
    );
}
