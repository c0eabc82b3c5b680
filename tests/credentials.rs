use codex_manager::credentials::{
    account_auth_file, accounts_dir, auth_file, credential_from_json, home_dir, join_path, load_proxy_accounts,
    meta_file, proxy_config_path, proxy_log_db_path, proxy_log_path, refreshed_credential,
    should_update_active, token_response_from_json, CredentialRecord, PoolLoadError, TokenResponse,
};
use codex_manager::pool::AccountHealth;

fn record(id: &str, access: Option<&str>) -> CredentialRecord {
    CredentialRecord {
        id: id.to_string(),
        access_token: access.map(|s| s.to_string()),
        refresh_token: Some(format!("rt-{id}")),
        account_id: None,
    }
}

#[test]
fn credential_paths() {
    assert_eq!(accounts_dir("/home/u"), "/home/u/.codex/accounts");
    assert_eq!(auth_file("/home/u/"), "/home/u/.codex/auth.json");
    assert_eq!(meta_file("/h"), "/h/.codex/accounts_meta.json");
    assert_eq!(account_auth_file("/h", "acc_1"), "/h/.codex/accounts/acc_1/auth.json");
    assert_eq!(proxy_log_db_path("/h"), "/h/.codex-manager/proxy_logs.db");
    assert_eq!(proxy_config_path("/h"), "/h/.codex-manager/proxy_config.json");
    assert_eq!(proxy_log_path("/h"), "/h/.codex-manager/proxy.log");
    assert_eq!(home_dir(None), "/tmp");
    assert_eq!(join_path("", "a"), "a");
    assert_eq!(join_path("/x", "/abs"), "/abs");
}

#[test]
fn pool_from_records() {
    let pool = load_proxy_accounts(vec![record("a", Some("t-a")), record("b", None), record("c", Some("t-c"))]).unwrap();
    let ids: Vec<&str> = pool.iter().map(|p| p.id.as_str()).collect();
    assert_eq!(ids, vec!["a", "c"]);
    assert_eq!(pool[1].access_token, "t-c");
    assert_eq!(pool[1].refresh_token.as_deref(), Some("rt-c"));
    assert!(pool.iter().all(|p| p.health == AccountHealth::Active));
}

#[test]
fn pool_without_tokens_is_an_error() {
    let err = load_proxy_accounts(vec![record("b", None)]).err().unwrap();
    assert_eq!(err, PoolLoadError::NoValidTokens);
    assert_eq!(err.message(), "No valid access tokens found. Please login at least one account.");
    assert_eq!(load_proxy_accounts(Vec::new()).err(), Some(PoolLoadError::NoValidTokens));
}

#[test]
fn credential_file_reading() {
    let doc = br#"{"tokens":{"access_token":"at","refresh_token":"rt","account_id":"acct"},"last_refresh":"x"}"#;
    let rec = credential_from_json("dir", doc);
    assert_eq!(rec.id, "dir");
    assert_eq!(rec.access_token.as_deref(), Some("at"));
    assert_eq!(rec.refresh_token.as_deref(), Some("rt"));
    assert_eq!(rec.account_id.as_deref(), Some("acct"));
    assert_eq!(credential_from_json("d", br#"{"access_token":"top"}"#).access_token, None);
    assert_eq!(credential_from_json("d", b"not json").access_token, None);
    assert_eq!(credential_from_json("d", br#"{"tokens":{"access_token":5}}"#).access_token, None);
}

#[test]
fn token_endpoint_answer() {
    let resp = token_response_from_json(br#"{"access_token":"a","refresh_token":"r","id_token":"i"}"#);
    assert_eq!(resp.access_token.as_deref(), Some("a"));
    assert_eq!(resp.refresh_token.as_deref(), Some("r"));
    assert_eq!(resp.id_token.as_deref(), Some("i"));
    let partial = token_response_from_json(br#"{"access_token":"a"}"#);
    assert_eq!(partial.refresh_token, None);
    assert_eq!(partial.id_token, None);
}

#[test]
fn refresh_merge_rules() {
    let resp = TokenResponse { access_token: Some("new".into()), refresh_token: None, id_token: Some("idt".into()) };
    let c = refreshed_credential(&resp, "used", None, "local", "now").unwrap();
    assert_eq!(c.refresh_token, "used");
    assert_eq!(c.account_id, "local");
    assert_eq!(c.id_token, "idt");
    assert_eq!(c.last_refresh, "now");
    let none = TokenResponse { access_token: None, refresh_token: Some("r".into()), id_token: None };
    assert!(refreshed_credential(&none, "used", None, "local", "now").is_none());
}

#[test]
fn active_file_follows_its_refresh_token() {
    assert!(should_update_active(Some("rt"), "rt"));
    assert!(!should_update_active(Some("other"), "rt"));
    assert!(!should_update_active(None, "rt"));
}
