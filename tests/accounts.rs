use codex_manager::accounts::{
    callback_code, callback_query, get_query_param, token_account_id, window_minutes,
    account_from_fields, build_auth_url, decode_jwt, import_account_id, label_value, parse_auth_data,
    payload_segment, pkce_challenge, pkce_verifier, safe_account_id, same_account, AuthFields,
};

const PAYLOAD: &str = "eyJzdWIiOiJ1c2VyLTEiLCJleHAiOjE3MDAwMDAwMDAsImVtYWlsIjoiYUBiLmMiLCJodHRwczovL2FwaS5vcGVuYWkuY29tL2F1dGgiOnsiY2hhdGdwdF9wbGFuX3R5cGUiOiJwbHVzIiwiY2hhdGdwdF91c2VyX2lkIjoidWlkLTkifX0";

#[test]
fn token_payload_segment() {
    assert_eq!(payload_segment("a.b.c"), Some("b"));
    assert_eq!(payload_segment("a.b"), Some("b"));
    assert_eq!(payload_segment("a."), Some(""));
    assert_eq!(payload_segment("abc"), None);
}

#[test]
fn token_claims() {
    let token = format!("h.{PAYLOAD}.s");
    let claims = decode_jwt(&token).unwrap();
    let value: serde_json::Value = serde_json::from_slice(&claims).unwrap();
    assert_eq!(value.get("sub").and_then(|v| v.as_str()), Some("user-1"));
    assert!(decode_jwt("h.%%%.s").is_none());
    assert!(decode_jwt("nodots").is_none());
}

#[test]
fn account_listing_from_credentials() {
    let doc = format!(
        r#"{{"tokens":{{"access_token":"h.{PAYLOAD}.s","id_token":"h.{PAYLOAD}.s","refresh_token":"rt"}},"last_refresh":"2024"}}"#
    );
    let acc = parse_auth_data(doc.as_bytes(), "dir-1");
    let only_access = format!(r#"{{"tokens":{{"access_token":"h.{PAYLOAD}.s"}}}}"#);
    let partial = parse_auth_data(only_access.as_bytes(), "dir-2");
    assert_eq!(partial.email, "");
    assert_eq!(partial.user_id, "uid-9");
    assert_eq!(acc.id, "dir-1");
    assert_eq!(acc.email, "a@b.c");
    assert_eq!(acc.plan, "plus");
    assert_eq!(acc.user_id, "uid-9");
    assert_eq!(acc.expires_at, 1_700_000_000_000);
    assert!(acc.has_refresh_token);
    assert_eq!(acc.last_refresh.as_deref(), Some("2024"));
    assert_eq!(acc.label, None);
    let bare = parse_auth_data(b"{}", "x");
    let top_level = parse_auth_data(br#"{"account_id":"top","refresh_token":"r"}"#, "x");
    assert_eq!((top_level.id.as_str(), top_level.has_refresh_token), ("top", true));
    assert_eq!((bare.plan.as_str(), bare.expires_at, bare.has_refresh_token), ("free", 0, false));
}

#[test]
fn account_fields_defaults() {
    let f = AuthFields {
        stored_account_id: Some("s".into()),
        refresh_token: Some("".into()),
        email: None,
        plan: None,
        user_id: None,
        exp: Some(i64::MAX),
        last_refresh: None,
        openai_api_key: Some("k".into()),
    };
    let a = account_from_fields(f, "fallback");
    assert_eq!(a.id, "s");
    assert_eq!(a.plan, "free");
    assert_eq!(a.expires_at, i64::MAX);
    assert!(!a.has_refresh_token);
    assert_eq!(a.openai_api_key.as_deref(), Some("k"));
}

#[test]
fn directory_safe_ids() {
    assert_eq!(safe_account_id("user@x.com"), "user_x_com");
    assert_eq!(safe_account_id("héllo-1_2"), "héllo-1_2");
    assert_eq!(import_account_id(None, ""), "acc_tmp");
    assert_eq!(import_account_id(None, "u/1"), "u_1");
    assert_eq!(import_account_id(Some("acct 9"), "u"), "acct_9");
}

#[test]
fn account_matching_and_labels() {
    assert!(same_account(Some("a"), Some("a"), None, None));
    assert!(same_account(None, None, Some("r"), Some("r")));
    assert!(!same_account(None, None, None, None));
    assert!(!same_account(Some("a"), Some("b"), Some("r"), None));
    assert_eq!(label_value(String::new()), None);
    assert_eq!(label_value("work".into()).as_deref(), Some("work"));
}

#[test]
fn pkce_values() {
    assert_eq!(pkce_challenge("abc"), "ungWv48Bz-pBQUDeXa4iI7ADYaOWF3qctBD_YfIAFa0");
    let v = pkce_verifier();
    assert_eq!(v.len(), 86);
    assert!(v.chars().all(|c| c.is_ascii_alphanumeric() || c == '-' || c == '_'));
}

#[test]
fn authorization_url() {
    let url = build_auth_url("http://localhost:1455/auth/callback", "chal", "st");
    assert_eq!(
        url,
        "https://auth.openai.com/oauth/authorize?response_type=code&client_id=app_EMoamEEZ73f0CkXaXp7hrann&redirect_uri=http%3A%2F%2Flocalhost%3A1455%2Fauth%2Fcallback&scope=openid%20profile%20email%20offline%5Faccess&code_challenge=chal&code_challenge_method=S256&id_token_add_organizations=true&codex_cli_simplified_flow=true&state=st&originator=codex_cli_rs"
    );
}

#[test]
fn usage_window_minutes() {
    assert_eq!(window_minutes(0), 0);
    assert_eq!(window_minutes(60), 1);
    assert_eq!(window_minutes(61), 2);
    assert_eq!(window_minutes(18000), 300);
    assert_eq!(window_minutes(u64::MAX), u64::MAX / 60 + 1);
}

#[test]
fn login_callback_parsing() {
    let line = "GET /auth/callback?code=abc&state=xyz HTTP/1.1";
    let q = callback_query(line).unwrap();
    assert_eq!(q, "code=abc&state=xyz");
    assert_eq!(callback_query("GET / HTTP/1.1"), None);
    assert_eq!(callback_query("GET /?   "), Some("   "));
    assert_eq!(get_query_param("a=1&b=2&a=3", "a"), Some("3"));
    assert_eq!(get_query_param("a&b=2", "a"), None);
    assert_eq!(get_query_param("k=v=w", "k"), Some("v=w"));
    assert_eq!(callback_code(q, "xyz"), Some("abc"));
    assert_eq!(callback_code(q, "other"), None);
    assert_eq!(callback_code("state=xyz", "xyz"), None);
}

#[test]
fn account_id_from_access_token() {
    assert_eq!(token_account_id(&format!("h.{PAYLOAD}.s")), "uid-9");
    assert_eq!(token_account_id("opaque"), "acc_tmp");
    // {"sub":"only-sub"}
    assert_eq!(token_account_id("h.eyJzdWIiOiJvbmx5LXN1YiJ9.s"), "only-sub");
}

#[test]
fn claims_come_from_one_object() {
    let id = "eyJodHRwczovL2FwaS5vcGVuYWkuY29tL2F1dGgiOnt9LCJzdWIiOiJzLWlkIn0";
    let at = "eyJodHRwczovL2FwaS5vcGVuYWkuY29tL2F1dGgiOnsiY2hhdGdwdF9wbGFuX3R5cGUiOiJwbHVzIiwiY2hhdGdwdF91c2VyX2lkIjoidS1hdCJ9LCJleHAiOjV9";
    let both = format!(r#"{{"tokens":{{"id_token":"h.{id}.s","access_token":"h.{at}.s"}}}}"#);
    let acc = parse_auth_data(both.as_bytes(), "d");
    assert_eq!(acc.plan, "free");
    assert_eq!(acc.user_id, "s-id");
    assert_eq!(acc.expires_at, 5000);
    let access_only = format!(r#"{{"tokens":{{"access_token":"h.{at}.s"}}}}"#);
    let acc = parse_auth_data(access_only.as_bytes(), "d");
    assert_eq!((acc.plan.as_str(), acc.user_id.as_str()), ("plus", "u-at"));
    let non_string = parse_auth_data(br#"{"tokens":{"account_id":7},"account_id":"top"}"#, "d");
    assert_eq!(non_string.id, "d");
}
