use codex_manager::config::{
    config_or_default, front_proxy_max_body_bytes, parse_bool_setting, parse_u64, proxy_api_key_valid,
    proxy_config, proxy_config_snapshot, updated_config, upstream_cookie, ConfigStore, ProxyConfig,
    DEFAULT_FRONT_PROXY_MAX_BODY_BYTES,
};
use codex_manager::gateway::{auth_rejection, early_rejection, reply_for, Rejection};

fn h(pairs: &[(&str, &str)]) -> Vec<(String, String)> {
    pairs.iter().map(|(n, v)| (n.to_string(), v.to_string())).collect()
}

fn keyed(key: &str) -> ProxyConfig {
    ProxyConfig { api_key: Some(key.to_string()), enable_logging: true, max_logs: 10 }
}

#[test]
fn default_config() {
    let c = ProxyConfig::default();
    assert_eq!(c.api_key, None);
    assert!(c.enable_logging);
    assert_eq!(c.max_logs, 1000);
    assert_eq!(config_or_default(None).max_logs, 1000);
    assert_eq!(config_or_default(Some(keyed("k"))).api_key.as_deref(), Some("k"));
}

#[test]
fn config_update_rules() {
    let c = ProxyConfig::default();
    let u = updated_config(&c, Some("  sk-1  "), Some(false), Some(0));
    assert_eq!(u.api_key.as_deref(), Some("sk-1"));
    assert!(!u.enable_logging);
    assert_eq!(u.max_logs, 1);
    let cleared = updated_config(&u, Some("   "), None, Some(25));
    assert_eq!(cleared.api_key, None);
    assert!(!cleared.enable_logging);
    assert_eq!(cleared.max_logs, 25);
    let same = updated_config(&u, None, None, None);
    assert_eq!(same.api_key.as_deref(), Some("sk-1"));
}

#[test]
fn config_store_snapshot() {
    let mut store = ConfigStore::new(ProxyConfig::default());
    assert_eq!(proxy_config(&store).max_logs, 1000);
    store.replace(keyed("abc"));
    let snap = proxy_config_snapshot(&store);
    assert_eq!(snap.api_key.as_deref(), Some("abc"));
    assert_eq!(snap.max_logs, 10);
}

#[test]
fn api_key_checks() {
    let open = ProxyConfig::default();
    assert!(proxy_api_key_valid(&Vec::new(), &open));
    assert!(proxy_api_key_valid(&Vec::new(), &keyed("  ")));
    let c = keyed("sk-1");
    assert!(proxy_api_key_valid(&h(&[("authorization", "Bearer  sk-1 ")]), &c));
    assert!(proxy_api_key_valid(&h(&[("x-api-key", " sk-1")]), &c));
    assert!(!proxy_api_key_valid(&h(&[("authorization", "bearer sk-1")]), &c));
    assert!(!proxy_api_key_valid(&h(&[("authorization", "Bearer sk-2")]), &c));
    assert!(!proxy_api_key_valid(&Vec::new(), &c));
    assert_eq!(auth_rejection(&Vec::new(), &c), Some(Rejection::Unauthenticated));
    assert_eq!(reply_for(Rejection::Unauthenticated).status, 401);
    assert_eq!(auth_rejection(&h(&[("x-api-key", "sk-1")]), &c), None);
}

#[test]
fn body_limit_setting() {
    assert_eq!(front_proxy_max_body_bytes(None), DEFAULT_FRONT_PROXY_MAX_BODY_BYTES);
    assert_eq!(DEFAULT_FRONT_PROXY_MAX_BODY_BYTES, 16 * 1024 * 1024);
    assert_eq!(front_proxy_max_body_bytes(Some(" 2048 ")), 2048);
    assert_eq!(front_proxy_max_body_bytes(Some("+5")), 5);
    assert_eq!(front_proxy_max_body_bytes(Some("0")), DEFAULT_FRONT_PROXY_MAX_BODY_BYTES);
    assert_eq!(front_proxy_max_body_bytes(Some("-1")), DEFAULT_FRONT_PROXY_MAX_BODY_BYTES);
    assert_eq!(front_proxy_max_body_bytes(Some("abc")), DEFAULT_FRONT_PROXY_MAX_BODY_BYTES);
}

#[test]
fn decimal_parsing() {
    assert_eq!(parse_u64("18446744073709551615"), Some(u64::MAX));
    assert_eq!(parse_u64("18446744073709551616"), None);
    assert_eq!(parse_u64("007"), Some(7));
    assert_eq!(parse_u64(""), None);
    assert_eq!(parse_u64("+"), None);
    assert_eq!(parse_u64("1 2"), None);
}

#[test]
fn oversized_body_is_rejected_before_upstream() {
    let max = 16 * 1024 * 1024;
    let big = h(&[("content-length", "16777217")]);
    assert_eq!(early_rejection("POST", &big, max), Some(Rejection::BodyTooLarge));
    let reply = reply_for(Rejection::BodyTooLarge);
    assert_eq!(reply.status, 413);
    assert_eq!(reply.body, "Request body too large");
    assert_eq!(early_rejection("POST", &h(&[("content-length", "16777216")]), max), None);
    assert_eq!(early_rejection("POST", &h(&[("content-length", "junk")]), max), None);
    assert_eq!(early_rejection("GET", &Vec::new(), max), None);
}

#[test]
fn cors_preflight() {
    let headers = h(&[("origin", "http://x")]);
    assert_eq!(early_rejection("OPTIONS", &headers, 10), Some(Rejection::Preflight));
    let reply = reply_for(Rejection::Preflight);
    assert_eq!(reply.status, 204);
    assert!(reply.headers.contains(&("access-control-allow-origin".to_string(), "*".to_string())));
    assert!(reply.body.is_empty());
}

#[test]
fn boolean_settings() {
    assert!(parse_bool_setting(Some(" TRUE ")));
    assert!(parse_bool_setting(Some("On")));
    assert!(parse_bool_setting(Some("1")));
    assert!(parse_bool_setting(Some("yes")));
    assert!(!parse_bool_setting(Some("0")));
    assert!(!parse_bool_setting(Some("enabled")));
    assert!(!parse_bool_setting(None));
}

#[test]
fn cookie_setting() {
    assert_eq!(upstream_cookie(Some("  a=b ")).as_deref(), Some("a=b"));
    assert_eq!(upstream_cookie(Some("   ")), None);
    assert_eq!(upstream_cookie(None), None);
}
