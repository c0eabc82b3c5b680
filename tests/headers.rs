use codex_manager::gateway::relay_headers;
use codex_manager::headers::{
    apply_upstream_headers, forward_request_headers, get_header, insert_header,
    resolve_session_id, rewrite_upstream_headers, sanitize_headers, skip_request_header,
    skip_response_header, wants_event_stream, CODEX_CLIENT_VERSION, CODEX_USER_AGENT,
};
use codex_manager::session::{derive_session_id, generate_proxy_api_key, hex_string, random_session_id};

fn h(pairs: &[(&str, &str)]) -> Vec<(String, String)> {
    pairs.iter().map(|(n, v)| (n.to_string(), v.to_string())).collect()
}

fn values<'a>(headers: &'a [(String, String)], name: &str) -> Vec<&'a str> {
    headers.iter().filter(|(n, _)| n == name).map(|(_, v)| v.as_str()).collect()
}

fn is_uuid_v4(s: &str) -> bool {
    let b = s.as_bytes();
    s.len() == 36
        && b[8] == b'-'
        && b[13] == b'-'
        && b[18] == b'-'
        && b[23] == b'-'
        && b[14] == b'4'
        && matches!(b[19], b'8' | b'9' | b'a' | b'b')
        && s.chars().all(|c| c == '-' || c.is_ascii_digit() || ('a'..='f').contains(&c))
}

#[test]
fn hop_and_credential_headers_are_not_forwarded() {
    assert!(skip_request_header("Host"));
    assert!(skip_request_header("AUTHORIZATION"));
    assert!(skip_request_header("content-length"));
    assert!(skip_request_header("Proxy-Authorization"));
    assert!(!skip_request_header("x-api-key"));
    assert!(!skip_request_header("Cookie"));
    assert!(skip_request_header("TE"));
    assert!(!skip_request_header("x-custom"));
    assert!(skip_response_header("Content-Length"));
    assert!(skip_response_header("Transfer-Encoding"));
    assert!(!skip_response_header("content-type"));
}

#[test]
fn client_authorization_never_reaches_upstream() {
    let incoming = h(&[
        ("host", "localhost:8080"),
        ("Authorization", "Bearer client-key"),
        ("proxy-authorization", "Basic xyz"),
        ("x-custom", "1"),
        ("x-custom", "2"),
        ("accept", "text/event-stream"),
    ]);
    let mut up = forward_request_headers(&incoming);
    assert_eq!(up, h(&[("x-custom", "2"), ("accept", "text/event-stream")]));
    let stream = wants_event_stream(&up);
    assert!(stream);
    apply_upstream_headers(&mut up, "tok", Some("acct-1"), &incoming, true, stream, false, Some("c=1"));
    assert_eq!(values(&up, "authorization"), vec!["Bearer tok"]);
    assert!(up.iter().all(|(n, _)| n.to_lowercase() != "proxy-authorization" && n != "host"));
    assert!(up.iter().all(|(n, v)| n.to_lowercase() != "authorization" || v == "Bearer tok"));
    assert_eq!(values(&up, "x-custom"), vec!["2"]);
    assert_eq!(values(&up, "accept"), vec!["text/event-stream"]);
    assert_eq!(values(&up, "content-type"), vec!["application/json"]);
    assert_eq!(values(&up, "connection"), vec!["Keep-Alive"]);
    assert_eq!(values(&up, "version"), vec![CODEX_CLIENT_VERSION]);
    assert_eq!(values(&up, "user-agent"), vec![CODEX_USER_AGENT]);
    assert_eq!(values(&up, "openai-beta"), vec!["responses=experimental"]);
    assert_eq!(values(&up, "originator"), vec!["codex_cli_rs"]);
    assert_eq!(values(&up, "chatgpt-account-id"), vec!["acct-1"]);
    assert_eq!(values(&up, "cookie"), vec!["c=1"]);
    assert_eq!(values(&up, "session_id").len(), 1);
    assert!(is_uuid_v4(values(&up, "session_id")[0]));
}

#[test]
fn rewrite_without_body_or_stream() {
    let mut up = h(&[("accept", "*/*"), ("cookie", "client"), ("x-api-key", "k")]);
    rewrite_upstream_headers(&mut up, "t", None, false, false, false, None, None, "sid-1");
    assert!(values(&up, "x-api-key").is_empty());
    assert!(values(&up, "content-type").is_empty());
    assert_eq!(values(&up, "accept"), vec!["application/json"]);
    assert_eq!(values(&up, "session_id"), vec!["sid-1"]);
    assert!(values(&up, "chatgpt-account-id").is_empty());
    assert!(values(&up, "conversation_id").is_empty());
    assert!(values(&up, "cookie").is_empty());
}

#[test]
fn client_key_and_cookie_never_reach_upstream() {
    let incoming = h(&[("x-api-key", "gateway-key"), ("cookie", "client=1"), ("x-other", "1")]);
    let mut up = forward_request_headers(&incoming);
    assert_eq!(up, incoming);
    apply_upstream_headers(&mut up, "tok", None, &incoming, false, false, false, None);
    assert!(values(&up, "x-api-key").is_empty());
    assert!(values(&up, "cookie").is_empty());
    assert_eq!(values(&up, "x-other"), vec!["1"]);
    assert_eq!(values(&up, "authorization"), vec!["Bearer tok"]);
    let mut configured = forward_request_headers(&incoming);
    apply_upstream_headers(&mut configured, "tok", None, &incoming, false, false, false, Some("cfg=1"));
    assert_eq!(values(&configured, "cookie"), vec!["cfg=1"]);
}

#[test]
fn stripped_affinity_drops_the_client_conversation() {
    let incoming = h(&[("conversation_id", "c-9")]);
    let mut up = forward_request_headers(&incoming);
    assert_eq!(values(&up, "conversation_id"), vec!["c-9"]);
    apply_upstream_headers(&mut up, "t", None, &incoming, false, false, true, None);
    assert!(values(&up, "conversation_id").is_empty());
}

#[test]
fn session_affinity_headers() {
    let incoming = h(&[("session_id", "s-123"), ("conversation_id", "c-9"), ("x-codex-sticky", "abc")]);
    let mut up = Vec::new();
    apply_upstream_headers(&mut up, "t", None, &incoming, false, false, false, None);
    assert_eq!(values(&up, "session_id"), vec!["s-123"]);
    assert_eq!(values(&up, "conversation_id"), vec!["c-9"]);

    let mut stripped = Vec::new();
    apply_upstream_headers(&mut stripped, "t", None, &incoming, false, false, true, None);
    assert!(values(&stripped, "conversation_id").is_empty());
    let sid = values(&stripped, "session_id")[0];
    assert!(is_uuid_v4(sid));
    assert_ne!(sid, "s-123");
}

#[test]
fn sticky_key_derives_a_stable_session_id() {
    let expected = "a29d803b-477e-4420-83eb-d25596356c45";
    assert_eq!(derive_session_id(Some("abc"), "session").as_deref(), Some(expected));
    assert!(is_uuid_v4(&derive_session_id(Some(""), "session").unwrap()));
    assert_eq!(derive_session_id(None, "session"), None);
    let incoming = h(&[("session_id", "   "), ("x-codex-sticky", "abc")]);
    assert_eq!(resolve_session_id(&incoming, false), expected);
    assert!(is_uuid_v4(&resolve_session_id(&Vec::new(), false)));
}

#[test]
fn random_ids_have_uuid_v4_shape() {
    let a = random_session_id();
    let b = random_session_id();
    assert!(is_uuid_v4(&a));
    assert!(is_uuid_v4(&b));
    assert_ne!(a, b);
    let key = generate_proxy_api_key();
    assert_eq!(key.len(), 35);
    assert!(key.starts_with("sk-"));
    assert!(key[3..].chars().all(|c| c.is_ascii_hexdigit() && !c.is_ascii_uppercase()));
    assert_eq!(hex_string(&[0x00, 0xab, 0x7f]), "00ab7f");
}

#[test]
fn log_headers_drop_credentials() {
    let headers = h(&[
        ("Authorization", "Bearer x"),
        ("X-Api-Key", "k"),
        ("cookie", "c"),
        ("Proxy-Authorization", "p"),
        ("content-type", "application/json"),
    ]);
    let clean = sanitize_headers(&headers);
    assert_eq!(clean, h(&[("content-type", "application/json")]));
}

#[test]
fn header_insert_replaces_every_value() {
    let mut headers = h(&[("a", "1"), ("b", "2"), ("a", "3")]);
    insert_header(&mut headers, "a", "9".to_string());
    assert_eq!(headers, h(&[("b", "2"), ("a", "9")]));
    assert_eq!(get_header(&headers, "a"), Some("9"));
    assert_eq!(get_header(&headers, "z"), None);
}

#[test]
fn relayed_headers_drop_hop_by_hop_and_add_cors() {
    let upstream = h(&[("Content-Length", "5"), ("connection", "close"), ("content-type", "text/plain")]);
    assert_eq!(
        relay_headers(&upstream),
        h(&[
            ("content-type", "text/plain"),
            ("access-control-allow-origin", "*"),
            ("access-control-allow-headers", "*"),
        ])
    );
}

#[test]
fn event_stream_detection() {
    assert!(wants_event_stream(&h(&[("accept", "application/json, text/event-stream")])));
    assert!(!wants_event_stream(&h(&[("accept", "application/json")])));
    assert!(!wants_event_stream(&Vec::new()));
}
