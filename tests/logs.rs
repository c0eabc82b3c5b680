use codex_manager::config::ProxyConfig;
use codex_manager::json::{extract_model, extract_usage, headers_to_json_string};
use codex_manager::logs::{
    body_log_text, count_logs_sql, error_status, like_pattern, list_logs_sql, page_bounds, push_decimal,
    retention_limit, should_log, truncate_body, CREATE_LOG_TABLE_SQL, INSERT_LOG_SQL, MAX_LOG_BODY_BYTES,
    TRIM_LOGS_SQL,
};

#[test]
fn body_truncation() {
    assert_eq!(truncate_body(b""), "");
    assert_eq!(truncate_body(b"hello"), "hello");
    assert_eq!(truncate_body(&[0x66, 0xff, 0x6f]), "f\u{fffd}o");
    let exact = vec![b'a'; MAX_LOG_BODY_BYTES];
    assert_eq!(truncate_body(&exact).len(), MAX_LOG_BODY_BYTES);
    let long = vec![b'a'; MAX_LOG_BODY_BYTES + 10];
    let text = truncate_body(&long);
    assert_eq!(text, format!("{}\n...truncated 10 bytes", "a".repeat(MAX_LOG_BODY_BYTES)));
    assert_eq!(body_log_text(b""), None);
    assert_eq!(body_log_text(b"x").as_deref(), Some("x"));
}

#[test]
fn decimal_printing() {
    let mut s = String::from("n=");
    push_decimal(&mut s, 0);
    push_decimal(&mut s, 1234567890);
    assert_eq!(s, "n=01234567890");
}

#[test]
fn header_json_for_the_log() {
    let headers = vec![("a".to_string(), "b\"c".to_string()), ("d".to_string(), "".to_string())];
    assert_eq!(headers_to_json_string(headers).as_deref(), Some(r#"[["a","b\"c"],["d",""]]"#));
    assert_eq!(headers_to_json_string(Vec::new()).as_deref(), Some("[]"));
}

#[test]
fn model_of_a_request_body() {
    assert_eq!(extract_model(br#"{"model":"gpt-4","input":[]}"#).as_deref(), Some("gpt-4"));
    assert_eq!(extract_model(b""), None);
    assert_eq!(extract_model(b"not json"), None);
    assert_eq!(extract_model(br#"{"model":4}"#), None);
    assert_eq!(extract_model(br#"[1,2]"#), None);
}

#[test]
fn usage_of_a_response_body() {
    assert_eq!(extract_usage(br#"{"usage":{"input_tokens":12,"output_tokens":34}}"#), (Some(12), Some(34)));
    assert_eq!(extract_usage(br#"{"usage":{"input_tokens":12}}"#), (Some(12), None));
    assert_eq!(extract_usage(br#"{"other":1}"#), (None, None));
    assert_eq!(extract_usage(b""), (None, None));
    assert_eq!(extract_usage(b"{"), (None, None));
}

#[test]
fn logging_switch_and_retention() {
    let mut c = ProxyConfig::default();
    assert!(should_log(&c));
    assert_eq!(retention_limit(&c), Some(1000));
    c.max_logs = 0;
    assert_eq!(retention_limit(&c), None);
    c.enable_logging = false;
    assert!(!should_log(&c));
    assert!(error_status(404));
    assert!(error_status(199));
    assert!(!error_status(200));
    assert!(!error_status(399));
}

#[test]
fn log_query_text() {
    assert_eq!(count_logs_sql(false, false), "SELECT COUNT(*) FROM request_logs");
    assert_eq!(
        count_logs_sql(false, true),
        "SELECT COUNT(*) FROM request_logs WHERE (status < 200 OR status >= 400)"
    );
    assert!(list_logs_sql(true, true).ends_with("AND (method LIKE ?1 OR path LIKE ?1 OR CAST(status AS TEXT) LIKE ?1 OR proxy_account_id LIKE ?1 OR account_id LIKE ?1 OR error LIKE ?1 OR model LIKE ?1) ORDER BY id DESC LIMIT ?2 OFFSET ?3"));
    assert!(list_logs_sql(false, false).ends_with("FROM request_logs ORDER BY id DESC LIMIT ?1 OFFSET ?2"));
    assert_eq!(like_pattern("gpt-4"), "%gpt-4%");
    assert_eq!(page_bounds(None, None), (50, 0));
    assert_eq!(page_bounds(Some(5), Some(10)), (5, 10));
    assert_eq!(page_bounds(Some(usize::MAX), None), (i64::MAX, 0));
}

fn open_store() -> rusqlite::Connection {
    let conn = rusqlite::Connection::open_in_memory().unwrap();
    conn.execute(CREATE_LOG_TABLE_SQL, ()).unwrap();
    conn
}

fn insert(conn: &rusqlite::Connection, status: i64, model: Option<&str>, max_logs: usize) {
    let params: (&str, &str, &str, i64, i64, &str, Option<&str>, Option<&str>, Option<&str>, Option<&str>, Option<&str>, Option<&str>, Option<&str>, Option<i64>, Option<i64>) =
        ("2024-01-01T00:00:00Z", "POST", "/v1/responses", status, 5, "A", None, None, None, None, None, None, model, None, None);
    conn.execute(INSERT_LOG_SQL, params).unwrap();
    let cfg = ProxyConfig { api_key: None, enable_logging: true, max_logs };
    if let Some(n) = retention_limit(&cfg) {
        conn.execute(TRIM_LOGS_SQL, (n,)).unwrap();
    }
}

fn listed(conn: &rusqlite::Connection, filter: Option<&str>, errors_only: bool, limit: usize) -> Vec<(i64, Option<String>)> {
    let (l, o) = page_bounds(Some(limit), Some(0));
    let sql = list_logs_sql(filter.is_some(), errors_only);
    let mut stmt = conn.prepare(&sql).unwrap();
    let map = |row: &rusqlite::Row| Ok((row.get::<_, i64>(4)?, row.get::<_, Option<String>>(9)?));
    let rows = match filter {
        Some(f) => stmt.query_map((like_pattern(f), l, o), map).unwrap().collect::<Result<Vec<_>, _>>(),
        None => stmt.query_map((l, o), map).unwrap().collect::<Result<Vec<_>, _>>(),
    };
    rows.unwrap()
}

#[test]
fn log_query_pagination() {
    let conn = open_store();
    for i in 0..120 {
        let status = if i % 3 == 0 { 500 } else { 200 };
        let model = if i % 2 == 0 { Some("gpt-4o") } else { Some("o3") };
        insert(&conn, status, model, 1000);
    }
    let errors = listed(&conn, None, true, 50);
    assert_eq!(errors.len(), 40);
    assert!(errors.iter().all(|(s, _)| *s >= 400));
    let gpt = listed(&conn, Some("gpt-4"), false, 200);
    assert_eq!(gpt.len(), 60);
    assert!(gpt.iter().all(|(_, m)| m.as_deref().unwrap().contains("gpt-4")));
    let count: i64 = conn.query_row(&count_logs_sql(false, true), (), |r| r.get(0)).unwrap();
    assert_eq!(count, 40);
}

#[test]
fn log_retention_trims_after_insert() {
    let conn = open_store();
    for _ in 0..30 {
        insert(&conn, 200, None, 25);
        let count: i64 = conn.query_row(&count_logs_sql(false, false), (), |r| r.get(0)).unwrap();
        assert!(count <= 25);
    }
    let newest: i64 = conn.query_row("SELECT MAX(id) FROM request_logs", (), |r| r.get(0)).unwrap();
    let oldest: i64 = conn.query_row("SELECT MIN(id) FROM request_logs", (), |r| r.get(0)).unwrap();
    assert_eq!((oldest, newest), (6, 30));
}
