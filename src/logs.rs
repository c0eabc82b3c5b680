//! What the request log records and how it is queried: bounded body text,
//! the retention rule and the SQL of the log store's statements.

use vstd::prelude::*;
use vstd::string::*;
use vstd::slice::slice_subrange;
use crate::config::ProxyConfig;
use crate::text::push_char;

verus! {

/// The largest body prefix kept in a log record, in bytes.
pub const MAX_LOG_BODY_BYTES: usize = 65536;

/// The text of `b` decoded as UTF-8, each invalid sequence replaced by U+FFFD.
pub uninterp spec fn lossy_utf8_of(b: Seq<u8>) -> Seq<char>;

/// Relies on `String::from_utf8_lossy`: the bytes decoded as UTF-8 with
/// invalid sequences replaced.
#[verifier::external_body]
fn utf8_lossy(b: &[u8]) -> (r: String)
    ensures
        r@ == lossy_utf8_of(b@),
{
    String::from_utf8_lossy(b).into_owned()
}

/// The ASCII digit of `d < 10`.
pub open spec fn digit_char(d: nat) -> char {
    ((d + 48) as u8) as char
}

/// `n` in decimal, as `{}` prints it.
pub open spec fn decimal_of(n: nat) -> Seq<char>
    decreases n,
{
    if n < 10 {
        seq![digit_char(n)]
    } else {
        decimal_of(n / 10).push(digit_char(n % 10))
    }
}

/// Appends `n` in decimal to `out`.
pub fn push_decimal(out: &mut String, n: u64)
    ensures
        final(out)@ == old(out)@ + decimal_of(n as nat),
    decreases n,
{
    if n >= 10 {
        push_decimal(out, n / 10);
    }
    let d: u8 = (n % 10) as u8;
    push_char(out, (d + 48) as char);
    assert(final(out)@ =~= old(out)@ + decimal_of(n as nat));
}

/// The log text of a body: empty stays empty; up to the limit the bytes
/// are decoded as they are; past it the kept prefix is followed by a line
/// saying how many bytes were cut.
pub open spec fn truncated_body(b: Seq<u8>) -> Seq<char> {
    if b.len() == 0 {
        Seq::empty()
    } else if b.len() <= MAX_LOG_BODY_BYTES {
        lossy_utf8_of(b)
    } else {
        lossy_utf8_of(b.subrange(0, MAX_LOG_BODY_BYTES as int)) + "\n...truncated "@ + decimal_of(
            (b.len() - MAX_LOG_BODY_BYTES) as nat,
        ) + " bytes"@
    }
}

/// The log text of a body.
pub fn truncate_body(bytes: &[u8]) -> (r: String)
    ensures
        r@ == truncated_body(bytes@),
{
    let n = bytes.len();
    if n == 0 {
        return String::new();
    }
    if n <= MAX_LOG_BODY_BYTES {
        return utf8_lossy(bytes);
    }
    let mut text = utf8_lossy(slice_subrange(bytes, 0, MAX_LOG_BODY_BYTES));
    text.append("\n...truncated ");
    push_decimal(&mut text, (n - MAX_LOG_BODY_BYTES) as u64);
    text.append(" bytes");
    text
}

/// The body column of a log record: none for an empty body.
pub fn body_log_text(bytes: &[u8]) -> (r: Option<String>)
    ensures
        bytes@.len() == 0 ==> r is None,
        bytes@.len() > 0 ==> (r matches Some(t) && t@ == truncated_body(bytes@)),
{
    if bytes.len() == 0 {
        None
    } else {
        Some(truncate_body(bytes))
    }
}

/// Whether a completed request is written to the log.
pub fn should_log(config: &ProxyConfig) -> (r: bool)
    ensures
        r == config@.enable_logging,
{
    config.enable_logging
}

/// How many records are kept after an insert: `None` keeps all.
pub fn retention_limit(config: &ProxyConfig) -> (r: Option<i64>)
    ensures
        config@.max_logs == 0 ==> r is None,
        0 < config@.max_logs <= i64::MAX ==> r == Some(config@.max_logs as i64),
        config@.max_logs > i64::MAX ==> r == Some(i64::MAX),
{
    if config.max_logs == 0 {
        None
    } else if config.max_logs as u128 > i64::MAX as u128 {
        Some(i64::MAX)
    } else {
        Some(config.max_logs as i64)
    }
}

/// A status counts as an error outside 200..=399.
pub open spec fn is_error_status(status: u16) -> bool {
    status < 200 || status >= 400
}

/// Whether a status is an error status.
pub fn error_status(status: u16) -> (r: bool)
    ensures
        r == is_error_status(status),
{
    status < 200 || status >= 400
}

/// The statement that creates the log table.
pub const CREATE_LOG_TABLE_SQL: &'static str = "CREATE TABLE IF NOT EXISTS request_logs (id INTEGER PRIMARY KEY AUTOINCREMENT, timestamp TEXT NOT NULL, method TEXT NOT NULL, path TEXT NOT NULL, status INTEGER NOT NULL, duration_ms INTEGER NOT NULL, proxy_account_id TEXT NOT NULL, account_id TEXT, error TEXT, request_headers TEXT, response_headers TEXT, request_body TEXT, response_body TEXT, model TEXT, input_tokens INTEGER, output_tokens INTEGER)";

/// The index over ids, newest first.
pub const CREATE_ID_INDEX_SQL: &'static str = "CREATE INDEX IF NOT EXISTS idx_request_logs_timestamp ON request_logs (id DESC)";

/// The index over statuses.
pub const CREATE_STATUS_INDEX_SQL: &'static str = "CREATE INDEX IF NOT EXISTS idx_request_logs_status ON request_logs (status)";

/// The insert of one record, with its fifteen columns as parameters.
pub const INSERT_LOG_SQL: &'static str = "INSERT INTO request_logs (timestamp, method, path, status, duration_ms, proxy_account_id, account_id, error, request_headers, response_headers, request_body, response_body, model, input_tokens, output_tokens) VALUES (?1, ?2, ?3, ?4, ?5, ?6, ?7, ?8, ?9, ?10, ?11, ?12, ?13, ?14, ?15)";

/// The retention trim: keeps the newest `?1` records by id.
pub const TRIM_LOGS_SQL: &'static str = "DELETE FROM request_logs WHERE id NOT IN (SELECT id FROM request_logs ORDER BY id DESC LIMIT ?1)";

/// Removes every record.
pub const CLEAR_LOGS_SQL: &'static str = "DELETE FROM request_logs";

/// One record with its header and body columns, by id `?1`.
pub const LOG_DETAIL_SQL: &'static str = "SELECT id, timestamp, method, path, status, duration_ms, proxy_account_id, account_id, error, model, request_headers, response_headers, request_body, response_body, input_tokens, output_tokens FROM request_logs WHERE id = ?1";

/// The error condition of the log queries.
pub const ERRORS_CLAUSE: &'static str = "(status < 200 OR status >= 400)";

/// The text filter of the log queries: pattern `?1` against every text column.
pub const FILTER_CLAUSE: &'static str = "(method LIKE ?1 OR path LIKE ?1 OR CAST(status AS TEXT) LIKE ?1 OR proxy_account_id LIKE ?1 OR account_id LIKE ?1 OR error LIKE ?1 OR model LIKE ?1)";

/// The summary columns of the log listing.
pub const SUMMARY_SELECT: &'static str = "SELECT id, timestamp, method, path, status, duration_ms, proxy_account_id, account_id, error, model FROM request_logs";

/// The conditions of a log query, joined with `AND` after `WHERE`.
pub open spec fn where_part(has_filter: bool, errors_only: bool) -> Seq<char> {
    if errors_only && has_filter {
        " WHERE "@ + ERRORS_CLAUSE@ + " AND "@ + FILTER_CLAUSE@
    } else if errors_only {
        " WHERE "@ + ERRORS_CLAUSE@
    } else if has_filter {
        " WHERE "@ + FILTER_CLAUSE@
    } else {
        Seq::empty()
    }
}

fn push_where(sql: &mut String, has_filter: bool, errors_only: bool)
    ensures
        final(sql)@ == old(sql)@ + where_part(has_filter, errors_only),
{
    if errors_only && has_filter {
        sql.append(" WHERE ");
        sql.append(ERRORS_CLAUSE);
        sql.append(" AND ");
        sql.append(FILTER_CLAUSE);
    } else if errors_only {
        sql.append(" WHERE ");
        sql.append(ERRORS_CLAUSE);
    } else if has_filter {
        sql.append(" WHERE ");
        sql.append(FILTER_CLAUSE);
    }
    assert(final(sql)@ =~= old(sql)@ + where_part(has_filter, errors_only));
}

/// The count query. With a filter its pattern is parameter `?1`.
pub fn count_logs_sql(has_filter: bool, errors_only: bool) -> (r: String)
    ensures
        r@ == "SELECT COUNT(*) FROM request_logs"@ + where_part(has_filter, errors_only),
{
    let mut sql = "SELECT COUNT(*) FROM request_logs".to_owned();
    push_where(&mut sql, has_filter, errors_only);
    sql
}

/// The listing query, newest first. With a filter the pattern is `?1` and
/// the limit and offset `?2` and `?3`; without one they are `?1` and `?2`.
pub fn list_logs_sql(has_filter: bool, errors_only: bool) -> (r: String)
    ensures
        r@ == SUMMARY_SELECT@ + where_part(has_filter, errors_only) + if has_filter {
            " ORDER BY id DESC LIMIT ?2 OFFSET ?3"@
        } else {
            " ORDER BY id DESC LIMIT ?1 OFFSET ?2"@
        },
{
    let mut sql = SUMMARY_SELECT.to_owned();
    push_where(&mut sql, has_filter, errors_only);
    if has_filter {
        sql.append(" ORDER BY id DESC LIMIT ?2 OFFSET ?3");
    } else {
        sql.append(" ORDER BY id DESC LIMIT ?1 OFFSET ?2");
    }
    sql
}

/// The `LIKE` pattern that finds `filter` anywhere in a column.
pub fn like_pattern(filter: &str) -> (r: String)
    ensures
        r@ == seq!['%'] + filter@ + seq!['%'],
{
    let mut p = String::new();
    push_char(&mut p, '%');
    p.append(filter);
    push_char(&mut p, '%');
    assert(p@ =~= seq!['%'] + filter@ + seq!['%']);
    p
}

/// The default page size of the log listing.
pub const DEFAULT_LOG_PAGE: usize = 50;

/// The limit and offset of a listing: 50 and 0 by default, each capped at
/// the largest SQL integer.
pub fn page_bounds(limit: Option<usize>, offset: Option<usize>) -> (r: (i64, i64))
    ensures
        r.0 == (match limit {
            Some(l) => if l > i64::MAX {
                i64::MAX as int
            } else {
                l as int
            },
            None => DEFAULT_LOG_PAGE as int,
        }),
        r.1 == (match offset {
            Some(o) => if o > i64::MAX {
                i64::MAX as int
            } else {
                o as int
            },
            None => 0,
        }),
{
    let l: usize = match limit {
        Some(l) => l,
        None => DEFAULT_LOG_PAGE,
    };
    let o: usize = match offset {
        Some(o) => o,
        None => 0,
    };
    let l64: i64 = if l as u128 > i64::MAX as u128 {
        i64::MAX
    } else {
        l as i64
    };
    let o64: i64 = if o as u128 > i64::MAX as u128 {
        i64::MAX
    } else {
        o as i64
    };
    (l64, o64)
}

} // verus!
