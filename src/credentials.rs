//! Credential records: where they live, how they become pool entries, and
//! how a token refresh rewrites them.

use vstd::prelude::*;
use vstd::string::*;
use crate::json::{json_str_at, str_at};
use crate::pool::{AccountHealth, AccountView, ProxyAccount};
use crate::text::{clone_opt, ends_with, has_prefix, has_suffix, opt_chars, push_char, starts_with, str_eq};

verus! {

/// The home directory used when none is set.
pub const FALLBACK_HOME: &'static str = "/tmp";

/// `base` joined with the path component `comp`, as `Path::join` does on
/// Unix: an absolute component replaces the base, and a separator is put
/// between the two unless the base is empty or already ends with one.
pub open spec fn joined(base: Seq<char>, comp: Seq<char>) -> Seq<char> {
    if has_prefix(comp, "/"@) {
        comp
    } else if base.len() == 0 || has_suffix(base, "/"@) {
        base + comp
    } else {
        base + seq!['/'] + comp
    }
}

/// `base` joined with `comp`.
pub fn join_path(base: &str, comp: &str) -> (r: String)
    ensures
        r@ == joined(base@, comp@),
{
    if starts_with(comp, "/") {
        return comp.to_owned();
    }
    let mut out = base.to_owned();
    if !(base.unicode_len() == 0 || ends_with(base, "/")) {
        push_char(&mut out, '/');
    }
    out.append(comp);
    out
}

/// The home directory: the setting, or the fallback.
pub fn home_dir(setting: Option<&str>) -> (r: String)
    ensures
        r@ == match setting {
            Some(h) => h@,
            None => FALLBACK_HOME@,
        },
{
    match setting {
        Some(h) => h.to_owned(),
        None => FALLBACK_HOME.to_owned(),
    }
}

/// The CLI's directory under `home`.
pub fn codex_dir(home: &str) -> (r: String)
    ensures
        r@ == joined(home@, ".codex"@),
{
    join_path(home, ".codex")
}

/// The directory of managed accounts, one subdirectory each.
pub fn accounts_dir(home: &str) -> (r: String)
    ensures
        r@ == joined(joined(home@, ".codex"@), "accounts"@),
{
    join_path(codex_dir(home).as_str(), "accounts")
}

/// The credential file of the account the CLI uses.
pub fn auth_file(home: &str) -> (r: String)
    ensures
        r@ == joined(joined(home@, ".codex"@), "auth.json"@),
{
    join_path(codex_dir(home).as_str(), "auth.json")
}

/// The file of account labels.
pub fn meta_file(home: &str) -> (r: String)
    ensures
        r@ == joined(joined(home@, ".codex"@), "accounts_meta.json"@),
{
    join_path(codex_dir(home).as_str(), "accounts_meta.json")
}

/// The credential file of the managed account `id`.
pub fn account_auth_file(home: &str, id: &str) -> (r: String)
    ensures
        r@ == joined(joined(joined(joined(home@, ".codex"@), "accounts"@), id@), "auth.json"@),
{
    join_path(join_path(accounts_dir(home).as_str(), id).as_str(), "auth.json")
}

/// The gateway's own directory under `home`.
pub fn manager_dir(home: &str) -> (r: String)
    ensures
        r@ == joined(home@, ".codex-manager"@),
{
    join_path(home, ".codex-manager")
}

/// The gateway's text log.
pub fn proxy_log_path(home: &str) -> (r: String)
    ensures
        r@ == joined(joined(home@, ".codex-manager"@), "proxy.log"@),
{
    join_path(manager_dir(home).as_str(), "proxy.log")
}

/// The request log database.
pub fn proxy_log_db_path(home: &str) -> (r: String)
    ensures
        r@ == joined(joined(home@, ".codex-manager"@), "proxy_logs.db"@),
{
    join_path(manager_dir(home).as_str(), "proxy_logs.db")
}

/// The gateway's configuration file.
pub fn proxy_config_path(home: &str) -> (r: String)
    ensures
        r@ == joined(joined(home@, ".codex-manager"@), "proxy_config.json"@),
{
    join_path(manager_dir(home).as_str(), "proxy_config.json")
}

/// The token fields of one credential file, with the account's directory name.
#[derive(Debug)]
pub struct CredentialRecord {
    pub id: String,
    pub access_token: Option<String>,
    pub refresh_token: Option<String>,
    pub account_id: Option<String>,
}

/// Reads the `tokens` object of a credential file.
pub fn credential_from_json(id: &str, doc: &[u8]) -> (r: CredentialRecord)
    ensures
        r.id@ == id@,
        opt_chars(r.access_token) == json_str_at(doc@, "/tokens/access_token"@),
        opt_chars(r.refresh_token) == json_str_at(doc@, "/tokens/refresh_token"@),
        opt_chars(r.account_id) == json_str_at(doc@, "/tokens/account_id"@),
{
    CredentialRecord {
        id: id.to_owned(),
        access_token: str_at(doc, "/tokens/access_token"),
        refresh_token: str_at(doc, "/tokens/refresh_token"),
        account_id: str_at(doc, "/tokens/account_id"),
    }
}

/// The pool entry of a record, active.
pub open spec fn entry_of(r: CredentialRecord) -> AccountView {
    AccountView {
        id: r.id@,
        account_id: opt_chars(r.account_id),
        access_token: r.access_token->Some_0@,
        refresh_token: opt_chars(r.refresh_token),
        health: AccountHealth::Active,
    }
}

/// The pool entries of the records that hold an access token, in order.
pub open spec fn pool_entries(recs: Seq<CredentialRecord>) -> Seq<AccountView>
    decreases recs.len(),
{
    if recs.len() == 0 {
        Seq::empty()
    } else {
        let rest = pool_entries(recs.drop_last());
        if recs.last().access_token is Some {
            rest.push(entry_of(recs.last()))
        } else {
            rest
        }
    }
}

/// Why no pool could be built.
#[derive(Clone, Copy, Debug, PartialEq, Eq, Structural)]
pub enum PoolLoadError {
    /// No record holds an access token.
    NoValidTokens,
}

impl PoolLoadError {
    /// The message shown to the operator.
    pub fn message(&self) -> (r: String)
        ensures
            r@ == "No valid access tokens found. Please login at least one account."@,
    {
        "No valid access tokens found. Please login at least one account.".to_owned()
    }
}

/// The pool entries for the credential records read from disk: every
/// record with an access token, in order, active. No such record is an error.
pub fn load_proxy_accounts(records: Vec<CredentialRecord>) -> (r: Result<Vec<ProxyAccount>, PoolLoadError>)
    ensures
        pool_entries(records@).len() == 0 ==> r == Err::<Vec<ProxyAccount>, PoolLoadError>(
            PoolLoadError::NoValidTokens,
        ),
        pool_entries(records@).len() > 0 ==> (r matches Ok(v) && v@.map_values(
            |a: ProxyAccount| a@,
        ) == pool_entries(records@)),
{
    let mut pool: Vec<ProxyAccount> = Vec::new();
    let n = records.len();
    let mut i: usize = 0;
    while i < n
        invariant
            n == records@.len(),
            i <= n,
            pool@.map_values(|a: ProxyAccount| a@) == pool_entries(records@.subrange(0, i as int)),
        decreases n - i,
    {
        let ghost after = records@.subrange(0, i + 1);
        assert(after.drop_last() =~= records@.subrange(0, i as int));
        assert(after.last() == records@[i as int]);
        let rec = &records[i];
        if let Some(token) = &rec.access_token {
            pool.push(
                ProxyAccount {
                    id: rec.id.clone(),
                    account_id: clone_opt(&rec.account_id),
                    access_token: token.clone(),
                    refresh_token: clone_opt(&rec.refresh_token),
                    health: AccountHealth::Active,
                },
            );
        }
        assert(pool@.map_values(|a: ProxyAccount| a@) =~= pool_entries(after));
        i = i + 1;
    }
    assert(records@.subrange(0, n as int) =~= records@);
    if pool.len() == 0 {
        Err(PoolLoadError::NoValidTokens)
    } else {
        Ok(pool)
    }
}

/// The fields of a token endpoint's answer.
#[derive(Debug)]
pub struct TokenResponse {
    pub access_token: Option<String>,
    pub refresh_token: Option<String>,
    pub id_token: Option<String>,
}

/// Reads a token endpoint's answer.
pub fn token_response_from_json(doc: &[u8]) -> (r: TokenResponse)
    ensures
        opt_chars(r.access_token) == json_str_at(doc@, "/access_token"@),
        opt_chars(r.refresh_token) == json_str_at(doc@, "/refresh_token"@),
        opt_chars(r.id_token) == json_str_at(doc@, "/id_token"@),
{
    TokenResponse {
        access_token: str_at(doc, "/access_token"),
        refresh_token: str_at(doc, "/refresh_token"),
        id_token: str_at(doc, "/id_token"),
    }
}

/// The contents of a credential file.
#[derive(Debug)]
pub struct StoredCredential {
    pub access_token: String,
    pub id_token: String,
    pub refresh_token: String,
    pub account_id: String,
    /// When the tokens were refreshed, `YYYY-MM-DDThh:mm:ssZ`.
    pub last_refresh: String,
}

/// The file written after a refresh: the new access token; the rotated
/// refresh token, else the one used; the new id token, else empty; the
/// stored account id, else the local id. No access token, no file.
pub open spec fn refreshed_credential_ok(
    resp: TokenResponse,
    used_refresh: Seq<char>,
    stored_account_id: Option<Seq<char>>,
    local_id: Seq<char>,
    now: Seq<char>,
    r: Option<StoredCredential>,
) -> bool {
    match resp.access_token {
        None => r is None,
        Some(a) => r matches Some(c) && c.access_token@ == a@ && c.refresh_token@ == (match resp.refresh_token {
            Some(t) => t@,
            None => used_refresh,
        }) && c.id_token@ == (match resp.id_token {
            Some(t) => t@,
            None => Seq::empty(),
        }) && c.account_id@ == (match stored_account_id {
            Some(x) => x,
            None => local_id,
        }) && c.last_refresh@ == now,
    }
}

/// The credential file to write after a refresh with `used_refresh`.
pub fn refreshed_credential(
    resp: &TokenResponse,
    used_refresh: &str,
    stored_account_id: Option<&str>,
    local_id: &str,
    now_iso: &str,
) -> (r: Option<StoredCredential>)
    ensures
        refreshed_credential_ok(
            *resp,
            used_refresh@,
            match stored_account_id {
                Some(x) => Some(x@),
                None => None,
            },
            local_id@,
            now_iso@,
            r,
        ),
{
    let access = match &resp.access_token {
        Some(a) => a.clone(),
        None => {
            return None;
        },
    };
    let refresh = match &resp.refresh_token {
        Some(t) => t.clone(),
        None => used_refresh.to_owned(),
    };
    let id_token = match &resp.id_token {
        Some(t) => t.clone(),
        None => String::new(),
    };
    let account_id = match stored_account_id {
        Some(x) => x.to_owned(),
        None => local_id.to_owned(),
    };
    Some(
        StoredCredential {
            access_token: access,
            id_token,
            refresh_token: refresh,
            account_id,
            last_refresh: now_iso.to_owned(),
        },
    )
}

/// Whether the CLI's active credential file is rewritten too: it holds the
/// refresh token that was just used.
pub fn should_update_active(active_refresh: Option<&str>, used_refresh: &str) -> (r: bool)
    ensures
        r == (active_refresh matches Some(a) && a@ == used_refresh@),
{
    match active_refresh {
        Some(a) => str_eq(a, used_refresh),
        None => false,
    }
}

} // verus!
