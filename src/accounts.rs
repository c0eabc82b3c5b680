//! Managed accounts as the desktop shell lists them: what a credential
//! file and its tokens' claims say about an account, and the helpers of
//! the browser login.

use vstd::prelude::*;
use vstd::string::*;
use vstd::utf8::*;
use base64::Engine;
use crate::json::{has_at, i64_at, json_has_at, json_i64_at, json_str_at, str_at};
use crate::routing::{first_char_pos, first_pos};
use crate::session::{os_random_bytes, sha256, sha256_of};
use crate::text::{is_white, is_white_char, lemma_trim_start_skip, opt_chars, push_char, trim_start_spec};

verus! {

/// One managed account, as listed.
#[derive(Debug)]
pub struct CodexAccount {
    pub id: String,
    pub email: String,
    pub plan: String,
    pub user_id: String,
    /// When the access token expires, in milliseconds since the epoch.
    pub expires_at: i64,
    pub last_refresh: Option<String>,
    pub has_refresh_token: bool,
    pub openai_api_key: Option<String>,
    pub label: Option<String>,
    pub added_at: u64,
}

/// The values of an account listing.
pub struct CodexAccountView {
    pub id: Seq<char>,
    pub email: Seq<char>,
    pub plan: Seq<char>,
    pub user_id: Seq<char>,
    pub expires_at: i64,
    pub last_refresh: Option<Seq<char>>,
    pub has_refresh_token: bool,
    pub openai_api_key: Option<Seq<char>>,
    pub label: Option<Seq<char>>,
    pub added_at: u64,
}

impl View for CodexAccount {
    type V = CodexAccountView;

    open spec fn view(&self) -> CodexAccountView {
        CodexAccountView {
            id: self.id@,
            email: self.email@,
            plan: self.plan@,
            user_id: self.user_id@,
            expires_at: self.expires_at,
            last_refresh: opt_chars(self.last_refresh),
            has_refresh_token: self.has_refresh_token,
            openai_api_key: opt_chars(self.openai_api_key),
            label: opt_chars(self.label),
            added_at: self.added_at,
        }
    }
}

/// What base64 (URL-safe alphabet, no padding) decodes `s` to, if it is valid.
pub uninterp spec fn b64url_decoded_of(s: Seq<char>) -> Option<Seq<u8>>;

/// The URL-safe, unpadded base64 text of `b`.
pub uninterp spec fn b64url_encoded_of(b: Seq<u8>) -> Seq<char>;

/// Relies on `base64::engine::general_purpose::URL_SAFE_NO_PAD.decode`.
#[verifier::external_body]
fn b64url_decode(s: &str) -> (r: Option<Vec<u8>>)
    ensures
        match r {
            Some(b) => b64url_decoded_of(s@) == Some(b@),
            None => b64url_decoded_of(s@) is None,
        },
{
    base64::engine::general_purpose::URL_SAFE_NO_PAD.decode(s).ok()
}

/// Relies on `base64::engine::general_purpose::URL_SAFE_NO_PAD.encode`.
#[verifier::external_body]
fn b64url_encode(b: &[u8]) -> (r: String)
    ensures
        r@ == b64url_encoded_of(b@),
{
    base64::engine::general_purpose::URL_SAFE_NO_PAD.encode(b)
}

/// The second `.`-separated segment of a token, if it has one.
pub open spec fn jwt_payload_segment(token: Seq<char>) -> Option<Seq<char>> {
    match first_pos(token, '.') {
        None => None,
        Some(i) => {
            let rest = token.subrange(i + 1int, token.len() as int);
            match first_pos(rest, '.') {
                Some(j) => Some(rest.subrange(0, j as int)),
                None => Some(rest),
            }
        },
    }
}

/// The payload segment of a JSON web token.
pub fn payload_segment(token: &str) -> (r: Option<&str>)
    ensures
        match r {
            Some(s) => jwt_payload_segment(token@) == Some(s@),
            None => jwt_payload_segment(token@) is None,
        },
{
    let n = token.unicode_len();
    match first_char_pos(token, '.') {
        None => None,
        Some(i) => {
            let rest = token.substring_char(i + 1, n);
            let m = rest.unicode_len();
            match first_char_pos(rest, '.') {
                Some(j) => Some(rest.substring_char(0, j)),
                None => Some(rest),
            }
        },
    }
}

/// The payload bytes of a token: its payload segment decoded from base64.
pub open spec fn payload_bytes(token: Seq<char>) -> Option<Seq<u8>> {
    match jwt_payload_segment(token) {
        Some(s) => b64url_decoded_of(s),
        None => None,
    }
}

/// The payload of a JSON web token, decoded from base64; its claims are
/// read from these bytes as JSON.
pub fn decode_jwt(token: &str) -> (r: Option<Vec<u8>>)
    ensures
        match r {
            Some(b) => payload_bytes(token@) == Some(b@),
            None => payload_bytes(token@) is None,
        },
{
    match payload_segment(token) {
        Some(seg) => b64url_decode(seg),
        None => None,
    }
}

/// The values of a credential file and its tokens' claims that an account
/// listing is made of.
#[derive(Debug)]
pub struct AuthFields {
    pub stored_account_id: Option<String>,
    pub refresh_token: Option<String>,
    pub email: Option<String>,
    pub plan: Option<String>,
    pub user_id: Option<String>,
    /// Expiry of the tokens, in seconds since the epoch.
    pub exp: Option<i64>,
    pub last_refresh: Option<String>,
    pub openai_api_key: Option<String>,
}

/// The values of `AuthFields`.
pub struct AuthFieldsView {
    pub stored_account_id: Option<Seq<char>>,
    pub refresh_token: Option<Seq<char>>,
    pub email: Option<Seq<char>>,
    pub plan: Option<Seq<char>>,
    pub user_id: Option<Seq<char>>,
    pub exp: Option<i64>,
    pub last_refresh: Option<Seq<char>>,
    pub openai_api_key: Option<Seq<char>>,
}

impl View for AuthFields {
    type V = AuthFieldsView;

    open spec fn view(&self) -> AuthFieldsView {
        AuthFieldsView {
            stored_account_id: opt_chars(self.stored_account_id),
            refresh_token: opt_chars(self.refresh_token),
            email: opt_chars(self.email),
            plan: opt_chars(self.plan),
            user_id: opt_chars(self.user_id),
            exp: self.exp,
            last_refresh: opt_chars(self.last_refresh),
            openai_api_key: opt_chars(self.openai_api_key),
        }
    }
}

/// The text of `o`, or `d` without one.
pub open spec fn text_or(o: Option<Seq<char>>, d: Seq<char>) -> Seq<char> {
    match o {
        Some(x) => x,
        None => d,
    }
}

/// The listing of an account from its fields: missing text is empty, the
/// plan defaults to `free`, a missing expiry is zero, and the id defaults to
/// `fallback_id`. No label is attached yet.
pub open spec fn listing_of(f: AuthFieldsView, fallback_id: Seq<char>) -> CodexAccountView {
    CodexAccountView {
        id: text_or(f.stored_account_id, fallback_id),
        email: text_or(f.email, Seq::empty()),
        plan: text_or(f.plan, "free"@),
        user_id: text_or(f.user_id, Seq::empty()),
        expires_at: millis_of(
            match f.exp {
                Some(x) => x,
                None => 0,
            },
        ),
        last_refresh: f.last_refresh,
        has_refresh_token: f.refresh_token matches Some(t) && t.len() > 0,
        openai_api_key: f.openai_api_key,
        label: None,
        added_at: 0,
    }
}

/// `x * 1000`, saturating.
pub open spec fn millis_of(x: i64) -> i64 {
    if x * 1000 > i64::MAX {
        i64::MAX
    } else if x * 1000 < i64::MIN {
        i64::MIN
    } else {
        (x * 1000) as i64
    }
}

/// The listing of an account from its fields: missing text is empty, the
/// plan defaults to `free`, a missing expiry is zero, and the id defaults to
/// `fallback_id`. No label is attached yet.
pub fn account_from_fields(f: AuthFields, fallback_id: &str) -> (r: CodexAccount)
    ensures
        r@ == listing_of(f@, fallback_id@),
{
    let exp: i64 = match f.exp {
        Some(x) => x,
        None => 0,
    };
    let has_refresh_token = match &f.refresh_token {
        Some(t) => t.unicode_len() > 0,
        None => false,
    };
    CodexAccount {
        id: match f.stored_account_id {
            Some(x) => x,
            None => fallback_id.to_owned(),
        },
        email: match f.email {
            Some(x) => x,
            None => String::new(),
        },
        plan: match f.plan {
            Some(x) => x,
            None => "free".to_owned(),
        },
        user_id: match f.user_id {
            Some(x) => x,
            None => String::new(),
        },
        expires_at: saturating_millis(exp),
        last_refresh: f.last_refresh,
        has_refresh_token,
        openai_api_key: f.openai_api_key,
        label: None,
        added_at: 0,
    }
}

fn saturating_millis(x: i64) -> (r: i64)
    ensures
        r == millis_of(x),
{
    if x > i64::MAX / 1000 {
        i64::MAX
    } else if x < i64::MIN / 1000 {
        i64::MIN
    } else {
        x * 1000
    }
}

/// A string claim of an optional token payload.
pub open spec fn claim_str(payload: Option<Seq<u8>>, ptr: Seq<char>) -> Option<Seq<char>> {
    match payload {
        Some(b) => json_str_at(b, ptr),
        None => None,
    }
}

/// An integer claim of an optional token payload.
pub open spec fn claim_i64(payload: Option<Seq<u8>>, ptr: Seq<char>) -> Option<i64> {
    match payload {
        Some(b) => json_i64_at(b, ptr),
        None => None,
    }
}

/// The payload of an optional token.
pub open spec fn payload_of(token: Option<Seq<char>>) -> Option<Seq<u8>> {
    match token {
        Some(t) => payload_bytes(t),
        None => None,
    }
}

/// Whether an optional token payload holds a value at `ptr`.
pub open spec fn claim_has(payload: Option<Seq<u8>>, ptr: Seq<char>) -> bool {
    match payload {
        Some(b) => json_has_at(b, ptr),
        None => false,
    }
}

/// A string at `first` when something is there, else the string at `second`:
/// the fallback is taken on absence, not on a value of another kind.
pub open spec fn str_first_present(a: Option<Seq<u8>>, first: Seq<char>, b: Option<Seq<u8>>, second: Seq<char>) -> Option<Seq<char>> {
    if claim_has(a, first) {
        claim_str(a, first)
    } else {
        claim_str(b, second)
    }
}

/// A token field of a credential file: under `tokens` when present there,
/// else at the top level.
pub open spec fn token_field(doc: Seq<u8>, tokens_ptr: Seq<char>, top_ptr: Seq<char>) -> Option<Seq<char>> {
    str_first_present(Some(doc), tokens_ptr, Some(doc), top_ptr)
}

/// The auth claims object of the upstream service, escaped as a JSON pointer.
pub open spec fn auth_ptr() -> Seq<char> {
    "/https:~1~1api.openai.com~1auth"@
}

/// The payload whose auth claims count: the id token's when it has an auth
/// object, else the access token's.
pub open spec fn claims_source(idp: Option<Seq<u8>>, atp: Option<Seq<u8>>) -> Option<Seq<u8>> {
    if claim_has(idp, auth_ptr()) {
        idp
    } else {
        atp
    }
}

/// What a credential file says of its account. The auth claims are those
/// of the id token, else of the access token; the user id falls back to the
/// id token's subject when the claims have none; the email is the id
/// token's, else the access token's profile email; the expiry is the access
/// token's, else the id token's.
pub open spec fn auth_fields_of(doc: Seq<u8>) -> AuthFieldsView {
    let idp = payload_of(token_field(doc, "/tokens/id_token"@, "/id_token"@));
    let atp = payload_of(token_field(doc, "/tokens/access_token"@, "/access_token"@));
    let claims = claims_source(idp, atp);
    AuthFieldsView {
        stored_account_id: token_field(doc, "/tokens/account_id"@, "/account_id"@),
        refresh_token: token_field(doc, "/tokens/refresh_token"@, "/refresh_token"@),
        email: str_first_present(
            idp,
            "/email"@,
            atp,
            "/https:~1~1api.openai.com~1profile/email"@,
        ),
        plan: claim_str(claims, "/https:~1~1api.openai.com~1auth/chatgpt_plan_type"@),
        user_id: str_first_present(
            claims,
            "/https:~1~1api.openai.com~1auth/chatgpt_user_id"@,
            idp,
            "/sub"@,
        ),
        exp: if claim_has(atp, "/exp"@) {
            claim_i64(atp, "/exp"@)
        } else {
            claim_i64(idp, "/exp"@)
        },
        last_refresh: json_str_at(doc, "/last_refresh"@),
        openai_api_key: json_str_at(doc, "/OPENAI_API_KEY"@),
    }
}

fn field_of(doc: &[u8], tokens_ptr: &str, top_ptr: &str) -> (r: Option<String>)
    ensures
        opt_chars(r) == token_field(doc@, tokens_ptr@, top_ptr@),
{
    if has_at(doc, tokens_ptr) {
        str_at(doc, tokens_ptr)
    } else {
        str_at(doc, top_ptr)
    }
}

fn claim_present(payload: &Option<Vec<u8>>, ptr: &str) -> (r: bool)
    ensures
        r == claim_has(opt_bytes(*payload), ptr@),
{
    match payload {
        Some(b) => has_at(b.as_slice(), ptr),
        None => false,
    }
}

fn text_first_present(a: &Option<Vec<u8>>, first: &str, b: &Option<Vec<u8>>, second: &str) -> (r: Option<String>)
    ensures
        opt_chars(r) == str_first_present(opt_bytes(*a), first@, opt_bytes(*b), second@),
{
    if claim_present(a, first) {
        claim_text(a, first)
    } else {
        claim_text(b, second)
    }
}

fn payload_of_token(token: &Option<String>) -> (r: Option<Vec<u8>>)
    ensures
        match r {
            Some(b) => payload_of(opt_chars(*token)) == Some(b@),
            None => payload_of(opt_chars(*token)) is None,
        },
{
    match token {
        Some(t) => decode_jwt(t.as_str()),
        None => None,
    }
}

/// The payload bytes as an optional sequence.
pub open spec fn opt_bytes(p: Option<Vec<u8>>) -> Option<Seq<u8>> {
    match p {
        Some(b) => Some(b@),
        None => None,
    }
}

fn claim_text(payload: &Option<Vec<u8>>, ptr: &str) -> (r: Option<String>)
    ensures
        opt_chars(r) == claim_str(opt_bytes(*payload), ptr@),
{
    match payload {
        Some(b) => str_at(b.as_slice(), ptr),
        None => None,
    }
}

fn claim_int(payload: &Option<Vec<u8>>, ptr: &str) -> (r: Option<i64>)
    ensures
        r == claim_i64(opt_bytes(*payload), ptr@),
{
    match payload {
        Some(b) => i64_at(b.as_slice(), ptr),
        None => None,
    }
}

/// The listing of the account whose credential file holds `auth_data`.
pub fn parse_auth_data(auth_data: &[u8], account_id: &str) -> (r: CodexAccount)
    ensures
        r@ == listing_of(auth_fields_of(auth_data@), account_id@),
{
    let idp = payload_of_token(&field_of(auth_data, "/tokens/id_token", "/id_token"));
    let atp = payload_of_token(&field_of(auth_data, "/tokens/access_token", "/access_token"));
    let from_id = claim_present(&idp, "/https:~1~1api.openai.com~1auth");
    let claims = if from_id {
        &idp
    } else {
        &atp
    };
    proof {
        reveal_strlit("/https:~1~1api.openai.com~1auth");
        assert(opt_bytes(*claims) == claims_source(opt_bytes(idp), opt_bytes(atp)));
    }
    let fields = AuthFields {
        stored_account_id: field_of(auth_data, "/tokens/account_id", "/account_id"),
        refresh_token: field_of(auth_data, "/tokens/refresh_token", "/refresh_token"),
        email: text_first_present(&idp, "/email", &atp, "/https:~1~1api.openai.com~1profile/email"),
        plan: claim_text(claims, "/https:~1~1api.openai.com~1auth/chatgpt_plan_type"),
        user_id: text_first_present(
            claims,
            "/https:~1~1api.openai.com~1auth/chatgpt_user_id",
            &idp,
            "/sub",
        ),
        exp: if claim_present(&atp, "/exp") {
            claim_int(&atp, "/exp")
        } else {
            claim_int(&idp, "/exp")
        },
        last_refresh: str_at(auth_data, "/last_refresh"),
        openai_api_key: str_at(auth_data, "/OPENAI_API_KEY"),
    };
    proof {
        assert(opt_bytes(idp) == payload_of(token_field(auth_data@, "/tokens/id_token"@, "/id_token"@)));
        assert(opt_bytes(atp) == payload_of(
            token_field(auth_data@, "/tokens/access_token"@, "/access_token"@),
        ));
        assert(fields@ == auth_fields_of(auth_data@));
    }
    account_from_fields(fields, account_id)
}

/// The account id named by an access token's claims: the upstream user
/// id when the auth claims hold one, else the subject, else `acc_tmp`.
pub fn token_account_id(access_token: &str) -> (r: String)
    ensures
        r@ == text_or(
            str_first_present(
                payload_bytes(access_token@),
                "/https:~1~1api.openai.com~1auth/chatgpt_user_id"@,
                payload_bytes(access_token@),
                "/sub"@,
            ),
            "acc_tmp"@,
        ),
{
    let atp = decode_jwt(access_token);
    let found = text_first_present(
        &atp,
        "/https:~1~1api.openai.com~1auth/chatgpt_user_id",
        &atp,
        "/sub",
    );
    match found {
        Some(id) => id,
        None => "acc_tmp".to_owned(),
    }
}

/// Whether `c` is alphabetic or numeric in Unicode's sense.
pub uninterp spec fn is_alnum(c: char) -> bool;

/// Relies on `char::is_alphanumeric`.
#[verifier::external_body]
fn char_is_alphanumeric(c: char) -> (r: bool)
    ensures
        r == is_alnum(c),
{
    c.is_alphanumeric()
}

/// A character kept in a directory name; others become `_`.
pub open spec fn safe_char(c: char) -> char {
    if is_alnum(c) || c == '_' || c == '-' {
        c
    } else {
        '_'
    }
}

/// `raw` made safe as a directory name.
pub fn safe_account_id(raw: &str) -> (r: String)
    ensures
        r@ == raw@.map_values(|c: char| safe_char(c)),
{
    let n = raw.unicode_len();
    let mut out = String::new();
    let mut i: usize = 0;
    while i < n
        invariant
            n == raw@.len(),
            i <= n,
            out@ == raw@.subrange(0, i as int).map_values(|c: char| safe_char(c)),
        decreases n - i,
    {
        let c = raw.get_char(i);
        let kept = if char_is_alphanumeric(c) || c == '_' || c == '-' {
            c
        } else {
            '_'
        };
        push_char(&mut out, kept);
        i = i + 1;
        assert(out@ =~= raw@.subrange(0, i as int).map_values(|c: char| safe_char(c)));
    }
    assert(raw@.subrange(0, n as int) =~= raw@);
    out
}

/// Whether a managed credential file belongs to the active account: same
/// stored account id, or same refresh token.
pub fn same_account(
    candidate_id: Option<&str>,
    current_id: Option<&str>,
    candidate_refresh: Option<&str>,
    current_refresh: Option<&str>,
) -> (r: bool)
    ensures
        r == ((candidate_id matches Some(a) && current_id matches Some(b) && a@ == b@) || (
        candidate_refresh matches Some(a) && current_refresh matches Some(b) && a@ == b@)),
{
    let ids = match (candidate_id, current_id) {
        (Some(a), Some(b)) => crate::text::str_eq(a, b),
        _ => false,
    };
    let refresh = match (candidate_refresh, current_refresh) {
        (Some(a), Some(b)) => crate::text::str_eq(a, b),
        _ => false,
    };
    ids || refresh
}

/// A label as stored: an empty label is none.
pub fn label_value(label: String) -> (r: Option<String>)
    ensures
        label@.len() == 0 ==> r is None,
        label@.len() > 0 ==> (r matches Some(l) && l@ == label@),
{
    if label.unicode_len() == 0 {
        None
    } else {
        Some(label)
    }
}

/// The id an imported account is stored under: the stored account id,
/// else the user id, else `acc_tmp`; made safe as a directory name.
pub fn import_account_id(stored_account_id: Option<&str>, user_id: &str) -> (r: String)
    ensures
        r@ == (match stored_account_id {
            Some(x) => x@,
            None => if user_id@.len() == 0 {
                "acc_tmp"@
            } else {
                user_id@
            },
        }).map_values(|c: char| safe_char(c)),
{
    let raw: &str = match stored_account_id {
        Some(x) => x,
        None => if user_id.unicode_len() == 0 {
            "acc_tmp"
        } else {
            user_id
        },
    };
    safe_account_id(raw)
}

/// The identity provider of the login.
pub const AUTH0_DOMAIN: &'static str = "auth.openai.com";

/// The client id registered with the identity provider.
pub const CLIENT_ID: &'static str = "app_EMoamEEZ73f0CkXaXp7hrann";

/// The scopes asked for at login.
pub const SCOPE: &'static str = "openid profile email offline_access";

/// The local port the login callback is received on.
pub const OAUTH_CALLBACK_PORT: u16 = 1455;

/// A fresh PKCE verifier: 64 random bytes in URL-safe base64.
pub fn pkce_verifier() -> (r: String)
    ensures
        exists|raw: Seq<u8>| raw.len() == 64 && r@ == b64url_encoded_of(raw),
{
    let raw = os_random_bytes(64);
    b64url_encode(raw.as_slice())
}

/// The PKCE challenge of a verifier: its SHA-256 digest in URL-safe base64.
pub fn pkce_challenge(verifier: &str) -> (r: String)
    ensures
        r@ == b64url_encoded_of(sha256_of(encode_utf8(verifier@))),
{
    let digest = sha256(verifier.as_bytes());
    b64url_encode(digest.as_slice())
}

/// An ASCII letter or digit, as a byte.
pub open spec fn is_ascii_alnum_byte(b: u8) -> bool {
    (48 <= b <= 57) || (65 <= b <= 90) || (97 <= b <= 122)
}

/// The upper-case hexadecimal digit of `v < 16`.
pub open spec fn hex_upper(v: u8) -> char {
    if v < 10 {
        ((v + 48) as u8) as char
    } else {
        ((v + 55) as u8) as char
    }
}

/// One byte percent-encoded: ASCII letters and digits stay, any other byte
/// becomes `%` and two upper-case hexadecimal digits.
pub open spec fn pct_byte(b: u8) -> Seq<char> {
    if is_ascii_alnum_byte(b) {
        seq![b as char]
    } else {
        seq!['%', hex_upper(b / 16), hex_upper(b % 16)]
    }
}

/// Bytes percent-encoded one by one.
pub open spec fn pct_encoded(bytes: Seq<u8>) -> Seq<char>
    decreases bytes.len(),
{
    if bytes.len() == 0 {
        Seq::empty()
    } else {
        pct_encoded(bytes.drop_last()) + pct_byte(bytes.last())
    }
}

/// `s` with every byte of its UTF-8 form other than ASCII letters and
/// digits written as `%XX`.
pub open spec fn pct_encoded_of(s: Seq<char>) -> Seq<char> {
    pct_encoded(encode_utf8(s))
}

/// Relies on `percent_encoding::utf8_percent_encode` with `NON_ALPHANUMERIC`:
/// each UTF-8 byte that is not an ASCII letter or digit is encoded.
#[verifier::external_body]
fn pct_encode(s: &str) -> (r: String)
    ensures
        r@ == pct_encoded_of(s@),
{
    percent_encoding::utf8_percent_encode(s, percent_encoding::NON_ALPHANUMERIC).to_string()
}

/// The authorization URL the browser login opens.
pub open spec fn auth_url(redirect_uri: Seq<char>, code_challenge: Seq<char>, state: Seq<char>) -> Seq<char> {
    "https://"@ + AUTH0_DOMAIN@ + "/oauth/authorize?response_type=code&client_id="@ + CLIENT_ID@
        + "&redirect_uri="@ + pct_encoded_of(redirect_uri) + "&scope="@ + pct_encoded_of(SCOPE@)
        + "&code_challenge="@ + code_challenge
        + "&code_challenge_method=S256&id_token_add_organizations=true&codex_cli_simplified_flow=true&state="@
        + state + "&originator=codex_cli_rs"@
}

/// The authorization URL for a login with the given callback, challenge and state.
pub fn build_auth_url(redirect_uri: &str, code_challenge: &str, state: &str) -> (r: String)
    ensures
        r@ == auth_url(redirect_uri@, code_challenge@, state@),
{
    let mut url = "https://".to_owned();
    url.append(AUTH0_DOMAIN);
    url.append("/oauth/authorize?response_type=code&client_id=");
    url.append(CLIENT_ID);
    url.append("&redirect_uri=");
    url.append(pct_encode(redirect_uri).as_str());
    url.append("&scope=");
    url.append(pct_encode(SCOPE).as_str());
    url.append("&code_challenge=");
    url.append(code_challenge);
    url.append(
        "&code_challenge_method=S256&id_token_add_organizations=true&codex_cli_simplified_flow=true&state=",
    );
    url.append(state);
    url.append("&originator=codex_cli_rs");
    assert(url@ =~= auth_url(redirect_uri@, code_challenge@, state@));
    url
}

/// A usage window's length in whole minutes, rounded up.
pub fn window_minutes(seconds: u64) -> (r: u64)
    ensures
        r * 60 >= seconds,
        r * 60 < seconds + 60,
{
    let whole = seconds / 60;
    if seconds % 60 == 0 {
        whole
    } else {
        whole + 1
    }
}

/// The value of the last `key=value` pair named `key` in a query string;
/// segments without `=` are skipped.
pub open spec fn query_param(query: Seq<char>, key: Seq<char>) -> Option<Seq<char>>
    decreases query.len(),
    via query_param_decreases
{
    let (seg, rest) = match first_pos(query, '&') {
        Some(k) => (query.subrange(0, k as int), Some(query.subrange(k + 1int, query.len() as int))),
        None => (query, None),
    };
    let here = match first_pos(seg, '=') {
        Some(e) => if seg.subrange(0, e as int) == key {
            Some(seg.subrange(e + 1int, seg.len() as int))
        } else {
            None
        },
        None => None,
    };
    match rest {
        Some(r) => match query_param(r, key) {
            Some(v) => Some(v),
            None => here,
        },
        None => here,
    }
}

#[via_fn]
proof fn query_param_decreases(query: Seq<char>, key: Seq<char>) {
    crate::routing::lemma_first_pos_bound(query, '&');
}

/// The value of parameter `key` in a query string, the last one winning.
pub fn get_query_param<'a>(query: &'a str, key: &str) -> (r: Option<&'a str>)
    ensures
        match r {
            Some(v) => query_param(query@, key@) == Some(v@),
            None => query_param(query@, key@) is None,
        },
    decreases query@.len(),
{
    let n = query.unicode_len();
    let (seg, rest) = match first_char_pos(query, '&') {
        Some(k) => (query.substring_char(0, k), Some(query.substring_char(k + 1, n))),
        None => (query, None),
    };
    let m = seg.unicode_len();
    let here = match first_char_pos(seg, '=') {
        Some(e) => if crate::text::str_eq(seg.substring_char(0, e), key) {
            Some(seg.substring_char(e + 1, m))
        } else {
            None
        },
        None => None,
    };
    match rest {
        Some(r) => match get_query_param(r, key) {
            Some(v) => Some(v),
            None => here,
        },
        None => here,
    }
}

/// The authorization code of a login callback whose `state` matches the
/// one sent.
pub fn callback_code<'a>(query: &'a str, expected_state: &str) -> (r: Option<&'a str>)
    ensures
        match r {
            Some(c) => query_param(query@, "state"@) == Some(expected_state@) && query_param(
                query@,
                "code"@,
            ) == Some(c@),
            None => query_param(query@, "state"@) != Some(expected_state@) || query_param(
                query@,
                "code"@,
            ) is None,
        },
{
    let state_ok = match get_query_param(query, "state") {
        Some(s) => crate::text::str_eq(s, expected_state),
        None => false,
    };
    if !state_ok {
        return None;
    }
    get_query_param(query, "code")
}

/// The position of the first white-space character of `s`.
pub open spec fn first_white(s: Seq<char>) -> Option<nat>
    decreases s.len(),
{
    if s.len() == 0 {
        None
    } else if is_white(s[0]) {
        Some(0)
    } else {
        match first_white(s.drop_first()) {
            Some(i) => Some(i + 1),
            None => None,
        }
    }
}

/// The first white-space separated word of `s`, or `s` itself when it has none.
pub open spec fn leading_word(s: Seq<char>) -> Seq<char> {
    let t = trim_start_spec(s);
    if t.len() == 0 {
        s
    } else {
        match first_white(t) {
            Some(k) => t.subrange(0, k as int),
            None => t,
        }
    }
}

/// The query of an HTTP request line: the first word after its first `?`.
pub open spec fn request_line_query(line: Seq<char>) -> Option<Seq<char>> {
    match first_pos(line, '?') {
        Some(i) => Some(leading_word(line.subrange(i + 1int, line.len() as int))),
        None => None,
    }
}

proof fn lemma_first_white(s: Seq<char>, k: int)
    requires
        0 <= k <= s.len(),
        forall|j: int| 0 <= j < k ==> !is_white(#[trigger] s[j]),
        k < s.len() ==> is_white(s[k]),
    ensures
        first_white(s) == if k < s.len() {
            Some(k as nat)
        } else {
            None::<nat>
        },
    decreases k,
{
    if k > 0 {
        let t = s.drop_first();
        assert forall|j: int| 0 <= j < k - 1 implies !is_white(#[trigger] t[j]) by {
            assert(t[j] == s[j + 1]);
        }
        if k < s.len() {
            assert(t[k - 1] == s[k]);
        }
        lemma_first_white(t, k - 1);
        assert(!is_white(s[0]));
    }
}

/// The query of a login callback's request line.
pub fn callback_query(line: &str) -> (r: Option<&str>)
    ensures
        match r {
            Some(q) => request_line_query(line@) == Some(q@),
            None => request_line_query(line@) is None,
        },
{
    let n = line.unicode_len();
    let start = match first_char_pos(line, '?') {
        Some(i) => i + 1,
        None => {
            return None;
        },
    };
    let qs = line.substring_char(start, n);
    let m = qs.unicode_len();
    let mut a: usize = 0;
    while a < m && is_white_char(qs.get_char(a))
        invariant
            m == qs@.len(),
            a <= m,
            forall|j: int| 0 <= j < a ==> is_white(#[trigger] qs@[j]),
        decreases m - a,
    {
        a = a + 1;
    }
    proof {
        lemma_trim_start_skip(qs@, a as int);
        let t = qs@.subrange(a as int, m as int);
        if t.len() > 0 {
            assert(t[0] == qs@[a as int]);
        }
        assert(trim_start_spec(t) == t);
    }
    if a == m {
        return Some(qs);
    }
    let mut b: usize = a;
    while b < m && !is_white_char(qs.get_char(b))
        invariant
            m == qs@.len(),
            a <= b <= m,
            forall|j: int| a <= j < b ==> !is_white(#[trigger] qs@[j]),
        decreases m - b,
    {
        b = b + 1;
    }
    proof {
        let t = qs@.subrange(a as int, m as int);
        assert forall|j: int| 0 <= j < b - a implies !is_white(#[trigger] t[j]) by {
            assert(t[j] == qs@[a + j]);
        }
        if b < m {
            assert(t[b - a] == qs@[b as int]);
        }
        lemma_first_white(t, b - a);
        assert(t.subrange(0, b - a) =~= qs@.subrange(a as int, b as int));
    }
    Some(qs.substring_char(a, b))
}

} // verus!
