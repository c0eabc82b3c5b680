//! Where a request goes upstream: the `/v1/models` query fix-up and the
//! joining of the upstream base URL with the client's path.

use vstd::prelude::*;
use vstd::string::*;
use crate::text::{
    ends_with, eq_ascii_nocase, eq_ignore_ascii_case, find_char, has_prefix,
    has_suffix, push_char, starts_with, str_eq, trim, trimmed,
};

verus! {

/// The upstream base URL used when none is configured.
pub const DEFAULT_UPSTREAM_BASE_URL: &'static str = "https://chatgpt.com/backend-api/codex";

/// The `client_version` appended to model listings that lack one.
pub const DEFAULT_MODELS_CLIENT_VERSION: &'static str = "0.98.0";

/// The position of the first `c` in `s`.
pub open spec fn first_pos(s: Seq<char>, c: char) -> Option<nat>
    decreases s.len(),
{
    if s.len() == 0 {
        None
    } else if s[0] == c {
        Some(0)
    } else {
        match first_pos(s.drop_first(), c) {
            Some(i) => Some(i + 1),
            None => None,
        }
    }
}

proof fn lemma_first_pos(s: Seq<char>, c: char, r: Option<usize>)
    requires
        r matches Some(i) ==> i < s.len() && s[i as int] == c && forall|j: int|
            0 <= j < i ==> s[j] != c,
        r is None ==> !s.contains(c),
    ensures
        first_pos(s, c) == match r {
            Some(i) => Some(i as nat),
            None => None::<nat>,
        },
    decreases s.len(),
{
    if s.len() > 0 && s[0] != c {
        let t = s.drop_first();
        let rt: Option<usize> = match r {
            Some(i) => Some((i - 1) as usize),
            None => None,
        };
        if let Some(i) = r {
            assert forall|j: int| 0 <= j < i - 1 implies t[j] != c by {
                assert(t[j] == s[j + 1]);
            }
            assert(t[i - 1] == s[i as int]);
        } else {
            assert forall|j: int| 0 <= j < t.len() implies t[j] != c by {
                assert(t[j] == s[j + 1]);
                assert(!s.contains(c));
                if t[j] == c {
                    assert(s[j + 1] == c);
                }
            }
        }
        lemma_first_pos(t, c, rt);
    } else if s.len() > 0 {
        assert(r matches Some(i) && i == 0) by {
            if let Some(i) = r {
                if i > 0 {
                    assert(s[0] != c);
                }
            } else {
                assert(s.contains(c));
            }
        }
    }
}

/// The position of the first `c` in `s`.
pub(crate) fn first_char_pos(s: &str, c: char) -> (r: Option<usize>)
    ensures
        opt_nat(r) == first_pos(s@, c),
        r matches Some(i) ==> i < s@.len() && s@[i as int] == c,
{
    let r = find_char(s, c);
    proof {
        lemma_first_pos(s@, c, r);
    }
    r
}

/// An optional position as a natural number.
pub open spec fn opt_nat(r: Option<usize>) -> Option<nat> {
    match r {
        Some(i) => Some(i as nat),
        None => None,
    }
}

/// The key of one `key=value` query segment: the text before the first `=`.
pub open spec fn query_key(part: Seq<char>) -> Seq<char> {
    match first_pos(part, '=') {
        Some(k) => part.subrange(0, k as int),
        None => part,
    }
}

/// Some `&`-separated segment of `query` has the key `client_version`, in
/// any ASCII case.
pub open spec fn query_has_client_version(query: Seq<char>) -> bool
    decreases query.len(),
    via query_has_client_version_decreases
{
    match first_pos(query, '&') {
        Some(k) => eq_ascii_nocase(query_key(query.subrange(0, k as int)), "client_version"@)
            || query_has_client_version(query.subrange(k + 1int, query.len() as int)),
        None => eq_ascii_nocase(query_key(query), "client_version"@),
    }
}

#[via_fn]
proof fn query_has_client_version_decreases(query: Seq<char>) {
    lemma_first_pos_bound(query, '&');
}

pub(crate) proof fn lemma_first_pos_bound(s: Seq<char>, c: char)
    ensures
        first_pos(s, c) matches Some(k) ==> k < s.len() && s[k as int] == c,
    decreases s.len(),
{
    if s.len() > 0 && s[0] != c {
        lemma_first_pos_bound(s.drop_first(), c);
    }
}

/// Whether one query segment has the key `client_version`.
fn segment_is_client_version(part: &str) -> (r: bool)
    ensures
        r == eq_ascii_nocase(query_key(part@), "client_version"@),
{
    match first_char_pos(part, '=') {
        Some(k) => eq_ignore_ascii_case(part.substring_char(0, k), "client_version"),
        None => eq_ignore_ascii_case(part, "client_version"),
    }
}

/// Whether some segment of `query` has the key `client_version`.
fn has_client_version(query: &str) -> (r: bool)
    ensures
        r == query_has_client_version(query@),
{
    let mut rest: &str = query;
    loop
        invariant
            query_has_client_version(query@) == query_has_client_version(rest@),
        decreases rest@.len(),
    {
        let n = rest.unicode_len();
        match first_char_pos(rest, '&') {
            Some(k) => {
                if segment_is_client_version(rest.substring_char(0, k)) {
                    return true;
                }
                rest = rest.substring_char(k + 1, n);
            },
            None => {
                return segment_is_client_version(rest);
            },
        }
    }
}

/// `path` is the model listing, with or without a query.
pub open spec fn is_models_path(path: Seq<char>) -> bool {
    path == "/v1/models"@ || has_prefix(path, "/v1/models?"@)
}

/// The model listing gets `client_version` when its query lacks one;
/// other paths are kept.
pub open spec fn normalized_models_path(path: Seq<char>) -> Seq<char> {
    if !is_models_path(path) {
        path
    } else {
        let has_cv = match first_pos(path, '?') {
            Some(k) => query_has_client_version(path.subrange(k + 1int, path.len() as int)),
            None => false,
        };
        if has_cv {
            path
        } else {
            path + seq![
                if path.contains('?') {
                    '&'
                } else {
                    '?'
                },
            ] + "client_version="@ + DEFAULT_MODELS_CLIENT_VERSION@
        }
    }
}

/// The path sent upstream for the client's path and query `path`.
pub fn normalize_models_path(path: &str) -> (r: String)
    ensures
        r@ == normalized_models_path(path@),
{
    let is_models = str_eq(path, "/v1/models") || starts_with(path, "/v1/models?");
    if !is_models {
        return path.to_owned();
    }
    let n = path.unicode_len();
    let question = first_char_pos(path, '?');
    let has_cv = match question {
        Some(k) => has_client_version(path.substring_char(k + 1, n)),
        None => false,
    };
    if has_cv {
        return path.to_owned();
    }
    let mut out = path.to_owned();
    match question {
        Some(_) => push_char(&mut out, '&'),
        None => push_char(&mut out, '?'),
    }
    proof {
        if question is None && path@.contains('?') {
            let i = choose|i: int| 0 <= i < path@.len() && path@[i] == '?';
            lemma_first_pos_some(path@, '?', i);
        }
    }
    out.append("client_version=");
    out.append(DEFAULT_MODELS_CLIENT_VERSION);
    out
}

proof fn lemma_first_pos_some(s: Seq<char>, c: char, i: int)
    requires
        0 <= i < s.len(),
        s[i] == c,
    ensures
        first_pos(s, c) is Some,
    decreases s.len(),
{
    if s[0] != c {
        assert(s.drop_first()[i - 1] == c);
        lemma_first_pos_some(s.drop_first(), c, i - 1);
    }
}

/// `s` without any trailing `c`.
pub open spec fn trim_end_char(s: Seq<char>, c: char) -> Seq<char>
    decreases s.len(),
{
    if s.len() > 0 && s.last() == c {
        trim_end_char(s.drop_last(), c)
    } else {
        s
    }
}

/// `s` without repeated trailing copies of `p`, as `trim_end_matches` gives it.
pub open spec fn trim_end_pat(s: Seq<char>, p: Seq<char>) -> Seq<char>
    decreases s.len(),
{
    if p.len() > 0 && has_suffix(s, p) {
        trim_end_pat(s.subrange(0, s.len() - p.len()), p)
    } else {
        s
    }
}

fn trim_end_slashes(s: &str) -> (r: &str)
    ensures
        r@ == trim_end_char(s@, '/'),
{
    let mut cur: &str = s;
    loop
        invariant
            trim_end_char(s@, '/') == trim_end_char(cur@, '/'),
        decreases cur@.len(),
    {
        let n = cur.unicode_len();
        if n > 0 && cur.get_char(n - 1) == '/' {
            let next = cur.substring_char(0, n - 1);
            assert(next@ =~= cur@.drop_last());
            cur = next;
        } else {
            return cur;
        }
    }
}

fn trim_end_str<'a>(s: &'a str, p: &str) -> (r: &'a str)
    ensures
        r@ == trim_end_pat(s@, p@),
{
    let m = p.unicode_len();
    if m == 0 {
        return s;
    }
    let mut cur: &str = s;
    loop
        invariant
            m == p@.len(),
            m > 0,
            trim_end_pat(s@, p@) == trim_end_pat(cur@, p@),
        decreases cur@.len(),
    {
        if ends_with(cur, p) {
            let n = cur.unicode_len();
            cur = cur.substring_char(0, n - m);
        } else {
            return cur;
        }
    }
}

/// The upstream URL for `path` under `base`. Trailing slashes of `base` are
/// dropped. A base ending in `/backend-api/codex` takes `/v1/...` paths
/// without their one leading `/v1`; a base ending in `/v1` loses that suffix
/// before a `/v1...` path; otherwise the two are joined as they are.
pub open spec fn upstream_url(base: Seq<char>, path: Seq<char>) -> Seq<char> {
    let b = trim_end_char(base, '/');
    if has_suffix(b, "/backend-api/codex"@) && has_prefix(path, "/v1/"@) {
        b + path.subrange(3, path.len() as int)
    } else if has_suffix(b, "/v1"@) && has_prefix(path, "/v1"@) {
        trim_end_pat(b, "/v1"@) + path
    } else {
        b + path
    }
}

/// The upstream URL for the client's path and query under `base`.
pub fn build_upstream_url(base: &str, path_and_query: &str) -> (r: String)
    ensures
        r@ == upstream_url(base@, path_and_query@),
{
    let b = trim_end_slashes(base);
    if ends_with(b, "/backend-api/codex") && starts_with(path_and_query, "/v1/") {
        proof {
            reveal_strlit("/v1/");
        }
        let mut out = b.to_owned();
        out.append(path_and_query.substring_char(3, path_and_query.unicode_len()));
        out
    } else if ends_with(b, "/v1") && starts_with(path_and_query, "/v1") {
        let mut out = trim_end_str(b, "/v1").to_owned();
        out.append(path_and_query);
        out
    } else {
        let mut out = b.to_owned();
        out.append(path_and_query);
        out
    }
}

/// The configured upstream base URL: the setting trimmed, or the default
/// when it is absent or blank.
pub open spec fn configured_base_url(setting: Option<Seq<char>>) -> Seq<char> {
    match setting {
        Some(v) => if trimmed(v).len() > 0 {
            trimmed(v)
        } else {
            DEFAULT_UPSTREAM_BASE_URL@
        },
        None => DEFAULT_UPSTREAM_BASE_URL@,
    }
}

/// The upstream base URL from an optional setting.
pub fn upstream_base_url(setting: Option<&str>) -> (r: String)
    ensures
        r@ == configured_base_url(match setting {
            Some(s) => Some(s@),
            None => None,
        }),
{
    match setting {
        Some(v) => {
            let t = trim(v);
            if t.unicode_len() > 0 {
                t.to_owned()
            } else {
                DEFAULT_UPSTREAM_BASE_URL.to_owned()
            }
        },
        None => DEFAULT_UPSTREAM_BASE_URL.to_owned(),
    }
}

} // verus!
