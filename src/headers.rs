//! Header lists and the rewriting of a client's headers into the set sent
//! upstream. A header list holds (name, value) pairs in order; names are
//! compared exactly, as an HTTP header map holds them in lower case.

use vstd::prelude::*;
use vstd::string::*;
use crate::session::{derive_session_id, derived_session_id, is_uuid_v4_text, random_session_id};
use crate::text::{
    contains, has_infix, is_blank, lower_of, str_eq, to_lowercase, trimmed,
};

verus! {

/// The `version` header sent upstream.
pub const CODEX_CLIENT_VERSION: &'static str = "0.101.0";

/// The `User-Agent` header sent upstream.
pub const CODEX_USER_AGENT: &'static str = "codex_cli_rs/0.101.0 (Mac OS 26.0.1; arm64) Apple_Terminal/464";

/// The `openai-beta` header sent upstream.
pub const CODEX_OPENAI_BETA: &'static str = "responses=experimental";

/// The `originator` header sent upstream.
pub const CODEX_ORIGINATOR: &'static str = "codex_cli_rs";

/// A header list as sequences of characters.
pub open spec fn hview(h: Seq<(String, String)>) -> Seq<(Seq<char>, Seq<char>)> {
    h.map_values(|p: (String, String)| (p.0@, p.1@))
}

/// The characters of an optional string slice.
pub open spec fn opt_str(o: Option<&str>) -> Option<Seq<char>> {
    match o {
        Some(s) => Some(s@),
        None => None,
    }
}

/// `h` without the entries named `name`.
pub open spec fn without(h: Seq<(Seq<char>, Seq<char>)>, name: Seq<char>) -> Seq<(Seq<char>, Seq<char>)> {
    h.filter(|p: (Seq<char>, Seq<char>)| p.0 != name)
}

/// `h` with `name` set to `value` alone: every entry of that name is
/// replaced by one entry at the end.
pub open spec fn hinsert(h: Seq<(Seq<char>, Seq<char>)>, name: Seq<char>, value: Seq<char>) -> Seq<
    (Seq<char>, Seq<char>),
> {
    without(h, name).push((name, value))
}

/// The value of the first entry named `name`, if any.
pub open spec fn header_lookup(h: Seq<(Seq<char>, Seq<char>)>, name: Seq<char>) -> Option<Seq<char>>
    decreases h.len(),
{
    if h.len() == 0 {
        None
    } else if h[0].0 == name {
        Some(h[0].1)
    } else {
        header_lookup(h.drop_first(), name)
    }
}

fn copy_pair(p: &(String, String)) -> (r: (String, String))
    ensures
        r.0@ == p.0@,
        r.1@ == p.1@,
{
    (p.0.clone(), p.1.clone())
}

/// The value of the first header named `name`.
pub fn get_header<'a>(h: &'a Vec<(String, String)>, name: &str) -> (r: Option<&'a str>)
    ensures
        opt_str(r) == header_lookup(hview(h@), name@),
{
    let n = h.len();
    let mut i: usize = 0;
    assert(hview(h@).subrange(0, n as int) =~= hview(h@));
    while i < n
        invariant
            n == h@.len(),
            i <= n,
            header_lookup(hview(h@), name@) == header_lookup(
                hview(h@).subrange(i as int, n as int),
                name@,
            ),
        decreases n - i,
    {
        let ghost rest = hview(h@).subrange(i as int, n as int);
        assert(rest[0] == (h@[i as int].0@, h@[i as int].1@));
        if str_eq(h[i].0.as_str(), name) {
            return Some(h[i].1.as_str());
        }
        assert(rest.drop_first() =~= hview(h@).subrange(i + 1, n as int));
        i = i + 1;
    }
    None
}

/// `h` without the headers named `name`.
pub fn remove_header(h: &Vec<(String, String)>, name: &str) -> (r: Vec<(String, String)>)
    ensures
        hview(r@) == without(hview(h@), name@),
{
    let n = h.len();
    let mut out: Vec<(String, String)> = Vec::new();
    let mut i: usize = 0;
    while i < n
        invariant
            n == h@.len(),
            i <= n,
            hview(out@) == without(hview(h@).subrange(0, i as int), name@),
        decreases n - i,
    {
        let ghost before = hview(h@).subrange(0, i as int);
        let ghost after = hview(h@).subrange(0, i + 1);
        proof {
            reveal(Seq::filter);
        }
        assert(after.drop_last() =~= before);
        assert(after.last() == (h@[i as int].0@, h@[i as int].1@));
        if !str_eq(h[i].0.as_str(), name) {
            let p = copy_pair(&h[i]);
            out.push(p);
            assert(hview(out@) =~= without(after, name@));
        } else {
            assert(hview(out@) =~= without(after, name@));
        }
        i = i + 1;
    }
    assert(hview(h@).subrange(0, n as int) =~= hview(h@));
    out
}

/// Sets `name` to `value`, replacing every entry of that name.
pub fn insert_header(h: &mut Vec<(String, String)>, name: &str, value: String)
    ensures
        hview(final(h)@) == hinsert(hview(old(h)@), name@, value@),
{
    let mut out = remove_header(h, name);
    out.push((name.to_owned(), value));
    assert(hview(out@) =~= hinsert(hview(old(h)@), name@, value@));
    *h = out;
}

/// The lower-cased names of the headers that are not forwarded upstream:
/// hop-by-hop headers, the client's authorization and the body length.
pub open spec fn request_header_skipped(lower: Seq<char>) -> bool {
    lower == "host"@ || lower == "connection"@ || lower == "keep-alive"@ || lower
        == "proxy-authenticate"@ || lower == "proxy-authorization"@ || lower == "authorization"@
        || lower == "te"@ || lower == "trailers"@ || lower == "transfer-encoding"@ || lower
        == "upgrade"@ || lower == "content-length"@
}

/// The lower-cased names of the upstream response headers that are not
/// relayed to the client.
pub open spec fn response_header_skipped(lower: Seq<char>) -> bool {
    lower == "connection"@ || lower == "keep-alive"@ || lower == "transfer-encoding"@ || lower
        == "upgrade"@ || lower == "proxy-authenticate"@ || lower == "content-length"@
}

/// The lower-cased names of the headers never written to the request log.
pub open spec fn log_header_sensitive(lower: Seq<char>) -> bool {
    lower == "authorization"@ || lower == "x-api-key"@ || lower == "cookie"@ || lower
        == "proxy-authorization"@
}

/// Whether an already lower-cased request header name is kept from upstream.
pub fn is_hop_request_header(lower: &str) -> (r: bool)
    ensures
        r == request_header_skipped(lower@),
{
    str_eq(lower, "host") || str_eq(
        lower,
        "connection",
    ) || str_eq(lower, "keep-alive") || str_eq(
        lower,
        "proxy-authenticate",
    ) || str_eq(lower, "proxy-authorization") || str_eq(lower, "authorization") || str_eq(
        lower,
        "te",
    ) || str_eq(lower, "trailers") || str_eq(lower, "transfer-encoding") || str_eq(
        lower,
        "upgrade",
    ) || str_eq(lower, "content-length")
}

/// Whether an already lower-cased response header name is kept from the client.
pub fn is_hop_response_header(lower: &str) -> (r: bool)
    ensures
        r == response_header_skipped(lower@),
{
    str_eq(lower, "connection") || str_eq(lower, "keep-alive") || str_eq(lower, "transfer-encoding")
        || str_eq(lower, "upgrade") || str_eq(lower, "proxy-authenticate") || str_eq(
        lower,
        "content-length",
    )
}

/// Whether an already lower-cased header name is kept out of the log.
pub fn is_sensitive_header(lower: &str) -> (r: bool)
    ensures
        r == log_header_sensitive(lower@),
{
    str_eq(lower, "authorization") || str_eq(lower, "x-api-key") || str_eq(lower, "cookie")
        || str_eq(lower, "proxy-authorization")
}

/// Whether the request header `name` (any case) is not forwarded upstream.
pub fn skip_request_header(name: &str) -> (r: bool)
    ensures
        r == request_header_skipped(lower_of(name@)),
{
    let lower = to_lowercase(name);
    is_hop_request_header(lower.as_str())
}

/// Whether the response header `name` (any case) is not relayed to the client.
pub fn skip_response_header(name: &str) -> (r: bool)
    ensures
        r == response_header_skipped(lower_of(name@)),
{
    let lower = to_lowercase(name);
    is_hop_response_header(lower.as_str())
}

/// The client's headers as forwarded: entries in order, each set with
/// `hinsert` (a later value of a name replaces an earlier one), skipping
/// the names that are not forwarded.
pub open spec fn forwarded(h: Seq<(Seq<char>, Seq<char>)>) -> Seq<(Seq<char>, Seq<char>)>
    decreases h.len(),
{
    if h.len() == 0 {
        h
    } else {
        let rest = forwarded(h.drop_last());
        if request_header_skipped(lower_of(h.last().0)) {
            rest
        } else {
            hinsert(rest, h.last().0, h.last().1)
        }
    }
}

/// The headers of a client request that pass through to upstream.
pub fn forward_request_headers(incoming: &Vec<(String, String)>) -> (r: Vec<(String, String)>)
    ensures
        hview(r@) == forwarded(hview(incoming@)),
{
    let n = incoming.len();
    let mut out: Vec<(String, String)> = Vec::new();
    let mut i: usize = 0;
    assert(hview(out@) =~= forwarded(hview(incoming@).subrange(0, 0)));
    while i < n
        invariant
            n == incoming@.len(),
            i <= n,
            hview(out@) == forwarded(hview(incoming@).subrange(0, i as int)),
        decreases n - i,
    {
        let ghost after = hview(incoming@).subrange(0, i + 1);
        assert(after.drop_last() =~= hview(incoming@).subrange(0, i as int));
        assert(after.last() == (incoming@[i as int].0@, incoming@[i as int].1@));
        if !skip_request_header(incoming[i].0.as_str()) {
            insert_header(&mut out, incoming[i].0.as_str(), incoming[i].1.clone());
        }
        i = i + 1;
    }
    assert(hview(incoming@).subrange(0, n as int) =~= hview(incoming@));
    out
}

/// The headers that may be written to the log.
pub open spec fn sanitized(h: Seq<(Seq<char>, Seq<char>)>) -> Seq<(Seq<char>, Seq<char>)> {
    h.filter(|p: (Seq<char>, Seq<char>)| !log_header_sensitive(lower_of(p.0)))
}

/// `headers` without credentials (names compared in lower case), for the log.
pub fn sanitize_headers(headers: &Vec<(String, String)>) -> (r: Vec<(String, String)>)
    ensures
        hview(r@) == sanitized(hview(headers@)),
        forall|i: int| 0 <= i < r@.len() ==> !log_header_sensitive(lower_of(#[trigger] r@[i].0@)),
{
    let n = headers.len();
    let mut out: Vec<(String, String)> = Vec::new();
    let mut i: usize = 0;
    while i < n
        invariant
            n == headers@.len(),
            i <= n,
            hview(out@) == sanitized(hview(headers@).subrange(0, i as int)),
        decreases n - i,
    {
        let ghost after = hview(headers@).subrange(0, i + 1);
        proof {
            reveal(Seq::filter);
        }
        assert(after.drop_last() =~= hview(headers@).subrange(0, i as int));
        assert(after.last() == (headers@[i as int].0@, headers@[i as int].1@));
        let lower = to_lowercase(headers[i].0.as_str());
        if !is_sensitive_header(lower.as_str()) {
            let p = copy_pair(&headers[i]);
            out.push(p);
            assert(hview(out@) =~= sanitized(after));
        } else {
            assert(hview(out@) =~= sanitized(after));
        }
        i = i + 1;
    }
    assert(hview(headers@).subrange(0, n as int) =~= hview(headers@));
    assert forall|i: int| 0 <= i < out@.len() implies !log_header_sensitive(
        lower_of(#[trigger] out@[i].0@),
    ) by {
        let hv = hview(headers@);
        let pred = |p: (Seq<char>, Seq<char>)| !log_header_sensitive(lower_of(p.0));
        assert(hview(out@)[i] == (out@[i].0@, out@[i].1@));
        hv.lemma_filter_pred(pred, i);
    }
    out
}

/// `v` when it holds something besides white space.
pub open spec fn nonblank(v: Option<Seq<char>>) -> Option<Seq<char>> {
    match v {
        Some(s) => if trimmed(s).len() > 0 {
            Some(s)
        } else {
            None
        },
        None => None,
    }
}

fn nonblank_str<'a>(v: Option<&'a str>) -> (r: Option<&'a str>)
    ensures
        opt_str(r) == nonblank(opt_str(v)),
{
    match v {
        Some(s) => if is_blank(s) {
            None
        } else {
            Some(s)
        },
        None => None,
    }
}

/// Which session id may be sent upstream. With affinity stripped, a fresh
/// random one. Otherwise the client's non-blank `session_id`; failing that,
/// the id derived from its `x-codex-sticky` key; failing that, a random one.
pub open spec fn session_id_ok(incoming: Seq<(Seq<char>, Seq<char>)>, strip: bool, sid: Seq<char>) -> bool {
    if strip {
        is_uuid_v4_text(sid)
    } else {
        match nonblank(header_lookup(incoming, "session_id"@)) {
            Some(v) => sid == v,
            None => match header_lookup(incoming, "x-codex-sticky"@) {
                Some(k) => sid == derived_session_id("session"@, k),
                None => is_uuid_v4_text(sid),
            },
        }
    }
}

/// The session id to send upstream for a request with headers `incoming`.
pub fn resolve_session_id(incoming: &Vec<(String, String)>, strip_session_affinity: bool) -> (r: String)
    ensures
        session_id_ok(hview(incoming@), strip_session_affinity, r@),
{
    if strip_session_affinity {
        return random_session_id();
    }
    let own = nonblank_str(get_header(incoming, "session_id"));
    match own {
        Some(v) => v.to_owned(),
        None => match derive_session_id(get_header(incoming, "x-codex-sticky"), "session") {
            Some(s) => s,
            None => random_session_id(),
        },
    }
}

/// The conversation id forwarded upstream: the client's non-blank
/// `conversation_id`, unless affinity is stripped.
pub open spec fn forwarded_conversation(incoming: Seq<(Seq<char>, Seq<char>)>, strip: bool) -> Option<Seq<char>> {
    if strip {
        None
    } else {
        nonblank(header_lookup(incoming, "conversation_id"@))
    }
}

/// The conversation id to forward for a request with headers `incoming`.
pub fn resolve_conversation_id<'a>(incoming: &'a Vec<(String, String)>, strip_session_affinity: bool) -> (r: Option<&'a str>)
    ensures
        opt_str(r) == forwarded_conversation(hview(incoming@), strip_session_affinity),
{
    if strip_session_affinity {
        None
    } else {
        nonblank_str(get_header(incoming, "conversation_id"))
    }
}

/// `h` with `name` set when `value` is present.
pub open spec fn hinsert_opt(h: Seq<(Seq<char>, Seq<char>)>, name: Seq<char>, value: Option<Seq<char>>) -> Seq<
    (Seq<char>, Seq<char>),
> {
    match value {
        Some(v) => hinsert(h, name, v),
        None => h,
    }
}

/// The upstream header set: `base` with the gateway's own headers
/// written over it, in this order.
pub open spec fn rewritten(
    base: Seq<(Seq<char>, Seq<char>)>,
    token: Seq<char>,
    account_id: Option<Seq<char>>,
    has_body: bool,
    is_stream: bool,
    strip_affinity: bool,
    conversation_id: Option<Seq<char>>,
    cookie: Option<Seq<char>>,
    session_id: Seq<char>,
) -> Seq<(Seq<char>, Seq<char>)> {
    let h1 = hinsert(credentials_dropped(base), "authorization"@, "Bearer "@ + token);
    let h2 = hinsert_opt(
        h1,
        "content-type"@,
        if has_body {
            Some("application/json"@)
        } else {
            None
        },
    );
    let h3 = hinsert(
        h2,
        "accept"@,
        if is_stream {
            "text/event-stream"@
        } else {
            "application/json"@
        },
    );
    let h4 = hinsert(h3, "connection"@, "Keep-Alive"@);
    let h5 = hinsert(h4, "version"@, CODEX_CLIENT_VERSION@);
    let h6 = hinsert(h5, "openai-beta"@, CODEX_OPENAI_BETA@);
    let h7 = hinsert(h6, "user-agent"@, CODEX_USER_AGENT@);
    let h8 = hinsert(h7, "originator"@, CODEX_ORIGINATOR@);
    let h9 = hinsert(h8, "session_id"@, session_id);
    let h10 = hinsert_opt(unaffine(h9, strip_affinity), "conversation_id"@, conversation_id);
    let h11 = hinsert_opt(h10, "chatgpt-account-id"@, account_id);
    hinsert_opt(h11, "cookie"@, cookie)
}

/// `h` without the client's own `x-api-key` and `cookie`: the gateway key
/// stays at the gateway, and only a configured cookie goes upstream.
pub open spec fn credentials_dropped(h: Seq<(Seq<char>, Seq<char>)>) -> Seq<(Seq<char>, Seq<char>)> {
    without(without(h, "x-api-key"@), "cookie"@)
}

/// `h` without the client's `conversation_id` when affinity is stripped.
pub open spec fn unaffine(h: Seq<(Seq<char>, Seq<char>)>, strip_affinity: bool) -> Seq<(Seq<char>, Seq<char>)> {
    if strip_affinity {
        without(h, "conversation_id"@)
    } else {
        h
    }
}

fn insert_header_opt(h: &mut Vec<(String, String)>, name: &str, value: Option<&str>)
    ensures
        hview(final(h)@) == hinsert_opt(hview(old(h)@), name@, opt_str(value)),
{
    if let Some(v) = value {
        insert_header(h, name, v.to_owned());
    }
}

/// Writes the gateway's headers over `headers`, with a session id already
/// chosen. The client's `x-api-key` and `cookie` are dropped first; with
/// affinity stripped, a `conversation_id` already in `headers` is dropped.
pub fn rewrite_upstream_headers(
    headers: &mut Vec<(String, String)>,
    auth_token: &str,
    account_id: Option<&str>,
    has_body: bool,
    is_stream: bool,
    strip_session_affinity: bool,
    conversation_id: Option<&str>,
    cookie: Option<&str>,
    session_id: &str,
)
    ensures
        hview(final(headers)@) == rewritten(
            hview(old(headers)@),
            auth_token@,
            opt_str(account_id),
            has_body,
            is_stream,
            strip_session_affinity,
            opt_str(conversation_id),
            opt_str(cookie),
            session_id@,
        ),
{
    let no_key = remove_header(headers, "x-api-key");
    let no_cookie = remove_header(&no_key, "cookie");
    *headers = no_cookie;
    let mut bearer = "Bearer ".to_owned();
    bearer.append(auth_token);
    insert_header(headers, "authorization", bearer);
    insert_header_opt(
        headers,
        "content-type",
        if has_body {
            Some("application/json")
        } else {
            None
        },
    );
    insert_header(
        headers,
        "accept",
        if is_stream {
            "text/event-stream".to_owned()
        } else {
            "application/json".to_owned()
        },
    );
    insert_header(headers, "connection", "Keep-Alive".to_owned());
    insert_header(headers, "version", CODEX_CLIENT_VERSION.to_owned());
    insert_header(headers, "openai-beta", CODEX_OPENAI_BETA.to_owned());
    insert_header(headers, "user-agent", CODEX_USER_AGENT.to_owned());
    insert_header(headers, "originator", CODEX_ORIGINATOR.to_owned());
    insert_header(headers, "session_id", session_id.to_owned());
    if strip_session_affinity {
        let kept = remove_header(headers, "conversation_id");
        *headers = kept;
    }
    insert_header_opt(headers, "conversation_id", conversation_id);
    insert_header_opt(headers, "chatgpt-account-id", account_id);
    insert_header_opt(headers, "cookie", cookie);
}

/// Writes the gateway's headers over `headers` for a request whose own
/// headers are `incoming`: the chosen token, the pinned client identity,
/// and a session id resolved from `incoming`.
pub fn apply_upstream_headers(
    headers: &mut Vec<(String, String)>,
    auth_token: &str,
    account_id: Option<&str>,
    incoming: &Vec<(String, String)>,
    has_body: bool,
    is_stream: bool,
    strip_session_affinity: bool,
    cookie: Option<&str>,
)
    ensures
        exists|sid: Seq<char>|
            session_id_ok(hview(incoming@), strip_session_affinity, sid) && hview(final(headers)@)
                == rewritten(
                hview(old(headers)@),
                auth_token@,
                opt_str(account_id),
                has_body,
                is_stream,
                strip_session_affinity,
                forwarded_conversation(hview(incoming@), strip_session_affinity),
                opt_str(cookie),
                sid,
            ),
{
    let sid = resolve_session_id(incoming, strip_session_affinity);
    let conversation = resolve_conversation_id(incoming, strip_session_affinity);
    rewrite_upstream_headers(
        headers,
        auth_token,
        account_id,
        has_body,
        is_stream,
        strip_session_affinity,
        conversation,
        cookie,
        sid.as_str(),
    );
}

/// Whether the client asked for an event stream.
pub fn wants_event_stream(headers: &Vec<(String, String)>) -> (r: bool)
    ensures
        r == match header_lookup(hview(headers@), "accept"@) {
            Some(v) => has_infix(v, "text/event-stream"@),
            None => false,
        },
{
    match get_header(headers, "accept") {
        Some(v) => contains(v, "text/event-stream"),
        None => false,
    }
}

/// The names the gateway writes itself.
pub open spec fn gateway_header_name(n: Seq<char>) -> bool {
    n == "authorization"@ || n == "content-type"@ || n == "accept"@ || n == "connection"@ || n
        == "version"@ || n == "openai-beta"@ || n == "user-agent"@ || n == "originator"@ || n
        == "session_id"@ || n == "conversation_id"@ || n == "chatgpt-account-id"@ || n
        == "cookie"@
}

proof fn lemma_without_step(h: Seq<(Seq<char>, Seq<char>)>, n: Seq<char>)
    requires
        h.len() > 0,
    ensures
        without(h, n) == if h.last().0 != n {
            without(h.drop_last(), n).push(h.last())
        } else {
            without(h.drop_last(), n)
        },
{
    reveal(Seq::filter);
}

proof fn lemma_without_keeps_all(
    h: Seq<(Seq<char>, Seq<char>)>,
    n: Seq<char>,
    q: spec_fn((Seq<char>, Seq<char>)) -> bool,
)
    requires
        forall|i: int| 0 <= i < h.len() ==> q(#[trigger] h[i]),
    ensures
        forall|i: int| 0 <= i < without(h, n).len() ==> q(#[trigger] without(h, n)[i]),
    decreases h.len(),
{
    if h.len() > 0 {
        let t = h.drop_last();
        assert forall|i: int| 0 <= i < t.len() implies q(#[trigger] t[i]) by {
            assert(t[i] == h[i]);
        }
        lemma_without_keeps_all(t, n, q);
        lemma_without_step(h, n);
        let f = without(h, n);
        let g = without(t, n);
        assert forall|i: int| 0 <= i < f.len() implies q(#[trigger] f[i]) by {
            if i < g.len() {
                assert(f[i] == g[i]);
            } else {
                assert(f[i] == h.last());
            }
        }
    } else {
        reveal(Seq::filter);
    }
}

proof fn lemma_without_drops(h: Seq<(Seq<char>, Seq<char>)>, n: Seq<char>)
    ensures
        forall|i: int| 0 <= i < without(h, n).len() ==> (#[trigger] without(h, n)[i]).0 != n,
    decreases h.len(),
{
    if h.len() > 0 {
        let t = h.drop_last();
        lemma_without_drops(t, n);
        lemma_without_step(h, n);
        let f = without(h, n);
        let g = without(t, n);
        assert forall|i: int| 0 <= i < f.len() implies (#[trigger] f[i]).0 != n by {
            if i < g.len() {
                assert(f[i] == g[i]);
            }
        }
    } else {
        reveal(Seq::filter);
    }
}

proof fn lemma_without_contains(h: Seq<(Seq<char>, Seq<char>)>, n: Seq<char>, e: (Seq<char>, Seq<char>))
    requires
        h.contains(e),
        e.0 != n,
    ensures
        without(h, n).contains(e),
    decreases h.len(),
{
    let t = h.drop_last();
    lemma_without_step(h, n);
    if h.last() == e {
        assert(without(h, n)[without(h, n).len() - 1] == e);
    } else {
        let i = choose|i: int| 0 <= i < h.len() && h[i] == e;
        assert(t[i] == e);
        lemma_without_contains(t, n, e);
        let g = without(t, n);
        let j = choose|j: int| 0 <= j < g.len() && g[j] == e;
        assert(without(h, n)[j] == e);
    }
}

proof fn lemma_insert_keeps_all(
    h: Seq<(Seq<char>, Seq<char>)>,
    n: Seq<char>,
    v: Seq<char>,
    q: spec_fn((Seq<char>, Seq<char>)) -> bool,
)
    requires
        forall|i: int| 0 <= i < h.len() ==> q(#[trigger] h[i]),
        q((n, v)),
    ensures
        forall|i: int| 0 <= i < hinsert(h, n, v).len() ==> q(#[trigger] hinsert(h, n, v)[i]),
{
    lemma_without_keeps_all(h, n, q);
    let w = without(h, n);
    assert forall|i: int| 0 <= i < hinsert(h, n, v).len() implies q(
        #[trigger] hinsert(h, n, v)[i],
    ) by {
        if i < w.len() {
            assert(hinsert(h, n, v)[i] == w[i]);
        }
    }
}

proof fn lemma_insert_opt_keeps_all(
    h: Seq<(Seq<char>, Seq<char>)>,
    n: Seq<char>,
    v: Option<Seq<char>>,
    q: spec_fn((Seq<char>, Seq<char>)) -> bool,
)
    requires
        forall|i: int| 0 <= i < h.len() ==> q(#[trigger] h[i]),
        v matches Some(x) ==> q((n, x)),
    ensures
        forall|i: int| 0 <= i < hinsert_opt(h, n, v).len() ==> q(#[trigger] hinsert_opt(h, n, v)[i]),
{
    if let Some(x) = v {
        lemma_insert_keeps_all(h, n, x, q);
    }
}

proof fn lemma_insert_keeps_entry(
    h: Seq<(Seq<char>, Seq<char>)>,
    n: Seq<char>,
    v: Option<Seq<char>>,
    e: (Seq<char>, Seq<char>),
)
    requires
        h.contains(e),
        e.0 != n,
    ensures
        hinsert_opt(h, n, v).contains(e),
{
    if let Some(x) = v {
        lemma_without_contains(h, n, e);
        let w = without(h, n);
        let j = choose|j: int| 0 <= j < w.len() && w[j] == e;
        assert(hinsert(h, n, x)[j] == e);
    }
}

proof fn lemma_forwarded_passes(h: Seq<(Seq<char>, Seq<char>)>)
    ensures
        forall|i: int|
            0 <= i < forwarded(h).len() ==> !request_header_skipped(lower_of((#[trigger] forwarded(h)[i]).0)),
    decreases h.len(),
{
    if h.len() > 0 {
        lemma_forwarded_passes(h.drop_last());
        let q = |p: (Seq<char>, Seq<char>)| !request_header_skipped(lower_of(p.0));
        let rest = forwarded(h.drop_last());
        if !request_header_skipped(lower_of(h.last().0)) {
            assert forall|i: int| 0 <= i < rest.len() implies q(#[trigger] rest[i]) by {}
            lemma_insert_keeps_all(rest, h.last().0, h.last().1, q);
        }
    }
}

/// How many entries of `h` are named `n`.
pub open spec fn count_named(h: Seq<(Seq<char>, Seq<char>)>, n: Seq<char>) -> nat
    decreases h.len(),
{
    if h.len() == 0 {
        0
    } else {
        count_named(h.drop_last(), n) + if h.last().0 == n {
            1nat
        } else {
            0nat
        }
    }
}

proof fn lemma_count_push(h: Seq<(Seq<char>, Seq<char>)>, e: (Seq<char>, Seq<char>), n: Seq<char>)
    ensures
        count_named(h.push(e), n) == count_named(h, n) + if e.0 == n {
            1nat
        } else {
            0nat
        },
{
    assert(h.push(e).drop_last() =~= h);
}

proof fn lemma_count_without(h: Seq<(Seq<char>, Seq<char>)>, m: Seq<char>, n: Seq<char>)
    ensures
        count_named(without(h, m), n) == if m == n {
            0
        } else {
            count_named(h, n)
        },
    decreases h.len(),
{
    if h.len() == 0 {
        reveal(Seq::filter);
    } else {
        lemma_without_step(h, m);
        lemma_count_without(h.drop_last(), m, n);
        if h.last().0 != m {
            lemma_count_push(without(h.drop_last(), m), h.last(), n);
        }
    }
}

proof fn lemma_count_insert(h: Seq<(Seq<char>, Seq<char>)>, m: Seq<char>, v: Option<Seq<char>>, n: Seq<char>)
    ensures
        count_named(hinsert_opt(h, m, v), n) == if m == n && v is Some {
            1
        } else if m == n {
            count_named(h, n)
        } else {
            count_named(h, n)
        },
{
    if let Some(x) = v {
        lemma_count_without(h, m, n);
        lemma_count_push(without(h, m), (m, x), n);
    }
}

proof fn lemma_count_absent(h: Seq<(Seq<char>, Seq<char>)>, n: Seq<char>)
    requires
        forall|i: int| 0 <= i < h.len() ==> (#[trigger] h[i]).0 != n,
    ensures
        count_named(h, n) == 0,
    decreases h.len(),
{
    if h.len() > 0 {
        let t = h.drop_last();
        assert forall|i: int| 0 <= i < t.len() implies (#[trigger] t[i]).0 != n by {
            assert(t[i] == h[i]);
        }
        lemma_count_absent(t, n);
    }
}

/// How many entries named `n` the rewrite leaves, for a name the gateway
/// does not write itself: as many as the base held.
proof fn lemma_rewrite_keeps_count(
    base: Seq<(Seq<char>, Seq<char>)>,
    token: Seq<char>,
    account_id: Option<Seq<char>>,
    has_body: bool,
    is_stream: bool,
    strip_affinity: bool,
    conversation_id: Option<Seq<char>>,
    cookie: Option<Seq<char>>,
    session_id: Seq<char>,
    n: Seq<char>,
)
    requires
        n != "authorization"@,
        n != "content-type"@,
        n != "accept"@,
        n != "connection"@,
        n != "version"@,
        n != "openai-beta"@,
        n != "user-agent"@,
        n != "originator"@,
        n != "session_id"@,
        n != "conversation_id"@,
        n != "chatgpt-account-id"@,
    ensures
        count_named(
            rewritten(
                base,
                token,
                account_id,
                has_body,
                is_stream,
                strip_affinity,
                conversation_id,
                cookie,
                session_id,
            ),
            n,
        ) == count_named(hinsert_opt(credentials_dropped(base), "cookie"@, cookie), n),
{
    let bearer = "Bearer "@ + token;
    let ct = if has_body {
        Some("application/json"@)
    } else {
        None
    };
    let accept = if is_stream {
        "text/event-stream"@
    } else {
        "application/json"@
    };
    let h0 = credentials_dropped(base);
    let h1 = hinsert(h0, "authorization"@, bearer);
    let h2 = hinsert_opt(h1, "content-type"@, ct);
    let h3 = hinsert(h2, "accept"@, accept);
    let h4 = hinsert(h3, "connection"@, "Keep-Alive"@);
    let h5 = hinsert(h4, "version"@, CODEX_CLIENT_VERSION@);
    let h6 = hinsert(h5, "openai-beta"@, CODEX_OPENAI_BETA@);
    let h7 = hinsert(h6, "user-agent"@, CODEX_USER_AGENT@);
    let h8 = hinsert(h7, "originator"@, CODEX_ORIGINATOR@);
    let h9 = hinsert(h8, "session_id"@, session_id);
    let u = unaffine(h9, strip_affinity);
    let h10 = hinsert_opt(u, "conversation_id"@, conversation_id);
    let h11 = hinsert_opt(h10, "chatgpt-account-id"@, account_id);
    lemma_count_insert(h0, "authorization"@, Some(bearer), n);
    lemma_count_insert(h1, "content-type"@, ct, n);
    lemma_count_insert(h2, "accept"@, Some(accept), n);
    lemma_count_insert(h3, "connection"@, Some("Keep-Alive"@), n);
    lemma_count_insert(h4, "version"@, Some(CODEX_CLIENT_VERSION@), n);
    lemma_count_insert(h5, "openai-beta"@, Some(CODEX_OPENAI_BETA@), n);
    lemma_count_insert(h6, "user-agent"@, Some(CODEX_USER_AGENT@), n);
    lemma_count_insert(h7, "originator"@, Some(CODEX_ORIGINATOR@), n);
    lemma_count_insert(h8, "session_id"@, Some(session_id), n);
    lemma_count_without(h9, "conversation_id"@, n);
    lemma_count_insert(u, "conversation_id"@, conversation_id, n);
    lemma_count_insert(h10, "chatgpt-account-id"@, account_id, n);
    lemma_count_insert(h11, "cookie"@, cookie, n);
    lemma_count_insert(h0, "cookie"@, cookie, n);
}

/// The client's credentials never reach upstream. In the headers sent
/// upstream (the client's forwarded headers, without its `x-api-key` and
/// `cookie`, with the gateway's written over them) there is exactly one
/// `authorization` header, carrying the chosen bearer token; no
/// `x-api-key`; a `cookie` exactly when one is configured, carrying the
/// configured value; and every header the gateway does not write has a
/// name that does not lower-case to a name that is never forwarded.
pub proof fn lemma_client_auth_stripped(
    incoming: Seq<(Seq<char>, Seq<char>)>,
    token: Seq<char>,
    account_id: Option<Seq<char>>,
    has_body: bool,
    is_stream: bool,
    strip_affinity: bool,
    conversation_id: Option<Seq<char>>,
    cookie: Option<Seq<char>>,
    session_id: Seq<char>,
)
    ensures
        ({
            let up = rewritten(
                forwarded(incoming),
                token,
                account_id,
                has_body,
                is_stream,
                strip_affinity,
                conversation_id,
                cookie,
                session_id,
            );
            &&& forall|i: int|
                0 <= i < up.len() && (#[trigger] up[i]).0 == "authorization"@ ==> up[i].1 == "Bearer "@
                    + token
            &&& up.contains(("authorization"@, "Bearer "@ + token))
            &&& count_named(up, "authorization"@) == 1
            &&& count_named(up, "x-api-key"@) == 0
            &&& count_named(up, "cookie"@) == if cookie is Some {
                1nat
            } else {
                0nat
            }
            &&& forall|i: int|
                0 <= i < up.len() && (#[trigger] up[i]).0 == "cookie"@ ==> cookie == Some(up[i].1)
            &&& forall|i: int|
                0 <= i < up.len() && !gateway_header_name((#[trigger] up[i]).0)
                    ==> !request_header_skipped(lower_of(up[i].0))
        }),
{
    reveal_strlit("authorization");
    reveal_strlit("content-type");
    reveal_strlit("accept");
    reveal_strlit("connection");
    reveal_strlit("version");
    reveal_strlit("openai-beta");
    reveal_strlit("user-agent");
    reveal_strlit("originator");
    reveal_strlit("session_id");
    reveal_strlit("conversation_id");
    reveal_strlit("chatgpt-account-id");
    reveal_strlit("cookie");
    reveal_strlit("x-api-key");
    let auth = "authorization"@;
    let bearer = "Bearer "@ + token;
    let base = forwarded(incoming);
    let ct = if has_body {
        Some("application/json"@)
    } else {
        None
    };
    let accept = if is_stream {
        "text/event-stream"@
    } else {
        "application/json"@
    };
    let h0 = credentials_dropped(base);
    let h1 = hinsert(h0, auth, bearer);
    let h2 = hinsert_opt(h1, "content-type"@, ct);
    let h3 = hinsert(h2, "accept"@, accept);
    let h4 = hinsert(h3, "connection"@, "Keep-Alive"@);
    let h5 = hinsert(h4, "version"@, CODEX_CLIENT_VERSION@);
    let h6 = hinsert(h5, "openai-beta"@, CODEX_OPENAI_BETA@);
    let h7 = hinsert(h6, "user-agent"@, CODEX_USER_AGENT@);
    let h8 = hinsert(h7, "originator"@, CODEX_ORIGINATOR@);
    let h9 = hinsert(h8, "session_id"@, session_id);
    let u = unaffine(h9, strip_affinity);
    let h10 = hinsert_opt(u, "conversation_id"@, conversation_id);
    let h11 = hinsert_opt(h10, "chatgpt-account-id"@, account_id);
    let up = hinsert_opt(h11, "cookie"@, cookie);
    assert("content-type"@.len() != auth.len());
    assert("accept"@.len() != auth.len());
    assert("connection"@ != auth) by {
        assert("connection"@[0] != auth[0]);
    }
    assert("cookie"@.len() == 6);
    assert("x-api-key"@.len() == 9);
    assert("accept"@ != "cookie"@) by {
        assert("accept"@[0] != "cookie"@[0]);
    }
    lemma_forwarded_passes(incoming);

    // Every `authorization` entry carries the bearer token.
    let q1 = |p: (Seq<char>, Seq<char>)| p.0 == auth ==> p.1 == bearer;
    let w = without(h0, auth);
    lemma_without_drops(h0, auth);
    assert forall|i: int| 0 <= i < h1.len() implies q1(#[trigger] h1[i]) by {
        if i < w.len() {
            assert(h1[i] == w[i]);
        }
    }
    lemma_insert_opt_keeps_all(h1, "content-type"@, ct, q1);
    lemma_insert_keeps_all(h2, "accept"@, accept, q1);
    lemma_insert_keeps_all(h3, "connection"@, "Keep-Alive"@, q1);
    lemma_insert_keeps_all(h4, "version"@, CODEX_CLIENT_VERSION@, q1);
    lemma_insert_keeps_all(h5, "openai-beta"@, CODEX_OPENAI_BETA@, q1);
    lemma_insert_keeps_all(h6, "user-agent"@, CODEX_USER_AGENT@, q1);
    lemma_insert_keeps_all(h7, "originator"@, CODEX_ORIGINATOR@, q1);
    lemma_insert_keeps_all(h8, "session_id"@, session_id, q1);
    if strip_affinity {
        lemma_without_keeps_all(h9, "conversation_id"@, q1);
    }
    lemma_insert_opt_keeps_all(u, "conversation_id"@, conversation_id, q1);
    lemma_insert_opt_keeps_all(h10, "chatgpt-account-id"@, account_id, q1);
    lemma_insert_opt_keeps_all(h11, "cookie"@, cookie, q1);

    // The bearer entry survives every later write.
    let e = (auth, bearer);
    assert(h1[h1.len() - 1] == e);
    assert(h1.contains(e));
    lemma_insert_keeps_entry(h1, "content-type"@, ct, e);
    lemma_insert_keeps_entry(h2, "accept"@, Some(accept), e);
    lemma_insert_keeps_entry(h3, "connection"@, Some("Keep-Alive"@), e);
    lemma_insert_keeps_entry(h4, "version"@, Some(CODEX_CLIENT_VERSION@), e);
    lemma_insert_keeps_entry(h5, "openai-beta"@, Some(CODEX_OPENAI_BETA@), e);
    lemma_insert_keeps_entry(h6, "user-agent"@, Some(CODEX_USER_AGENT@), e);
    lemma_insert_keeps_entry(h7, "originator"@, Some(CODEX_ORIGINATOR@), e);
    lemma_insert_keeps_entry(h8, "session_id"@, Some(session_id), e);
    if strip_affinity {
        lemma_without_contains(h9, "conversation_id"@, e);
    }
    lemma_insert_keeps_entry(u, "conversation_id"@, conversation_id, e);
    lemma_insert_keeps_entry(h10, "chatgpt-account-id"@, account_id, e);
    lemma_insert_keeps_entry(h11, "cookie"@, cookie, e);

    // Exactly one `authorization` entry.
    lemma_count_insert(h0, auth, Some(bearer), auth);
    lemma_count_insert(h1, "content-type"@, ct, auth);
    lemma_count_insert(h2, "accept"@, Some(accept), auth);
    lemma_count_insert(h3, "connection"@, Some("Keep-Alive"@), auth);
    lemma_count_insert(h4, "version"@, Some(CODEX_CLIENT_VERSION@), auth);
    lemma_count_insert(h5, "openai-beta"@, Some(CODEX_OPENAI_BETA@), auth);
    lemma_count_insert(h6, "user-agent"@, Some(CODEX_USER_AGENT@), auth);
    lemma_count_insert(h7, "originator"@, Some(CODEX_ORIGINATOR@), auth);
    lemma_count_insert(h8, "session_id"@, Some(session_id), auth);
    lemma_count_without(h9, "conversation_id"@, auth);
    lemma_count_insert(u, "conversation_id"@, conversation_id, auth);
    lemma_count_insert(h10, "chatgpt-account-id"@, account_id, auth);
    lemma_count_insert(h11, "cookie"@, cookie, auth);

    // The client's `x-api-key` and `cookie` are dropped before the rewrite.
    let k0 = without(base, "x-api-key"@);
    lemma_count_without(base, "x-api-key"@, "x-api-key"@);
    lemma_count_without(k0, "cookie"@, "x-api-key"@);
    lemma_count_without(k0, "cookie"@, "cookie"@);
    lemma_without_drops(k0, "cookie"@);
    lemma_rewrite_keeps_count(
        base,
        token,
        account_id,
        has_body,
        is_stream,
        strip_affinity,
        conversation_id,
        cookie,
        session_id,
        "x-api-key"@,
    );
    lemma_rewrite_keeps_count(
        base,
        token,
        account_id,
        has_body,
        is_stream,
        strip_affinity,
        conversation_id,
        cookie,
        session_id,
        "cookie"@,
    );
    lemma_count_insert(h0, "cookie"@, cookie, "x-api-key"@);
    lemma_count_insert(h0, "cookie"@, cookie, "cookie"@);

    // A `cookie` entry is the configured one.
    let q3 = |p: (Seq<char>, Seq<char>)| p.0 == "cookie"@ ==> cookie == Some(p.1);
    let q3n = |p: (Seq<char>, Seq<char>)| p.0 != "cookie"@;
    assert forall|i: int| 0 <= i < h0.len() implies q3n(#[trigger] h0[i]) by {}
    lemma_insert_keeps_all(h0, auth, bearer, q3n);
    lemma_insert_opt_keeps_all(h1, "content-type"@, ct, q3n);
    lemma_insert_keeps_all(h2, "accept"@, accept, q3n);
    lemma_insert_keeps_all(h3, "connection"@, "Keep-Alive"@, q3n);
    lemma_insert_keeps_all(h4, "version"@, CODEX_CLIENT_VERSION@, q3n);
    lemma_insert_keeps_all(h5, "openai-beta"@, CODEX_OPENAI_BETA@, q3n);
    lemma_insert_keeps_all(h6, "user-agent"@, CODEX_USER_AGENT@, q3n);
    lemma_insert_keeps_all(h7, "originator"@, CODEX_ORIGINATOR@, q3n);
    lemma_insert_keeps_all(h8, "session_id"@, session_id, q3n);
    if strip_affinity {
        lemma_without_keeps_all(h9, "conversation_id"@, q3n);
    }
    lemma_insert_opt_keeps_all(u, "conversation_id"@, conversation_id, q3n);
    lemma_insert_opt_keeps_all(h10, "chatgpt-account-id"@, account_id, q3n);
    assert forall|i: int| 0 <= i < h11.len() implies q3(#[trigger] h11[i]) by {
        assert(q3n(h11[i]));
    }
    lemma_insert_opt_keeps_all(h11, "cookie"@, cookie, q3);

    // Whatever the gateway did not write passed the forwarding filter.
    let q2 = |p: (Seq<char>, Seq<char>)| gateway_header_name(p.0) || !request_header_skipped(lower_of(p.0));
    assert forall|i: int| 0 <= i < base.len() implies q2(#[trigger] base[i]) by {}
    lemma_without_keeps_all(base, "x-api-key"@, q2);
    lemma_without_keeps_all(k0, "cookie"@, q2);
    lemma_insert_keeps_all(h0, auth, bearer, q2);
    lemma_insert_opt_keeps_all(h1, "content-type"@, ct, q2);
    lemma_insert_keeps_all(h2, "accept"@, accept, q2);
    lemma_insert_keeps_all(h3, "connection"@, "Keep-Alive"@, q2);
    lemma_insert_keeps_all(h4, "version"@, CODEX_CLIENT_VERSION@, q2);
    lemma_insert_keeps_all(h5, "openai-beta"@, CODEX_OPENAI_BETA@, q2);
    lemma_insert_keeps_all(h6, "user-agent"@, CODEX_USER_AGENT@, q2);
    lemma_insert_keeps_all(h7, "originator"@, CODEX_ORIGINATOR@, q2);
    lemma_insert_keeps_all(h8, "session_id"@, session_id, q2);
    if strip_affinity {
        lemma_without_keeps_all(h9, "conversation_id"@, q2);
    }
    lemma_insert_opt_keeps_all(u, "conversation_id"@, conversation_id, q2);
    lemma_insert_opt_keeps_all(h10, "chatgpt-account-id"@, account_id, q2);
    lemma_insert_opt_keeps_all(h11, "cookie"@, cookie, q2);
}

} // verus!
