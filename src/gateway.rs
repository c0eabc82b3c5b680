//! The decisions taken for one proxied request, between the I/O steps that
//! the server performs: what is answered without going upstream, how the
//! upstream status changes the chosen account's health, and which headers
//! go back to the client.

use vstd::prelude::*;
use vstd::string::*;
use crate::config::{api_key_accepted, declared_too_large, proxy_api_key_valid, content_length_too_large, ProxyConfig};
use crate::headers::{header_lookup, hview, response_header_skipped, skip_response_header};
use crate::pool::{cooldown_deadline, with_health, AccountHealth, AccountPool, AccountView, PoolState, SelectError};
use crate::credentials::{refreshed_credential_ok, StoredCredential, TokenResponse};
use crate::headers::{forwarded, lemma_client_auth_stripped, rewritten};
use crate::text::{lower_of, str_eq};

verus! {

/// Seconds a client is told to wait when every account rests.
pub const RETRY_AFTER_SECS: u64 = 60;

/// A request answered by the gateway itself.
#[derive(Clone, Copy, Debug, PartialEq, Eq, Structural)]
pub enum Rejection {
    /// A CORS preflight (`OPTIONS`): 204.
    Preflight,
    /// The body is over the limit: 413.
    BodyTooLarge,
    /// The gateway key is missing or wrong: 401.
    Unauthenticated,
    /// The pool has no entry: 503.
    PoolEmpty,
    /// Every entry is cooling down or blocked: 429.
    PoolExhausted,
}

/// An answer produced without an upstream response.
#[derive(Debug)]
pub struct GatewayReply {
    pub status: u16,
    pub headers: Vec<(String, String)>,
    pub body: String,
}

/// The status of each rejection.
pub open spec fn rejection_status(r: Rejection) -> u16 {
    match r {
        Rejection::Preflight => 204,
        Rejection::BodyTooLarge => 413,
        Rejection::Unauthenticated => 401,
        Rejection::PoolEmpty => 503,
        Rejection::PoolExhausted => 429,
    }
}

/// The headers of each rejection.
pub open spec fn rejection_headers(r: Rejection) -> Seq<(Seq<char>, Seq<char>)> {
    match r {
        Rejection::Preflight => seq![
            ("access-control-allow-origin"@, "*"@),
            ("access-control-allow-methods"@, "GET, POST, PUT, DELETE, PATCH, OPTIONS"@),
            ("access-control-allow-headers"@, "*"@),
            ("access-control-max-age"@, "86400"@),
        ],
        Rejection::PoolExhausted => seq![
            ("access-control-allow-origin"@, "*"@),
            ("retry-after"@, "60"@),
        ],
        _ => seq![("access-control-allow-origin"@, "*"@)],
    }
}

/// The body of each rejection.
pub open spec fn rejection_body(r: Rejection) -> Seq<char> {
    match r {
        Rejection::Preflight => Seq::empty(),
        Rejection::BodyTooLarge => "Request body too large"@,
        Rejection::Unauthenticated => "Unauthorized"@,
        Rejection::PoolEmpty => "No accounts in pool"@,
        Rejection::PoolExhausted => "All accounts are rate-limited or blocked"@,
    }
}

fn pair(name: &str, value: &str) -> (r: (String, String))
    ensures
        r.0@ == name@,
        r.1@ == value@,
{
    (name.to_owned(), value.to_owned())
}

/// The answer for a rejection.
pub fn reply_for(r: Rejection) -> (out: GatewayReply)
    ensures
        out.status == rejection_status(r),
        hview(out.headers@) == rejection_headers(r),
        out.body@ == rejection_body(r),
{
    let mut headers: Vec<(String, String)> = Vec::new();
    headers.push(pair("access-control-allow-origin", "*"));
    let body = match r {
        Rejection::Preflight => {
            headers.push(pair("access-control-allow-methods", "GET, POST, PUT, DELETE, PATCH, OPTIONS"));
            headers.push(pair("access-control-allow-headers", "*"));
            headers.push(pair("access-control-max-age", "86400"));
            String::new()
        },
        Rejection::BodyTooLarge => "Request body too large".to_owned(),
        Rejection::Unauthenticated => "Unauthorized".to_owned(),
        Rejection::PoolEmpty => "No accounts in pool".to_owned(),
        Rejection::PoolExhausted => {
            headers.push(pair("retry-after", "60"));
            "All accounts are rate-limited or blocked".to_owned()
        },
    };
    let status: u16 = match r {
        Rejection::Preflight => 204,
        Rejection::BodyTooLarge => 413,
        Rejection::Unauthenticated => 401,
        Rejection::PoolEmpty => 503,
        Rejection::PoolExhausted => 429,
    };
    assert(hview(headers@) =~= rejection_headers(r));
    GatewayReply { status, headers, body }
}

/// What is answered before the body is read: a preflight for `OPTIONS`,
/// then 413 for a declared length over the limit.
pub open spec fn early_verdict(method: Seq<char>, headers: Seq<(Seq<char>, Seq<char>)>, max_body: nat) -> Option<Rejection> {
    if method == "OPTIONS"@ {
        Some(Rejection::Preflight)
    } else if declared_too_large(header_lookup(headers, "content-length"@), max_body) {
        Some(Rejection::BodyTooLarge)
    } else {
        None
    }
}

/// The answer owed before any body is read or any account chosen, if any.
/// A request whose declared length exceeds the limit never goes upstream.
pub fn early_rejection(method: &str, headers: &Vec<(String, String)>, max_body_bytes: usize) -> (r: Option<Rejection>)
    ensures
        r == early_verdict(method@, hview(headers@), max_body_bytes as nat),
        method@ != "OPTIONS"@ && declared_too_large(
            header_lookup(hview(headers@), "content-length"@),
            max_body_bytes as nat,
        ) ==> r == Some(Rejection::BodyTooLarge),
{
    if str_eq(method, "OPTIONS") {
        Some(Rejection::Preflight)
    } else if content_length_too_large(headers, max_body_bytes) {
        Some(Rejection::BodyTooLarge)
    } else {
        None
    }
}

/// The answer owed when the gateway key check fails.
pub fn auth_rejection(headers: &Vec<(String, String)>, config: &ProxyConfig) -> (r: Option<Rejection>)
    ensures
        api_key_accepted(config@.api_key, hview(headers@)) ==> r is None,
        !api_key_accepted(config@.api_key, hview(headers@)) ==> r == Some(Rejection::Unauthenticated),
{
    if proxy_api_key_valid(headers, config) {
        None
    } else {
        Some(Rejection::Unauthenticated)
    }
}

/// The answer owed when no account could be selected.
pub fn selection_rejection(e: SelectError) -> (r: Rejection)
    ensures
        e == SelectError::PoolEmpty ==> r == Rejection::PoolEmpty,
        e == SelectError::PoolExhausted ==> r == Rejection::PoolExhausted,
{
    match e {
        SelectError::PoolEmpty => Rejection::PoolEmpty,
        SelectError::PoolExhausted => Rejection::PoolExhausted,
    }
}

/// What follows an upstream answer.
#[derive(Clone, Copy, Debug, PartialEq, Eq, Structural)]
pub enum UpstreamVerdict {
    /// Refresh the account's token and retry once.
    Refresh,
    /// Relay the answer to the client.
    Relay,
}

/// `s` with the health of entry `index` set to `h`; out of range keeps `s`.
pub open spec fn health_set(s: PoolState, index: nat, h: AccountHealth) -> PoolState {
    if index < s.entries.len() {
        PoolState {
            entries: s.entries.update(index as int, with_health(s.entries[index as int], h)),
            cursor: s.cursor,
        }
    } else {
        s
    }
}

/// How an upstream status changes the pool: 401 without a refresh token
/// and 403 block the account, 429 starts a cooldown, others change nothing.
/// A 401 with a refresh token leaves the pool as it is until the refresh.
pub open spec fn after_status(s: PoolState, index: nat, status: u16, has_refresh_token: bool, now: u64) -> PoolState {
    if (status == 401 && !has_refresh_token) || status == 403 {
        health_set(s, index, AccountHealth::Blocked)
    } else if status == 429 {
        health_set(s, index, AccountHealth::Cooldown(cooldown_deadline(now)))
    } else {
        s
    }
}

/// Reacts to the upstream status `status` for the account at `index`.
pub fn on_upstream_status(
    pool: &mut AccountPool,
    index: usize,
    status: u16,
    has_refresh_token: bool,
    now: u64,
) -> (r: UpstreamVerdict)
    ensures
        r == (if status == 401 && has_refresh_token {
            UpstreamVerdict::Refresh
        } else {
            UpstreamVerdict::Relay
        }),
        final(pool)@ == after_status(old(pool)@, index as nat, status, has_refresh_token, now),
{
    if status == 401 {
        if has_refresh_token {
            return UpstreamVerdict::Refresh;
        }
        pool.mark_blocked(index);
    } else if status == 403 {
        pool.mark_blocked(index);
    } else if status == 429 {
        pool.mark_cooldown(index, now);
    }
    UpstreamVerdict::Relay
}

/// `s` with entry `index` holding `token` and active again.
pub open spec fn token_set(s: PoolState, index: nat, token: Seq<char>) -> PoolState {
    if index < s.entries.len() {
        PoolState {
            entries: s.entries.update(
                index as int,
                AccountView {
                    access_token: token,
                    health: AccountHealth::Active,
                    ..s.entries[index as int]
                },
            ),
            cursor: s.cursor,
        }
    } else {
        s
    }
}

/// Takes the result of a token refresh for the account at `index`: a new
/// token is installed and the request is retried; without one the account
/// is blocked and the first answer is relayed.
pub fn on_refresh_result(pool: &mut AccountPool, index: usize, new_token: Option<String>) -> (retry: bool)
    ensures
        retry == new_token is Some,
        new_token matches Some(t) ==> final(pool)@ == token_set(old(pool)@, index as nat, t@),
        new_token is None ==> final(pool)@ == health_set(old(pool)@, index as nat, AccountHealth::Blocked),
{
    match new_token {
        Some(t) => {
            pool.update_token(index, t);
            true
        },
        None => {
            pool.mark_blocked(index);
            false
        },
    }
}

/// Reacts to the status of the retried request: no second refresh is tried,
/// so a 401 blocks the account like a 403, and a 429 starts a cooldown.
pub fn on_retry_status(pool: &mut AccountPool, index: usize, status: u16, now: u64)
    ensures
        final(pool)@ == after_status(old(pool)@, index as nat, status, false, now),
{
    on_upstream_status(pool, index, status, false, now);
}

/// The retried request could not be sent: the account is blocked.
pub fn on_retry_failed(pool: &mut AccountPool, index: usize)
    ensures
        final(pool)@ == health_set(old(pool)@, index as nat, AccountHealth::Blocked),
{
    pool.mark_blocked(index);
}

/// The upstream response headers relayed to the client: hop-by-hop names
/// dropped, then the permissive CORS headers added.
pub open spec fn relayed_headers(h: Seq<(Seq<char>, Seq<char>)>) -> Seq<(Seq<char>, Seq<char>)> {
    h.filter(|p: (Seq<char>, Seq<char>)| !response_header_skipped(lower_of(p.0))) + seq![
        ("access-control-allow-origin"@, "*"@),
        ("access-control-allow-headers"@, "*"@),
    ]
}

/// The headers of the answer relayed to the client.
pub fn relay_headers(upstream: &Vec<(String, String)>) -> (r: Vec<(String, String)>)
    ensures
        hview(r@) == relayed_headers(hview(upstream@)),
{
    let n = upstream.len();
    let mut out: Vec<(String, String)> = Vec::new();
    let mut i: usize = 0;
    while i < n
        invariant
            n == upstream@.len(),
            i <= n,
            hview(out@) == hview(upstream@).subrange(0, i as int).filter(
                |p: (Seq<char>, Seq<char>)| !response_header_skipped(lower_of(p.0)),
            ),
        decreases n - i,
    {
        let ghost after = hview(upstream@).subrange(0, i + 1);
        proof {
            reveal(Seq::filter);
        }
        assert(after.drop_last() =~= hview(upstream@).subrange(0, i as int));
        assert(after.last() == (upstream@[i as int].0@, upstream@[i as int].1@));
        if !skip_response_header(upstream[i].0.as_str()) {
            out.push((upstream[i].0.clone(), upstream[i].1.clone()));
        }
        assert(hview(out@) =~= after.filter(
            |p: (Seq<char>, Seq<char>)| !response_header_skipped(lower_of(p.0)),
        ));
        i = i + 1;
    }
    assert(hview(upstream@).subrange(0, n as int) =~= hview(upstream@));
    out.push(pair("access-control-allow-origin", "*"));
    out.push(pair("access-control-allow-headers", "*"));
    assert(hview(out@) =~= relayed_headers(hview(upstream@)));
    out
}

/// Refresh then retry: once the token endpoint hands back an access token
/// for the account at `index`, the pool entry holds that token and is
/// active again, the credential file written for the account holds it, and
/// every `authorization` header of the retried request carries it as the
/// bearer, one such header being present.
pub proof fn lemma_refresh_then_retry(
    s: PoolState,
    index: nat,
    resp: TokenResponse,
    used_refresh: Seq<char>,
    stored_account_id: Option<Seq<char>>,
    local_id: Seq<char>,
    now: Seq<char>,
    written: Option<StoredCredential>,
    incoming: Seq<(Seq<char>, Seq<char>)>,
    account_id: Option<Seq<char>>,
    has_body: bool,
    is_stream: bool,
    strip_affinity: bool,
    conversation_id: Option<Seq<char>>,
    cookie: Option<Seq<char>>,
    session_id: Seq<char>,
)
    requires
        index < s.entries.len(),
        resp.access_token is Some,
        refreshed_credential_ok(resp, used_refresh, stored_account_id, local_id, now, written),
    ensures
        ({
            let t = resp.access_token->Some_0@;
            let up = rewritten(
                forwarded(incoming),
                t,
                account_id,
                has_body,
                is_stream,
                strip_affinity,
                conversation_id,
                cookie,
                session_id,
            );
            &&& token_set(s, index, t).entries[index as int].access_token == t
            &&& token_set(s, index, t).entries[index as int].health == AccountHealth::Active
            &&& written matches Some(c) && c.access_token@ == t
            &&& forall|i: int|
                0 <= i < up.len() && (#[trigger] up[i]).0 == "authorization"@ ==> up[i].1
                    == "Bearer "@ + t
            &&& up.contains(("authorization"@, "Bearer "@ + t))
            &&& crate::headers::count_named(up, "authorization"@) == 1
        }),
{
    let t = resp.access_token->Some_0@;
    lemma_client_auth_stripped(
        incoming,
        t,
        account_id,
        has_body,
        is_stream,
        strip_affinity,
        conversation_id,
        cookie,
        session_id,
    );
}

/// Where one request stands.
#[derive(Clone, Copy, Debug, PartialEq, Eq, Structural)]
pub enum Stage {
    /// Nothing done yet.
    Start,
    /// The body is being read.
    AwaitBody,
    /// The gateway key is being checked.
    AwaitAuth,
    /// An account is being chosen.
    AwaitSelection,
    /// The request is with the upstream.
    AwaitUpstream,
    /// The account's token is being refreshed.
    AwaitRefresh,
    /// The retried request is with the upstream.
    AwaitRetry,
    /// An answer has gone to the client.
    Finished,
}

/// The outcome of the last step the server performed.
#[derive(Clone, Copy, Debug, PartialEq, Eq, Structural)]
pub enum RequestEvent {
    /// The request arrived; what `early_rejection` found.
    Arrived { early: Option<Rejection> },
    /// The body was read, or it was over the limit.
    BodyRead { within_limit: bool },
    /// The gateway key check passed or failed.
    AuthChecked { passed: bool },
    /// An account was chosen, or selection failed.
    Selected { failure: Option<SelectError> },
    /// The upstream answered; what `on_upstream_status` decided.
    Answered { verdict: UpstreamVerdict },
    /// The upstream could not be reached.
    Unreachable,
    /// The token refresh ended; what `on_refresh_result` decided.
    Refreshed { retry: bool },
}

/// What the server does next.
#[derive(Clone, Copy, Debug, PartialEq, Eq, Structural)]
pub enum RequestAction {
    /// Answer with the gateway's own reply.
    Reply(Rejection),
    ReadBody,
    CheckAuth,
    SelectAccount,
    SendUpstream,
    RefreshToken,
    SendRetry,
    /// Relay the first upstream answer.
    RelayFirst,
    /// Relay the retried request's answer.
    RelayRetry,
    /// Answer 502: the upstream could not be reached.
    BadGateway,
    /// The event does not fit the stage; nothing to do.
    Ignore,
}

/// The order of a request's steps: rejections come before any upstream
/// call, a 401 with a refresh token leads to one refresh and one retry.
pub open spec fn step(stage: Stage, event: RequestEvent) -> (Stage, RequestAction) {
    match (stage, event) {
        (Stage::Start, RequestEvent::Arrived { early }) => match early {
            Some(r) => (Stage::Finished, RequestAction::Reply(r)),
            None => (Stage::AwaitBody, RequestAction::ReadBody),
        },
        (Stage::AwaitBody, RequestEvent::BodyRead { within_limit }) => if within_limit {
            (Stage::AwaitAuth, RequestAction::CheckAuth)
        } else {
            (Stage::Finished, RequestAction::Reply(Rejection::BodyTooLarge))
        },
        (Stage::AwaitAuth, RequestEvent::AuthChecked { passed }) => if passed {
            (Stage::AwaitSelection, RequestAction::SelectAccount)
        } else {
            (Stage::Finished, RequestAction::Reply(Rejection::Unauthenticated))
        },
        (Stage::AwaitSelection, RequestEvent::Selected { failure }) => match failure {
            Some(SelectError::PoolEmpty) => (Stage::Finished, RequestAction::Reply(Rejection::PoolEmpty)),
            Some(SelectError::PoolExhausted) => (
                Stage::Finished,
                RequestAction::Reply(Rejection::PoolExhausted),
            ),
            None => (Stage::AwaitUpstream, RequestAction::SendUpstream),
        },
        (Stage::AwaitUpstream, RequestEvent::Answered { verdict }) => match verdict {
            UpstreamVerdict::Refresh => (Stage::AwaitRefresh, RequestAction::RefreshToken),
            UpstreamVerdict::Relay => (Stage::Finished, RequestAction::RelayFirst),
        },
        (Stage::AwaitUpstream, RequestEvent::Unreachable) => (Stage::Finished, RequestAction::BadGateway),
        (Stage::AwaitRefresh, RequestEvent::Refreshed { retry }) => if retry {
            (Stage::AwaitRetry, RequestAction::SendRetry)
        } else {
            (Stage::Finished, RequestAction::RelayFirst)
        },
        (Stage::AwaitRetry, RequestEvent::Answered { verdict: _ }) => (Stage::Finished, RequestAction::RelayRetry),
        (Stage::AwaitRetry, RequestEvent::Unreachable) => (Stage::Finished, RequestAction::RelayFirst),
        _ => (stage, RequestAction::Ignore),
    }
}

/// The next stage and action of a request at `stage` after `event`.
pub fn next_step(stage: Stage, event: RequestEvent) -> (r: (Stage, RequestAction))
    ensures
        r == step(stage, event),
{
    match (stage, event) {
        (Stage::Start, RequestEvent::Arrived { early }) => match early {
            Some(r) => (Stage::Finished, RequestAction::Reply(r)),
            None => (Stage::AwaitBody, RequestAction::ReadBody),
        },
        (Stage::AwaitBody, RequestEvent::BodyRead { within_limit }) => if within_limit {
            (Stage::AwaitAuth, RequestAction::CheckAuth)
        } else {
            (Stage::Finished, RequestAction::Reply(Rejection::BodyTooLarge))
        },
        (Stage::AwaitAuth, RequestEvent::AuthChecked { passed }) => if passed {
            (Stage::AwaitSelection, RequestAction::SelectAccount)
        } else {
            (Stage::Finished, RequestAction::Reply(Rejection::Unauthenticated))
        },
        (Stage::AwaitSelection, RequestEvent::Selected { failure }) => match failure {
            Some(e) => (Stage::Finished, RequestAction::Reply(selection_rejection(e))),
            None => (Stage::AwaitUpstream, RequestAction::SendUpstream),
        },
        (Stage::AwaitUpstream, RequestEvent::Answered { verdict }) => match verdict {
            UpstreamVerdict::Refresh => (Stage::AwaitRefresh, RequestAction::RefreshToken),
            UpstreamVerdict::Relay => (Stage::Finished, RequestAction::RelayFirst),
        },
        (Stage::AwaitUpstream, RequestEvent::Unreachable) => (Stage::Finished, RequestAction::BadGateway),
        (Stage::AwaitRefresh, RequestEvent::Refreshed { retry }) => if retry {
            (Stage::AwaitRetry, RequestAction::SendRetry)
        } else {
            (Stage::Finished, RequestAction::RelayFirst)
        },
        (Stage::AwaitRetry, RequestEvent::Answered { verdict: _ }) => (Stage::Finished, RequestAction::RelayRetry),
        (Stage::AwaitRetry, RequestEvent::Unreachable) => (Stage::Finished, RequestAction::RelayFirst),
        _ => (stage, RequestAction::Ignore),
    }
}

/// How far along a stage is.
pub open spec fn rank(s: Stage) -> nat {
    match s {
        Stage::Start => 0,
        Stage::AwaitBody => 1,
        Stage::AwaitAuth => 2,
        Stage::AwaitSelection => 3,
        Stage::AwaitUpstream => 4,
        Stage::AwaitRefresh => 5,
        Stage::AwaitRetry => 6,
        Stage::Finished => 7,
    }
}

/// The actions taken for a run of events from `stage` on.
pub open spec fn actions_of(stage: Stage, events: Seq<RequestEvent>) -> Seq<RequestAction>
    decreases events.len(),
{
    if events.len() == 0 {
        Seq::empty()
    } else {
        let (next, a) = step(stage, events[0]);
        seq![a] + actions_of(next, events.drop_first())
    }
}

/// How many of `acts` send the request upstream.
pub open spec fn count_sends(acts: Seq<RequestAction>) -> nat
    decreases acts.len(),
{
    if acts.len() == 0 {
        0
    } else {
        (if acts[0] == RequestAction::SendUpstream {
            1nat
        } else {
            0nat
        }) + count_sends(acts.drop_first())
    }
}

/// How many of `acts` refresh a token.
pub open spec fn count_refreshes(acts: Seq<RequestAction>) -> nat
    decreases acts.len(),
{
    if acts.len() == 0 {
        0
    } else {
        (if acts[0] == RequestAction::RefreshToken {
            1nat
        } else {
            0nat
        }) + count_refreshes(acts.drop_first())
    }
}

/// How many of `acts` send the retry.
pub open spec fn count_retries(acts: Seq<RequestAction>) -> nat
    decreases acts.len(),
{
    if acts.len() == 0 {
        0
    } else {
        (if acts[0] == RequestAction::SendRetry {
            1nat
        } else {
            0nat
        }) + count_retries(acts.drop_first())
    }
}

/// How many of `acts` are replies of the gateway's own.
pub open spec fn count_replies(acts: Seq<RequestAction>) -> nat
    decreases acts.len(),
{
    if acts.len() == 0 {
        0
    } else {
        (if acts[0] is Reply {
            1nat
        } else {
            0nat
        }) + count_replies(acts.drop_first())
    }
}

proof fn lemma_step_forward(stage: Stage, event: RequestEvent)
    ensures
        rank(step(stage, event).0) >= rank(stage),
        step(stage, event).1 == RequestAction::SendUpstream ==> stage == Stage::AwaitSelection
            && step(stage, event).0 == Stage::AwaitUpstream,
        step(stage, event).1 == RequestAction::RefreshToken ==> stage == Stage::AwaitUpstream
            && step(stage, event).0 == Stage::AwaitRefresh,
        step(stage, event).1 == RequestAction::SendRetry ==> stage == Stage::AwaitRefresh
            && step(stage, event).0 == Stage::AwaitRetry,
        step(stage, event).1 is Reply ==> rank(stage) <= 3 && step(stage, event).0
            == Stage::Finished,
        stage == Stage::Finished ==> step(stage, event) == (Stage::Finished, RequestAction::Ignore),
{
}

proof fn lemma_run_counts(stage: Stage, events: Seq<RequestEvent>)
    ensures
        ({
            let acts = actions_of(stage, events);
            &&& count_sends(acts) <= (if rank(stage) <= 3 {
                1nat
            } else {
                0nat
            })
            &&& count_refreshes(acts) <= (if rank(stage) <= 4 {
                1nat
            } else {
                0nat
            })
            &&& count_retries(acts) <= (if rank(stage) <= 5 {
                1nat
            } else {
                0nat
            })
            &&& count_replies(acts) <= (if rank(stage) <= 3 {
                1nat
            } else {
                0nat
            })
            &&& (count_replies(acts) > 0 ==> count_sends(acts) == 0)
        }),
    decreases events.len(),
{
    if events.len() > 0 {
        let (next, a) = step(stage, events[0]);
        let rest = events.drop_first();
        lemma_step_forward(stage, events[0]);
        lemma_run_counts(next, rest);
        let acts = actions_of(stage, events);
        assert(acts.drop_first() =~= actions_of(next, rest));
        assert(acts[0] == a);
    }
}

/// The order of a request's steps, whatever the server reports back: the
/// request goes upstream at most once, its token is refreshed at most once
/// and it is retried at most once; and a request the gateway answers itself
/// (preflight, 413, 401, 503, 429) never goes upstream.
pub proof fn lemma_request_order(events: Seq<RequestEvent>)
    ensures
        count_sends(actions_of(Stage::Start, events)) <= 1,
        count_refreshes(actions_of(Stage::Start, events)) <= 1,
        count_retries(actions_of(Stage::Start, events)) <= 1,
        count_replies(actions_of(Stage::Start, events)) > 0 ==> count_sends(
            actions_of(Stage::Start, events),
        ) == 0,
{
    lemma_run_counts(Stage::Start, events);
}

} // verus!
