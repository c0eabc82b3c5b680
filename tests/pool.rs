use codex_manager::credentials::{refreshed_credential, TokenResponse};
use codex_manager::gateway::{
    on_refresh_result, on_retry_failed, on_retry_status, on_upstream_status, reply_for, selection_rejection,
    Rejection, UpstreamVerdict,
};
use codex_manager::gateway::{next_step, RequestAction, RequestEvent, Stage};
use codex_manager::headers::{apply_upstream_headers, forward_request_headers};
use codex_manager::pool::{
    cooldown_until, AccountHealth, AccountPool, ProxyAccount, SelectError, COOLDOWN_MS,
};

fn account(id: &str, refresh: Option<&str>) -> ProxyAccount {
    ProxyAccount {
        id: id.to_string(),
        account_id: Some(format!("acct-{id}")),
        access_token: format!("token-{id}"),
        refresh_token: refresh.map(|r| r.to_string()),
        health: AccountHealth::Active,
    }
}

fn pool_of(ids: &[&str]) -> AccountPool {
    AccountPool::new(ids.iter().map(|id| account(id, None)).collect())
}

fn chosen_id(pool: &mut AccountPool, now: u64) -> String {
    pool.select(now).expect("an active account").id
}

#[test]
fn round_robin_happy_path() {
    let mut pool = pool_of(&["A", "B", "C"]);
    let ids: Vec<String> = (0..6).map(|_| chosen_id(&mut pool, 0)).collect();
    assert_eq!(ids, vec!["A", "B", "C", "A", "B", "C"]);
}

#[test]
fn round_robin_counts_are_fair() {
    let mut pool = pool_of(&["A", "B", "C"]);
    let mut counts = [0usize; 3];
    for _ in 0..10 {
        let sel = pool.select(0).unwrap();
        counts[sel.index] += 1;
    }
    assert_eq!(counts, [4, 3, 3]);
    for _ in 0..290 {
        let sel = pool.select(0).unwrap();
        counts[sel.index] += 1;
    }
    assert_eq!(counts, [100, 100, 100]);
}

#[test]
fn selection_copies_the_entry() {
    let mut pool = AccountPool::new(vec![account("A", Some("rt-A"))]);
    let sel = pool.select(5).unwrap();
    assert_eq!(sel.index, 0);
    assert_eq!(sel.id, "A");
    assert_eq!(sel.account_id.as_deref(), Some("acct-A"));
    assert_eq!(sel.access_token, "token-A");
    assert_eq!(sel.refresh_token.as_deref(), Some("rt-A"));
}

#[test]
fn empty_pool_is_rejected_with_503() {
    let mut pool = AccountPool::new(Vec::new());
    let err = pool.select(0).unwrap_err();
    assert_eq!(err, SelectError::PoolEmpty);
    let reply = reply_for(selection_rejection(err));
    assert_eq!(reply.status, 503);
    assert_eq!(reply.body, "No accounts in pool");
}

#[test]
fn cooldown_after_429() {
    let mut pool = pool_of(&["A", "B"]);
    let first = pool.select(0).unwrap();
    assert_eq!(first.id, "A");
    let verdict = on_upstream_status(&mut pool, first.index, 429, false, 0);
    assert_eq!(verdict, UpstreamVerdict::Relay);
    assert_eq!(pool.entry(0).unwrap().health, AccountHealth::Cooldown(COOLDOWN_MS));
    assert_eq!(chosen_id(&mut pool, 1_000), "B");
    // 61 s later the cursor points at A again and A is eligible.
    assert_eq!(chosen_id(&mut pool, 61_000), "A");
    assert_eq!(pool.entry(0).unwrap().health, AccountHealth::Active);
}

#[test]
fn cooldown_recovers_at_its_deadline() {
    let mut pool = pool_of(&["A"]);
    pool.mark_cooldown(0, 1_000);
    let until = cooldown_until(1_000);
    assert_eq!(until, 61_000);
    assert_eq!(pool.select(until - 1).unwrap_err(), SelectError::PoolExhausted);
    assert_eq!(chosen_id(&mut pool, until), "A");
    assert_eq!(cooldown_until(u64::MAX - 5), u64::MAX);
}

#[test]
fn skips_unhealthy_entries() {
    let mut pool = pool_of(&["A", "B", "C"]);
    pool.mark_blocked(1);
    let ids: Vec<String> = (0..4).map(|_| chosen_id(&mut pool, 0)).collect();
    assert_eq!(ids, vec!["A", "C", "C", "A"]);
}

#[test]
fn forbidden_blocks_and_other_statuses_keep_health() {
    let mut pool = pool_of(&["A", "B"]);
    assert_eq!(on_upstream_status(&mut pool, 0, 500, false, 0), UpstreamVerdict::Relay);
    assert_eq!(pool.entry(0).unwrap().health, AccountHealth::Active);
    assert_eq!(on_upstream_status(&mut pool, 0, 403, true, 0), UpstreamVerdict::Relay);
    assert_eq!(pool.entry(0).unwrap().health, AccountHealth::Blocked);
    assert_eq!(on_upstream_status(&mut pool, 1, 401, false, 0), UpstreamVerdict::Relay);
    assert_eq!(pool.entry(1).unwrap().health, AccountHealth::Blocked);
    assert_eq!(pool.select(0).unwrap_err(), SelectError::PoolExhausted);
}

#[test]
fn out_of_range_marks_are_ignored() {
    let mut pool = pool_of(&["A"]);
    pool.mark_blocked(3);
    pool.mark_cooldown(3, 0);
    pool.update_token(3, "x".to_string());
    assert_eq!(pool.entry(0).unwrap().health, AccountHealth::Active);
    assert!(pool.entry(3).is_none());
}

#[test]
fn reload_keeps_the_cursor() {
    let mut pool = pool_of(&["A", "B"]);
    assert_eq!(chosen_id(&mut pool, 0), "A");
    pool.replace_all(vec![account("X", None), account("Y", None), account("Z", None)]);
    assert_eq!(pool.len(), 3);
    assert_eq!(chosen_id(&mut pool, 0), "Y");
}

#[test]
fn refresh_success_retries_with_the_new_token() {
    let mut pool = AccountPool::new(vec![account("A", Some("old-rt"))]);
    let sel = pool.select(0).unwrap();
    let verdict = on_upstream_status(&mut pool, sel.index, 401, sel.refresh_token.is_some(), 0);
    assert_eq!(verdict, UpstreamVerdict::Refresh);
    let resp = TokenResponse {
        access_token: Some("new".to_string()),
        refresh_token: Some("rot".to_string()),
        id_token: None,
    };
    let written = refreshed_credential(&resp, "old-rt", Some("acct-A"), "A", "2024-01-01T00:00:00Z")
        .expect("a credential to write");
    assert_eq!(written.access_token, "new");
    assert_eq!(written.refresh_token, "rot");
    assert_eq!(written.account_id, "acct-A");
    assert_eq!(written.id_token, "");
    assert!(on_refresh_result(&mut pool, sel.index, resp.access_token.clone()));
    let entry = pool.entry(0).unwrap();
    assert_eq!(entry.access_token, "new");
    assert_eq!(entry.health, AccountHealth::Active);

    let incoming = vec![("authorization".to_string(), "Bearer client".to_string())];
    let mut retry = forward_request_headers(&incoming);
    apply_upstream_headers(&mut retry, &entry.access_token, None, &incoming, false, false, false, None);
    let auth: Vec<&String> = retry.iter().filter(|(n, _)| n == "authorization").map(|(_, v)| v).collect();
    assert_eq!(auth, vec!["Bearer new"]);
}

#[test]
fn refresh_failure_blocks_the_account() {
    let mut pool = AccountPool::new(vec![account("A", Some("rt"))]);
    let sel = pool.select(0).unwrap();
    assert_eq!(on_upstream_status(&mut pool, sel.index, 401, true, 0), UpstreamVerdict::Refresh);
    assert!(!on_refresh_result(&mut pool, sel.index, None));
    assert_eq!(pool.entry(0).unwrap().health, AccountHealth::Blocked);
    let err = pool.select(10).unwrap_err();
    assert_eq!(err, SelectError::PoolExhausted);
    let rejection = selection_rejection(err);
    assert_eq!(rejection, Rejection::PoolExhausted);
    let reply = reply_for(rejection);
    assert_eq!(reply.status, 429);
    assert!(reply.headers.contains(&("retry-after".to_string(), "60".to_string())));
}

#[test]
fn failed_retry_blocks_the_account() {
    let mut pool = AccountPool::new(vec![account("A", Some("rt"))]);
    on_retry_failed(&mut pool, 0);
    assert_eq!(pool.entry(0).unwrap().health, AccountHealth::Blocked);
}

#[test]
fn health_counts_for_status() {
    let mut pool = pool_of(&["A", "B", "C", "D"]);
    pool.mark_blocked(1);
    pool.mark_cooldown(2, 0);
    pool.mark_cooldown(3, 0);
    assert_eq!(pool.health_counts(1_000), (4, 1, 2, 1));
    assert_eq!(pool.health_counts(60_000), (4, 3, 0, 1));
}

#[test]
fn retried_401_blocks_the_account() {
    use_retry_status(401, AccountHealth::Blocked);
    use_retry_status(429, AccountHealth::Cooldown(5 + COOLDOWN_MS));
    use_retry_status(200, AccountHealth::Active);
}

fn use_retry_status(status: u16, expected: AccountHealth) {
    let mut pool = AccountPool::new(vec![account("A", Some("rt"))]);
    assert!(on_refresh_result(&mut pool, 0, Some("new".to_string())));
    on_retry_status(&mut pool, 0, status, 5);
    assert_eq!(pool.entry(0).unwrap().health, expected);
}

fn run(events: &[RequestEvent]) -> Vec<RequestAction> {
    let mut stage = Stage::Start;
    let mut actions = Vec::new();
    for &event in events {
        let (next, action) = next_step(stage, event);
        stage = next;
        actions.push(action);
    }
    actions
}

#[test]
fn request_steps_in_order() {
    let refreshed = run(&[
        RequestEvent::Arrived { early: None },
        RequestEvent::BodyRead { within_limit: true },
        RequestEvent::AuthChecked { passed: true },
        RequestEvent::Selected { failure: None },
        RequestEvent::Answered { verdict: UpstreamVerdict::Refresh },
        RequestEvent::Refreshed { retry: true },
        RequestEvent::Answered { verdict: UpstreamVerdict::Relay },
        RequestEvent::Answered { verdict: UpstreamVerdict::Refresh },
    ]);
    assert_eq!(
        refreshed,
        vec![
            RequestAction::ReadBody,
            RequestAction::CheckAuth,
            RequestAction::SelectAccount,
            RequestAction::SendUpstream,
            RequestAction::RefreshToken,
            RequestAction::SendRetry,
            RequestAction::RelayRetry,
            RequestAction::Ignore,
        ]
    );
    let too_large = run(&[RequestEvent::Arrived { early: Some(Rejection::BodyTooLarge) }, RequestEvent::Selected { failure: None }]);
    assert_eq!(too_large, vec![RequestAction::Reply(Rejection::BodyTooLarge), RequestAction::Ignore]);
    let exhausted = run(&[
        RequestEvent::Arrived { early: None },
        RequestEvent::BodyRead { within_limit: true },
        RequestEvent::AuthChecked { passed: true },
        RequestEvent::Selected { failure: Some(SelectError::PoolExhausted) },
    ]);
    assert_eq!(exhausted[3], RequestAction::Reply(Rejection::PoolExhausted));
    let unreachable = run(&[
        RequestEvent::Arrived { early: None },
        RequestEvent::BodyRead { within_limit: false },
    ]);
    assert_eq!(unreachable[1], RequestAction::Reply(Rejection::BodyTooLarge));
}
