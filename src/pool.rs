//! The pool of upstream accounts: an ordered list of credentials, each with
//! a health state, and a round-robin cursor.

use vstd::prelude::*;
use vstd::arithmetic::div_mod::*;
use crate::text::{clone_opt, opt_chars};

verus! {

/// How long an account rests after the upstream answered 429, in milliseconds.
pub const COOLDOWN_MS: u64 = 60_000;

/// Health of one pool entry. Instants are milliseconds of a monotonic clock.
#[derive(Clone, Copy, Debug, PartialEq, Eq, Structural)]
pub enum AccountHealth {
    /// Eligible for selection.
    Active,
    /// Not eligible until the clock reaches the given instant.
    Cooldown(u64),
    /// Not eligible until the pool is reloaded.
    Blocked,
}

/// One credential of the pool with its live health.
#[derive(Debug)]
pub struct ProxyAccount {
    /// The local, file-system safe identifier.
    pub id: String,
    /// The upstream-side account identifier, if known.
    pub account_id: Option<String>,
    /// The access token presented upstream; may be newer than the one on disk.
    pub access_token: String,
    pub refresh_token: Option<String>,
    pub health: AccountHealth,
}

/// The values of a pool entry.
pub struct AccountView {
    pub id: Seq<char>,
    pub account_id: Option<Seq<char>>,
    pub access_token: Seq<char>,
    pub refresh_token: Option<Seq<char>>,
    pub health: AccountHealth,
}

impl View for ProxyAccount {
    type V = AccountView;

    open spec fn view(&self) -> AccountView {
        AccountView {
            id: self.id@,
            account_id: opt_chars(self.account_id),
            access_token: self.access_token@,
            refresh_token: opt_chars(self.refresh_token),
            health: self.health,
        }
    }
}

/// The state of a pool: its entries in order and the round-robin cursor.
pub struct PoolState {
    pub entries: Seq<AccountView>,
    pub cursor: nat,
}

/// The pool itself.
pub struct AccountPool {
    accounts: Vec<ProxyAccount>,
    cursor: usize,
}

/// What a selection hands out: copies of the chosen entry's values.
#[derive(Debug)]
pub struct Selection {
    pub index: usize,
    pub id: String,
    pub account_id: Option<String>,
    pub access_token: String,
    pub refresh_token: Option<String>,
}

/// Why no account could be selected.
#[derive(Clone, Copy, Debug, PartialEq, Eq, Structural)]
pub enum SelectError {
    /// The pool holds no entry at all.
    PoolEmpty,
    /// Every entry is cooling down or blocked.
    PoolExhausted,
}

/// A cooldown entry whose deadline has passed is active again.
pub open spec fn revive(h: AccountHealth, now: u64) -> AccountHealth {
    match h {
        AccountHealth::Cooldown(until) => if now >= until {
            AccountHealth::Active
        } else {
            h
        },
        _ => h,
    }
}

/// `e` with its health set to `h`.
pub open spec fn with_health(e: AccountView, h: AccountHealth) -> AccountView {
    AccountView {
        id: e.id,
        account_id: e.account_id,
        access_token: e.access_token,
        refresh_token: e.refresh_token,
        health: h,
    }
}

/// Every entry revived at instant `now`.
pub open spec fn revived(entries: Seq<AccountView>, now: u64) -> Seq<AccountView> {
    entries.map_values(|e: AccountView| with_health(e, revive(e.health, now)))
}

/// The `i`-th index probed by a selection that starts at cursor value `start`.
pub open spec fn probe(n: nat, start: nat, i: nat) -> nat
    recommends
        n > 0,
{
    (((start + i) as int) % (n as int)) as nat
}

/// The first active entry among the probes `i`, `i + 1`, ... of a selection
/// that starts at `start`.
pub open spec fn first_active_from(entries: Seq<AccountView>, start: nat, i: nat) -> Option<nat>
    decreases entries.len() - i,
{
    if i >= entries.len() {
        None
    } else if entries[probe(entries.len(), start, i) as int].health is Active {
        Some(probe(entries.len(), start, i))
    } else {
        first_active_from(entries, start, i + 1)
    }
}

/// The entry that a selection starting at `start` picks, if any.
pub open spec fn first_active(entries: Seq<AccountView>, start: nat) -> Option<nat> {
    first_active_from(entries, start, 0)
}

/// The cursor after one selection: `fetch_add(1)` on a `usize`.
pub open spec fn next_cursor(c: nat) -> nat {
    if c >= usize::MAX {
        0
    } else {
        c + 1
    }
}

impl Selection {
    /// This selection holds the values of entry `e`, found at index `i`.
    pub open spec fn holds(&self, i: nat, e: AccountView) -> bool {
        &&& self.index == i
        &&& self.id@ == e.id
        &&& opt_chars(self.account_id) == e.account_id
        &&& self.access_token@ == e.access_token
        &&& opt_chars(self.refresh_token) == e.refresh_token
    }
}

impl View for AccountPool {
    type V = PoolState;

    closed spec fn view(&self) -> PoolState {
        PoolState { entries: self.accounts@.map_values(|a: ProxyAccount| a@), cursor: self.cursor as nat }
    }
}

fn copy_account(a: &ProxyAccount) -> (r: ProxyAccount)
    ensures
        r@ == a@,
{
    ProxyAccount {
        id: a.id.clone(),
        account_id: clone_opt(&a.account_id),
        access_token: a.access_token.clone(),
        refresh_token: clone_opt(&a.refresh_token),
        health: a.health,
    }
}

impl AccountPool {
    /// A pool over `accounts`, in their order, with the cursor at zero.
    pub fn new(accounts: Vec<ProxyAccount>) -> (r: AccountPool)
        ensures
            r@.entries == accounts@.map_values(|a: ProxyAccount| a@),
            r@.cursor == 0,
    {
        AccountPool { accounts, cursor: 0 }
    }

    /// The number of entries.
    pub fn len(&self) -> (r: usize)
        ensures
            r == self@.entries.len(),
    {
        self.accounts.len()
    }

    /// A copy of the entry at `index`.
    pub fn entry(&self, index: usize) -> (r: Option<ProxyAccount>)
        ensures
            index < self@.entries.len() ==> (r matches Some(a) && a@ == self@.entries[index as int]),
            index >= self@.entries.len() ==> r is None,
    {
        if index < self.accounts.len() {
            Some(copy_account(&self.accounts[index]))
        } else {
            None
        }
    }

    /// Sets the health of the entry at `index`; nothing happens when `index`
    /// is out of range.
    fn set_health(&mut self, index: usize, h: AccountHealth)
        ensures
            final(self)@.cursor == old(self)@.cursor,
            index < old(self)@.entries.len() ==> final(self)@.entries == old(self)@.entries.update(
                index as int,
                with_health(old(self)@.entries[index as int], h),
            ),
            index >= old(self)@.entries.len() ==> final(self)@ == old(self)@,
    {
        if index < self.accounts.len() {
            self.accounts[index].health = h;
            assert(self@.entries =~= old(self)@.entries.update(
                index as int,
                with_health(old(self)@.entries[index as int], h),
            ));
        }
    }

    /// Marks the entry at `index` as blocked; out of range is a no-op.
    pub fn mark_blocked(&mut self, index: usize)
        ensures
            final(self)@.cursor == old(self)@.cursor,
            index < old(self)@.entries.len() ==> final(self)@.entries == old(self)@.entries.update(
                index as int,
                with_health(old(self)@.entries[index as int], AccountHealth::Blocked),
            ),
            index >= old(self)@.entries.len() ==> final(self)@ == old(self)@,
    {
        self.set_health(index, AccountHealth::Blocked)
    }

    /// Puts the entry at `index` into cooldown until `COOLDOWN_MS` after
    /// `now` (saturating); out of range is a no-op.
    pub fn mark_cooldown(&mut self, index: usize, now: u64)
        ensures
            final(self)@.cursor == old(self)@.cursor,
            index < old(self)@.entries.len() ==> final(self)@.entries == old(self)@.entries.update(
                index as int,
                with_health(
                    old(self)@.entries[index as int],
                    AccountHealth::Cooldown(cooldown_deadline(now)),
                ),
            ),
            index >= old(self)@.entries.len() ==> final(self)@ == old(self)@,
    {
        self.set_health(index, AccountHealth::Cooldown(cooldown_until(now)))
    }

    /// Installs a refreshed access token at `index` and makes the entry
    /// active; out of range is a no-op.
    pub fn update_token(&mut self, index: usize, token: String)
        ensures
            final(self)@.cursor == old(self)@.cursor,
            index < old(self)@.entries.len() ==> final(self)@.entries == old(self)@.entries.update(
                index as int,
                AccountView {
                    access_token: token@,
                    health: AccountHealth::Active,
                    ..old(self)@.entries[index as int]
                },
            ),
            index >= old(self)@.entries.len() ==> final(self)@ == old(self)@,
    {
        if index < self.accounts.len() {
            self.accounts[index].access_token = token;
            self.accounts[index].health = AccountHealth::Active;
            assert(self@.entries =~= old(self)@.entries.update(
                index as int,
                AccountView {
                    access_token: token@,
                    health: AccountHealth::Active,
                    ..old(self)@.entries[index as int]
                },
            ));
        }
    }

    /// Swaps in a new list of entries; the cursor is kept.
    pub fn replace_all(&mut self, accounts: Vec<ProxyAccount>)
        ensures
            final(self)@.entries == accounts@.map_values(|a: ProxyAccount| a@),
            final(self)@.cursor == old(self)@.cursor,
    {
        self.accounts = accounts;
    }

    /// Revives every cooldown entry whose deadline is at or before `now`.
    fn revive_all(&mut self, now: u64)
        ensures
            final(self)@.entries == revived(old(self)@.entries, now),
            final(self)@.cursor == old(self)@.cursor,
    {
        let n = self.accounts.len();
        let mut j: usize = 0;
        while j < n
            invariant
                n == self.accounts.len(),
                n == old(self)@.entries.len(),
                j <= n,
                self.cursor == old(self)@.cursor,
                forall|k: int|
                    0 <= k < j ==> #[trigger] self@.entries[k] == with_health(
                        old(self)@.entries[k],
                        revive(old(self)@.entries[k].health, now),
                    ),
                forall|k: int| j <= k < n ==> #[trigger] self@.entries[k] == old(self)@.entries[k],
            decreases n - j,
        {
            let ghost before = self.accounts@;
            let ghost before_entries = self@.entries;
            let h = self.accounts[j].health;
            let nh = match h {
                AccountHealth::Cooldown(until) => if now >= until {
                    AccountHealth::Active
                } else {
                    h
                },
                _ => h,
            };
            self.accounts[j].health = nh;
            assert(self.accounts@ =~= before.update(j as int, self.accounts@[j as int]));
            assert(self.accounts@[j as int].id == before[j as int].id);
            assert(self.accounts@[j as int].account_id == before[j as int].account_id);
            assert(self.accounts@[j as int].access_token == before[j as int].access_token);
            assert(self.accounts@[j as int].refresh_token == before[j as int].refresh_token);
            assert(self@.entries[j as int] == with_health(before_entries[j as int], nh));
            assert forall|k: int| 0 <= k < n && k != j implies #[trigger] self@.entries[k]
                == before_entries[k] by {
                assert(self.accounts@[k] == before[k]);
            }
            j = j + 1;
        }
        assert(self@.entries =~= revived(old(self)@.entries, now));
    }

    /// Picks the next healthy entry round-robin. Cooldowns that have run out
    /// by `now` are revived first; then the cursor advances by one and the
    /// entries are probed from the old cursor value on, modulo the pool size.
    pub fn select(&mut self, now: u64) -> (r: Result<Selection, SelectError>)
        ensures
            old(self)@.entries.len() == 0 ==> r == Err::<Selection, SelectError>(
                SelectError::PoolEmpty,
            ) && final(self)@ == old(self)@,
            old(self)@.entries.len() > 0 ==> {
                let rev = revived(old(self)@.entries, now);
                &&& final(self)@.entries == rev
                &&& final(self)@.cursor == next_cursor(old(self)@.cursor)
                &&& match first_active(rev, old(self)@.cursor) {
                    Some(i) => (r matches Ok(sel) && sel.holds(i, rev[i as int])),
                    None => r == Err::<Selection, SelectError>(SelectError::PoolExhausted),
                }
            },
    {
        let n = self.accounts.len();
        if n == 0 {
            return Err(SelectError::PoolEmpty);
        }
        self.revive_all(now);
        let ghost rev = self@.entries;
        let ghost start = self.cursor as nat;
        let base = self.cursor % n;
        self.cursor = if self.cursor == usize::MAX {
            0
        } else {
            self.cursor + 1
        };
        let mut i: usize = 0;
        while i < n
            invariant
                n == self.accounts.len(),
                n == rev.len(),
                n > 0,
                base == (start as int) % (n as int),
                i <= n,
                self@.entries == rev,
                rev == revived(old(self)@.entries, now),
                start == old(self)@.cursor,
                self@.cursor == next_cursor(start),
                first_active(rev, start) == first_active_from(rev, start, i as nat),
            decreases n - i,
        {
            let idx = if i < n - base {
                base + i
            } else {
                i - (n - base)
            };
            proof {
                lemma_probe_index(n as nat, start, i as nat, base as nat);
            }
            assert(idx == probe(n as nat, start, i as nat));
            if self.accounts[idx].health == AccountHealth::Active {
                let a = &self.accounts[idx];
                assert(a@ == rev[idx as int]);
                return Ok(
                    Selection {
                        index: idx,
                        id: a.id.clone(),
                        account_id: clone_opt(&a.account_id),
                        access_token: a.access_token.clone(),
                        refresh_token: clone_opt(&a.refresh_token),
                    },
                );
            }
            i = i + 1;
        }
        Err(SelectError::PoolExhausted)
    }
}

/// How many entries are active, cooling down and blocked at instant `now`,
/// each health taken as `revive` gives it: a cooldown whose deadline has
/// passed counts as active.
pub open spec fn health_counts_of(entries: Seq<AccountView>, now: u64) -> (nat, nat, nat)
    decreases entries.len(),
{
    if entries.len() == 0 {
        (0, 0, 0)
    } else {
        let (a, c, b) = health_counts_of(entries.drop_last(), now);
        match revive(entries.last().health, now) {
            AccountHealth::Active => (a + 1, c, b),
            AccountHealth::Cooldown(_) => (a, c + 1, b),
            AccountHealth::Blocked => (a, c, b + 1),
        }
    }
}

proof fn lemma_health_counts_bound(entries: Seq<AccountView>, now: u64)
    ensures
        health_counts_of(entries, now).0 + health_counts_of(entries, now).1 + health_counts_of(
            entries,
            now,
        ).2 == entries.len(),
    decreases entries.len(),
{
    if entries.len() > 0 {
        lemma_health_counts_bound(entries.drop_last(), now);
    }
}

impl AccountPool {
    /// The size of the pool and how many entries are active, cooling down
    /// (deadline after `now`) and blocked. A cooldown whose deadline has
    /// passed counts as active, as the next selection will find it.
    pub fn health_counts(&self, now: u64) -> (r: (usize, usize, usize, usize))
        ensures
            r.0 == self@.entries.len(),
            r.1 + r.2 + r.3 == r.0,
            (r.1 as nat, r.2 as nat, r.3 as nat) == health_counts_of(self@.entries, now),
    {
        let n = self.accounts.len();
        let mut active: usize = 0;
        let mut cooling: usize = 0;
        let mut blocked: usize = 0;
        let mut i: usize = 0;
        while i < n
            invariant
                n == self@.entries.len(),
                i <= n,
                (active as nat, cooling as nat, blocked as nat) == health_counts_of(
                    self@.entries.subrange(0, i as int),
                    now,
                ),
            decreases n - i,
        {
            let ghost sub = self@.entries.subrange(0, i + 1);
            assert(sub.drop_last() =~= self@.entries.subrange(0, i as int));
            assert(sub.last() == self.accounts@[i as int]@);
            proof {
                lemma_health_counts_bound(self@.entries.subrange(0, i as int), now);
            }
            match self.accounts[i].health {
                AccountHealth::Active => {
                    active = active + 1;
                },
                AccountHealth::Cooldown(until) => {
                    if now < until {
                        cooling = cooling + 1;
                    } else {
                        active = active + 1;
                    }
                },
                AccountHealth::Blocked => {
                    blocked = blocked + 1;
                },
            }
            i = i + 1;
        }
        assert(self@.entries.subrange(0, n as int) =~= self@.entries);
        proof {
            lemma_health_counts_bound(self@.entries, now);
        }
        (n, active, cooling, blocked)
    }
}

/// The end of a cooldown that starts at `now`.
pub open spec fn cooldown_deadline(now: u64) -> u64 {
    if now + COOLDOWN_MS > u64::MAX {
        u64::MAX
    } else {
        (now + COOLDOWN_MS) as u64
    }
}

/// The end of a cooldown that starts at `now`, saturating at the clock's end.
pub fn cooldown_until(now: u64) -> (r: u64)
    ensures
        r == cooldown_deadline(now),
{
    now.saturating_add(COOLDOWN_MS)
}

proof fn lemma_probe_index(n: nat, start: nat, i: nat, base: nat)
    requires
        n > 0,
        i < n,
        base == (start as int) % (n as int),
    ensures
        (i < n - base ==> probe(n, start, i) == base + i),
        (i >= n - base ==> probe(n, start, i) == i - (n - base)),
{
    vstd::arithmetic::div_mod::lemma_add_mod_noop(start as int, i as int, n as int);
    vstd::arithmetic::div_mod::lemma_small_mod(i, n);
    if base + i < n {
        vstd::arithmetic::div_mod::lemma_small_mod((base + i) as nat, n);
    } else {
        vstd::arithmetic::div_mod::lemma_sub_mod_noop_right((base + i) as int, n as int, n as int);
        vstd::arithmetic::div_mod::lemma_small_mod((base + i - n) as nat, n);
        vstd::arithmetic::div_mod::lemma_mod_self_0(n as int);
    }
}

/// A cooldown entry whose deadline has come is active again after the first
/// selection made at or past that deadline: `select` revives before it probes.
pub proof fn lemma_cooldown_recovery(entries: Seq<AccountView>, i: int, until: u64, now: u64)
    requires
        0 <= i < entries.len(),
        entries[i].health == AccountHealth::Cooldown(until),
        now >= until,
    ensures
        revived(entries, now)[i].health == AccountHealth::Active,
        revived(entries, now)[i] == with_health(entries[i], AccountHealth::Active),
{
}

/// Every entry of `entries` is active.
pub open spec fn all_active(entries: Seq<AccountView>) -> bool {
    forall|i: int| 0 <= i < entries.len() ==> (#[trigger] entries[i]).health is Active
}

/// How many of `k` successive selections, made with cursor values `c`,
/// `c + 1`, ..., `c + k - 1` on unchanging `entries`, pick entry `j`.
pub open spec fn times_picked(entries: Seq<AccountView>, c: nat, k: nat, j: nat) -> nat
    decreases k,
{
    if k == 0 {
        0
    } else {
        times_picked(entries, c, (k - 1) as nat, j) + if first_active(entries, (c + k - 1) as nat)
            == Some(j) {
            1nat
        } else {
            0nat
        }
    }
}

/// When every entry is active, a selection picks the entry the cursor
/// points at.
pub proof fn lemma_all_active_pick(entries: Seq<AccountView>, c: nat)
    requires
        entries.len() > 0,
        all_active(entries),
    ensures
        first_active(entries, c) == Some(((c as int) % (entries.len() as int)) as nat),
{
    let n = entries.len() as int;
    lemma_mod_bound(c as int, n);
    assert(probe(entries.len(), c, 0) == ((c as int) % n) as nat);
    assert(entries[probe(entries.len(), c, 0) as int].health is Active);
}

proof fn lemma_times_split(entries: Seq<AccountView>, c: nat, a: nat, b: nat, j: nat)
    ensures
        times_picked(entries, c, a + b, j) == times_picked(entries, c, a, j) + times_picked(
            entries,
            c + a,
            b,
            j,
        ),
    decreases b,
{
    if b > 0 {
        lemma_times_split(entries, c, a, (b - 1) as nat, j);
        assert((c + a + b - 1) as nat == ((c + a) + b - 1) as nat);
    }
}

proof fn lemma_times_prefix_from_zero(entries: Seq<AccountView>, m: nat, j: nat)
    requires
        entries.len() > 0,
        all_active(entries),
        m <= entries.len(),
        j < entries.len(),
    ensures
        times_picked(entries, 0, m, j) == if j < m {
            1nat
        } else {
            0nat
        },
    decreases m,
{
    if m > 0 {
        lemma_times_prefix_from_zero(entries, (m - 1) as nat, j);
        lemma_all_active_pick(entries, (m - 1) as nat);
        lemma_small_mod((m - 1) as nat, entries.len());
    }
}

proof fn lemma_times_one_round(entries: Seq<AccountView>, c: nat, j: nat)
    requires
        entries.len() > 0,
        all_active(entries),
        j < entries.len(),
    ensures
        times_picked(entries, c, entries.len(), j) == 1,
    decreases c,
{
    let n = entries.len();
    if c == 0 {
        lemma_times_prefix_from_zero(entries, n, j);
    } else {
        let p = (c - 1) as nat;
        lemma_times_one_round(entries, p, j);
        lemma_times_split(entries, p, 1, n, j);
        lemma_times_split(entries, p, n, 1, j);
        lemma_all_active_pick(entries, p);
        lemma_all_active_pick(entries, p + n);
        lemma_mod_add_multiples_vanish(p as int, n as int);
        assert(((p + n) as int) % (n as int) == (p as int) % (n as int));
        assert(times_picked(entries, p, 0, j) == 0);
        assert(times_picked(entries, p + n, 0, j) == 0);
        assert(first_active(entries, p) == first_active(entries, (p + n) as nat));
        assert(times_picked(entries, p, 1, j) == times_picked(entries, p + n, 1, j));
        assert(p + 1 == c);
        assert((1 + n) as nat == (n + 1) as nat);
    }
}

/// Round-robin fairness: over `k` successive selections on a pool whose
/// `n` entries all stay active, each entry is picked ⌊k/n⌋ or ⌈k/n⌉ times.
pub proof fn lemma_round_robin_fair(entries: Seq<AccountView>, c: nat, k: nat, j: nat)
    requires
        entries.len() > 0,
        all_active(entries),
        j < entries.len(),
    ensures
        k / entries.len() <= times_picked(entries, c, k, j),
        times_picked(entries, c, k, j) <= (k + entries.len() - 1) / (entries.len() as int),
    decreases k,
{
    let n = entries.len();
    if k < n {
        lemma_basic_div(k as int, n as int);
        lemma_times_one_round(entries, c, j);
        lemma_times_split(entries, c, k, (n - k) as nat, j);
        if k == 0 {
            lemma_basic_div((n - 1) as int, n as int);
        } else {
            lemma_div_plus_one((k - 1) as int, n as int);
            lemma_basic_div((k - 1) as int, n as int);
        }
    } else {
        let rest = (k - n) as nat;
        lemma_round_robin_fair(entries, c + n, rest, j);
        lemma_times_split(entries, c, n, rest, j);
        lemma_times_one_round(entries, c, j);
        lemma_div_plus_one(rest as int, n as int);
        lemma_div_plus_one((rest + n - 1) as int, n as int);
        assert(n + rest == k);
    }
}

} // verus!
