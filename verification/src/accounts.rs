//! Upstream accounts: what is stored of them, how they are doing, and when they take new requests.

use vstd::prelude::*;
use vstd::string::*;

use crate::clock;
use crate::text;

verus! {

/// From this share of its usage limit on, an account takes no new requests.
pub const MAX_USED_PERCENT_FOR_NEW_REQUESTS: u8 = 95;

/// From this share of its usage limit on, an account is chosen less readily.
pub const HIGH_USED_PERCENT: u8 = 85;

/// For how many seconds an account rests that was rate limited without word of when that ends.
pub const DEFAULT_COOLDOWN_SECS: i64 = 300;

/// What is known of an account's standing.
#[derive(Clone, Copy, Debug, PartialEq, Eq, Structural)]
pub enum AccountState {
    Healthy,
    CoolingDown,
    RateLimited,
    NeedsReauth,
    Disabled,
}

impl AccountState {
    /// An account in this state can be chosen.
    pub open spec fn candidate(self) -> bool {
        self == AccountState::Healthy || self == AccountState::CoolingDown
    }

    /// Whether an account in this state can be chosen.
    pub fn is_candidate(self) -> (r: bool)
        ensures
            r == self.candidate(),
    {
        matches!(self, AccountState::Healthy | AccountState::CoolingDown)
    }

    /// The state's name.
    pub open spec fn name(self) -> Seq<char> {
        match self {
            AccountState::Healthy => "Healthy"@,
            AccountState::CoolingDown => "CoolingDown"@,
            AccountState::RateLimited => "RateLimited"@,
            AccountState::NeedsReauth => "NeedsReauth"@,
            AccountState::Disabled => "Disabled"@,
        }
    }

    /// The state's name.
    pub fn name_str(self) -> (s: &'static str)
        ensures
            s@ == self.name(),
    {
        match self {
            AccountState::Healthy => "Healthy",
            AccountState::CoolingDown => "CoolingDown",
            AccountState::RateLimited => "RateLimited",
            AccountState::NeedsReauth => "NeedsReauth",
            AccountState::Disabled => "Disabled",
        }
    }
}

/// The state of an account of which none is stored.
pub fn default_account_state() -> (state: AccountState)
    ensures
        state == AccountState::Healthy,
{
    AccountState::Healthy
}

/// What is stored of an account.
#[derive(Debug)]
pub struct StoredAccount {
    pub id: String,
    pub state: AccountState,
    /// The share of the usage limit that is used up.
    pub used_percent: Option<u8>,
    /// When the usage limit starts afresh, in seconds since the Unix epoch.
    pub resets_at: Option<i64>,
    /// How much rather than others this account is chosen.
    pub preference: i32,
    /// The directory with the account's credentials.
    pub codex_home: String,
}

/// What is stored of an account, as mathematics sees it.
pub struct AccountView {
    pub id: Seq<char>,
    pub state: AccountState,
    pub used_percent: Option<u8>,
    pub resets_at: Option<i64>,
    pub preference: i32,
    pub codex_home: Seq<char>,
}

impl StoredAccount {
    pub open spec fn view(&self) -> AccountView {
        AccountView {
            id: self.id@,
            state: self.state,
            used_percent: self.used_percent,
            resets_at: self.resets_at,
            preference: self.preference,
            codex_home: self.codex_home@,
        }
    }

}

impl Clone for StoredAccount {
    fn clone(&self) -> (r: Self)
        ensures
            r@ == self@,
    {
        StoredAccount {
            id: self.id.clone(),
            state: self.state,
            used_percent: self.used_percent,
            resets_at: self.resets_at,
            preference: self.preference,
            codex_home: self.codex_home.clone(),
        }
    }
}

/// What a new account is asked to be.
#[derive(Clone, Copy, Debug)]
pub struct CreateAccountRequest {
    pub preference: i32,
}

impl Default for CreateAccountRequest {
    fn default() -> (r: Self)
        ensures
            r.preference == 0,
    {
        CreateAccountRequest { preference: 0 }
    }
}

/// The new account of a request.
pub open spec fn created(preference: i32, id: Seq<char>, codex_home: Seq<char>) -> AccountView {
    AccountView {
        id,
        state: AccountState::Healthy,
        used_percent: None,
        resets_at: None,
        preference,
        codex_home,
    }
}

/// An account as it is doing: what is stored of it, and what is known while the program runs.
#[derive(Debug)]
pub struct AccountHandle {
    record: StoredAccount,
    inflight: usize,
    recent_failures: u32,
    cooldown_until: i64,
}

/// An account as it is doing, as mathematics sees it.
pub struct HandleView {
    pub record: AccountView,
    /// How many of its requests are under way.
    pub inflight: usize,
    /// How many of its requests have failed since one last succeeded.
    pub recent_failures: u32,
    /// Up to when it rests, in seconds since the Unix epoch.
    pub cooldown_until: i64,
}

impl HandleView {
    /// The account with another state.
    pub open spec fn in_state(self, state: AccountState) -> HandleView {
        HandleView { record: AccountView { state, ..self.record }, ..self }
    }

    /// The account at `now`: a rate limit whose time is over is no more.
    pub open spec fn cleared(self, now: int) -> HandleView {
        if self.cooldown_until <= now && self.record.state == AccountState::RateLimited {
            self.in_state(AccountState::Healthy)
        } else {
            self
        }
    }

    /// The account is not near its usage limit.
    pub open spec fn has_headroom(self) -> bool {
        match self.record.used_percent {
            Some(used_percent) => used_percent < MAX_USED_PERCENT_FOR_NEW_REQUESTS,
            None => true,
        }
    }

    /// The account takes new requests at `now`.
    pub open spec fn accepts(self, now: int) -> bool {
        self.cooldown_until <= now && self.cleared(now).record.state.candidate()
            && self.has_headroom()
    }

    /// As far as its state and its usage go, the account takes new requests once it has rested.
    pub open spec fn accepts_sometime(self) -> bool {
        (self.record.state.candidate() || self.record.state == AccountState::RateLimited)
            && self.has_headroom()
    }

    /// What is left of the usage limit, and how much the account is preferred.
    pub open spec fn merit(self) -> int {
        100 - self.used() + self.record.preference
    }

    /// The share of the usage limit that is used up, none where it is not known.
    pub open spec fn used(self) -> int {
        match self.record.used_percent {
            Some(used_percent) => used_percent as int,
            None => 0,
        }
    }

    /// What is taken off for being near the usage limit.
    pub open spec fn used_penalty(self) -> int {
        if self.used() >= HIGH_USED_PERCENT {
            25
        } else {
            0
        }
    }

    /// What is taken off for cooling down.
    pub open spec fn state_penalty(self) -> int {
        if self.record.state == AccountState::CoolingDown {
            20
        } else {
            0
        }
    }

    /// What is taken off for the requests under way.
    pub open spec fn inflight_penalty(self) -> int {
        low_half(self.inflight as int) * 10
    }

    /// What is taken off for the requests that failed.
    pub open spec fn failure_penalty(self) -> int {
        low_half(self.recent_failures as int) * 20
    }

    /// How good a choice the account is.
    pub open spec fn score(self) -> int {
        self.merit() - self.used_penalty() - self.state_penalty() - self.inflight_penalty()
            - self.failure_penalty()
    }

    /// Each step of the reckoning of the score is a number of 32 bits.
    pub open spec fn score_fits(self) -> bool {
        let merit = self.merit();
        let after_use = merit - self.used_penalty();
        let after_state = after_use - self.state_penalty();
        let after_inflight = after_state - self.inflight_penalty();
        &&& fits(self.inflight_penalty())
        &&& fits(self.failure_penalty())
        &&& fits(merit)
        &&& fits(after_use)
        &&& fits(after_state)
        &&& fits(after_inflight)
        &&& fits(self.score())
    }

    /// The score at `now`, where the account takes new requests.
    pub open spec fn score_at(self, now: int) -> Option<int> {
        if self.accepts(now) {
            Some(self.cleared(now).score())
        } else {
            None
        }
    }

    /// The score at `now`, where there is one, fits.
    pub open spec fn scorable_at(self, now: int) -> bool {
        self.accepts(now) ==> self.score_fits()
    }

    /// The score fits whenever there is one.
    pub open spec fn scorable(self) -> bool {
        self.accepts_sometime() ==> self.score_fits()
    }

    /// The account after one of its requests succeeded.
    pub open spec fn after_success(self) -> HandleView {
        HandleView {
            record: AccountView {
                state: if self.record.state == AccountState::RateLimited {
                    AccountState::Healthy
                } else {
                    self.record.state
                },
                ..self.record
            },
            recent_failures: 0,
            cooldown_until: 0,
            ..self
        }
    }

    /// The account after one of its requests failed.
    pub open spec fn after_failure(self) -> HandleView {
        HandleView { recent_failures: wrapped_u32(self.recent_failures + 1), ..self }
    }

    /// The account after it was rate limited up to a time.
    pub open spec fn after_limit(self, until: i64, used_percent: Option<u8>) -> HandleView {
        HandleView {
            record: AccountView {
                state: AccountState::RateLimited,
                used_percent: if used_percent is Some {
                    used_percent
                } else {
                    self.record.used_percent
                },
                resets_at: Some(until),
                ..self.record
            },
            cooldown_until: until,
            ..self
        }
    }

    /// The account with one more request under way.
    pub open spec fn with_lease(self) -> HandleView {
        HandleView { inflight: wrapped_usize(self.inflight + 1), ..self }
    }

    /// The account with one request less under way.
    pub open spec fn without_lease(self) -> HandleView {
        HandleView { inflight: wrapped_usize(self.inflight - 1), ..self }
    }

    /// The account after its usage was looked up at `now`.
    pub open spec fn after_usage(
        self,
        used_percent: Option<u8>,
        resets_at: Option<i64>,
        now: int,
    ) -> HandleView {
        let limits = HandleView {
            record: AccountView { used_percent, resets_at, ..self.record },
            ..self
        };
        limits.cleared(now)
    }
}

/// The number that the low 32 bits of `n` are as a signed number.
pub open spec fn low_half(n: int) -> int {
    let low = n % 0x1_0000_0000;
    if low < 0x8000_0000 {
        low
    } else {
        low - 0x1_0000_0000
    }
}

/// A number of 32 bits.
pub open spec fn fits(n: int) -> bool {
    i32::MIN <= n <= i32::MAX
}

/// A counter that starts afresh from zero.
pub open spec fn wrapped_u32(n: int) -> u32 {
    if n > u32::MAX {
        0
    } else {
        n as u32
    }
}

/// A counter that goes on from its other end.
pub open spec fn wrapped_usize(n: int) -> usize {
    if n > usize::MAX {
        0
    } else if n < 0 {
        usize::MAX
    } else {
        n as usize
    }
}

fn low_half_of(n: u64) -> (r: i32)
    ensures
        r == low_half(n as int),
{
    let low: i64 = (n % 0x1_0000_0000) as i64;
    if low < 0x8000_0000 {
        low as i32
    } else {
        (low - 0x1_0000_0000) as i32
    }
}

impl AccountHandle {
    /// The account.
    pub closed spec fn view(&self) -> HandleView {
        HandleView {
            record: self.record@,
            inflight: self.inflight,
            recent_failures: self.recent_failures,
            cooldown_until: self.cooldown_until,
        }
    }

    /// An account that has done nothing yet.
    pub fn new(record: StoredAccount) -> (handle: AccountHandle)
        ensures
            handle@ == fresh(record@),
    {
        AccountHandle { record, inflight: 0, recent_failures: 0, cooldown_until: 0 }
    }

    /// The account's id.
    pub fn id(&self) -> (id: String)
        ensures
            id@ == self@.record.id,
    {
        self.record.id.clone()
    }

    /// The account's id, without a copy.
    pub(crate) fn id_str(&self) -> (id: &str)
        ensures
            id@ == self@.record.id,
    {
        self.record.id.as_str()
    }

    /// What is stored of the account.
    pub fn record(&self) -> (record: StoredAccount)
        ensures
            record@ == self@.record,
    {
        self.record.clone()
    }

    /// Whether the account takes new requests now. A rate limit whose time is over is lifted.
    pub fn accepting_new_requests(&mut self) -> (r: bool)
        ensures
            exists|now: i64|
                0 <= now && clock::is_timestamp(now as int) && r == old(self)@.accepts(now as int)
                    && #[trigger] old(self)@.cleared(now as int) == final(self)@,
    {
        self.accepting_new_requests_at(clock::current_unix_seconds())
    }

    /// Whether the account takes new requests at `now`. A rate limit whose time is over is lifted.
    pub fn accepting_new_requests_at(&mut self, now: i64) -> (r: bool)
        ensures
            r == old(self)@.accepts(now as int),
            final(self)@ == old(self)@.cleared(now as int),
    {
        if self.cooldown_until > now {
            return false;
        }
        self.clear_expired_rate_limit(now);
        self.record.state.is_candidate() && match self.record.used_percent {
            Some(used_percent) => used_percent < MAX_USED_PERCENT_FOR_NEW_REQUESTS,
            None => true,
        }
    }

    /// Lifts a rate limit whose time is over at `now`.
    pub fn clear_expired_rate_limit(&mut self, now: i64)
        ensures
            final(self)@ == old(self)@.cleared(now as int),
    {
        if self.cooldown_until > now {
            return;
        }
        if self.record.state == AccountState::RateLimited {
            self.record.state = AccountState::Healthy;
        }
    }

    /// How good a choice the account is now, where it takes new requests.
    pub fn score(&mut self) -> (r: Option<i32>)
        requires
            old(self)@.scorable(),
        ensures
            exists|now: i64|
                0 <= now && clock::is_timestamp(now as int) && score_is(
                    r,
                    old(self)@.score_at(now as int),
                ) && #[trigger] old(self)@.cleared(now as int) == final(self)@,
    {
        self.score_at(clock::current_unix_seconds())
    }

    /// How good a choice the account is at `now`, where it takes new requests.
    pub fn score_at(&mut self, now: i64) -> (r: Option<i32>)
        requires
            old(self)@.scorable_at(now as int),
        ensures
            score_is(r, old(self)@.score_at(now as int)),
            final(self)@ == old(self)@.cleared(now as int),
    {
        if !self.accepting_new_requests_at(now) {
            return None;
        }
        let used_percent: u8 = match self.record.used_percent {
            Some(used_percent) => used_percent,
            None => 0,
        };
        let headroom: i32 = 100 - used_percent as i32;
        let used_penalty: i32 = if used_percent >= HIGH_USED_PERCENT {
            25
        } else {
            0
        };
        let state_penalty: i32 = match self.record.state {
            AccountState::CoolingDown => 20,
            _ => 0,
        };
        assert(self@.score_fits());
        let inflight_penalty: i32 = low_half_of(self.inflight as u64) * 10;
        let recent_failure_penalty: i32 = low_half_of(self.recent_failures as u64) * 20;
        Some(
            headroom + self.record.preference - used_penalty - state_penalty - inflight_penalty
                - recent_failure_penalty,
        )
    }

    /// Whether each step of the reckoning of the score is a number of 32 bits.
    fn score_would_fit(&self) -> (r: bool)
        ensures
            r == self@.score_fits(),
    {
        let used_percent: u8 = match self.record.used_percent {
            Some(used_percent) => used_percent,
            None => 0,
        };
        let used_penalty: i64 = if used_percent >= HIGH_USED_PERCENT {
            25
        } else {
            0
        };
        let state_penalty: i64 = match self.record.state {
            AccountState::CoolingDown => 20,
            _ => 0,
        };
        let inflight_penalty: i64 = low_half_of(self.inflight as u64) as i64 * 10;
        let failure_penalty: i64 = low_half_of(self.recent_failures as u64) as i64 * 20;
        let merit: i64 = 100 - used_percent as i64 + self.record.preference as i64;
        let after_use: i64 = merit - used_penalty;
        let after_state: i64 = after_use - state_penalty;
        let after_inflight: i64 = after_state - inflight_penalty;
        let score: i64 = after_inflight - failure_penalty;
        within(inflight_penalty) && within(failure_penalty) && within(merit) && within(after_use)
            && within(after_state) && within(after_inflight) && within(score)
    }

    /// Whether the score fits whenever there is one.
    pub fn can_score(&self) -> (r: bool)
        ensures
            r == self@.scorable(),
    {
        !self.can_accept() || self.score_would_fit()
    }

    /// Whether the score at `now`, where there is one, fits.
    pub fn can_score_at(&self, now: i64) -> (r: bool)
        ensures
            r == self@.scorable_at(now as int),
    {
        self.cooldown_until > now || !self.can_accept() || self.score_would_fit()
    }

    /// Whether, as far as its state and its usage go, the account takes new requests once it has
    /// rested.
    fn can_accept(&self) -> (r: bool)
        ensures
            r == self@.accepts_sometime(),
    {
        let open = match self.record.state {
            AccountState::Healthy | AccountState::CoolingDown | AccountState::RateLimited => true,
            _ => false,
        };
        open && match self.record.used_percent {
            Some(used_percent) => used_percent < MAX_USED_PERCENT_FOR_NEW_REQUESTS,
            None => true,
        }
    }

    /// Takes note that a request succeeded: failures are forgotten, and the account rests no more.
    pub fn note_success(&mut self)
        ensures
            final(self)@ == old(self)@.after_success(),
    {
        self.recent_failures = 0;
        self.cooldown_until = 0;
        if self.record.state == AccountState::RateLimited {
            self.record.state = AccountState::Healthy;
        }
    }

    /// Takes note that a request failed.
    pub fn note_failure(&mut self)
        ensures
            final(self)@ == old(self)@.after_failure(),
    {
        self.recent_failures = self.recent_failures.wrapping_add(1);
    }

    /// Takes note that a request was turned away for the usage limit. The account rests up to
    /// `resets_at`, or for a while from now on.
    pub fn note_rate_limited(&mut self, resets_at: Option<i64>, used_percent: Option<u8>)
        ensures
            exists|now: i64|
                0 <= now && clock::is_timestamp(now as int) && final(self)@ == old(
                    self,
                )@.after_limit(#[trigger] limit_end(resets_at, now), used_percent),
    {
        self.note_rate_limited_at(resets_at, used_percent, clock::current_unix_seconds());
    }

    /// Takes note at `now` that a request was turned away for the usage limit.
    pub fn note_rate_limited_at(
        &mut self,
        resets_at: Option<i64>,
        used_percent: Option<u8>,
        now: i64,
    )
        requires
            now <= i64::MAX - DEFAULT_COOLDOWN_SECS,
        ensures
            final(self)@ == old(self)@.after_limit(limit_end(resets_at, now), used_percent),
    {
        let cooldown_until: i64 = match resets_at {
            Some(resets_at) => resets_at,
            None => now + DEFAULT_COOLDOWN_SECS,
        };
        self.cooldown_until = cooldown_until;
        self.record.state = AccountState::RateLimited;
        if used_percent.is_some() {
            self.record.used_percent = used_percent;
        }
        self.record.resets_at = Some(cooldown_until);
    }

    /// Counts one more request under way.
    pub(crate) fn take_lease(&mut self)
        ensures
            final(self)@ == old(self)@.with_lease(),
    {
        self.inflight = self.inflight.wrapping_add(1);
    }

    /// Counts one request less under way.
    pub(crate) fn return_lease(&mut self)
        ensures
            final(self)@ == old(self)@.without_lease(),
    {
        self.inflight = self.inflight.wrapping_sub(1);
    }

    /// Takes over the usage that was looked up, if it was found, and tells whether it was.
    pub fn refresh_usage_state(&mut self, usage: Option<&AccountUsageSnapshot>) -> (changed: bool)
        ensures
            changed == (usage is Some),
            usage is None ==> final(self)@ == old(self)@,
            usage is Some ==> exists|now: i64|
                0 <= now && clock::is_timestamp(now as int) && final(self)@
                    == #[trigger] after_lookup(old(self)@, *usage->0, now as int),
    {
        let now: i64 = clock::current_unix_seconds();
        self.refresh_usage_state_at(usage, now)
    }

    /// Takes over at `now` the usage that was looked up, if it was found, and tells whether it was.
    pub fn refresh_usage_state_at(&mut self, usage: Option<&AccountUsageSnapshot>, now: i64) -> (
    changed: bool)
        ensures
            changed == (usage is Some),
            usage is None ==> final(self)@ == old(self)@,
            usage is Some ==> final(self)@ == after_lookup(old(self)@, *usage->0, now as int),
    {
        match usage {
            Some(usage) => {
                self.record.used_percent = match &usage.primary_used_percent {
                    Some(used) => Some(used.rounded),
                    None => None,
                };
                self.record.resets_at = usage.primary_resets_at;
                self.clear_expired_rate_limit(now);
                true
            },
            None => false,
        }
    }

    /// What there is to tell of the account now.
    pub fn summary(&self, auth: AccountAuthSnapshot, usage: Option<AccountUsageSnapshot>) -> (r:
        AccountSummary)
        ensures
            exists|now: i64|
                0 <= now && clock::is_timestamp(now as int) && #[trigger] r.tells(self@, now as int),
            r.auth == auth,
            r.usage == usage,
    {
        self.summary_at(auth, usage, clock::current_unix_seconds())
    }

    /// What there is to tell of the account at `now`.
    pub fn summary_at(
        &self,
        auth: AccountAuthSnapshot,
        usage: Option<AccountUsageSnapshot>,
        now: i64,
    ) -> (r: AccountSummary)
        ensures
            r.tells(self@, now as int),
            r.auth == auth,
            r.usage == usage,
    {
        AccountSummary {
            id: self.record.id.clone(),
            state: self.record.state,
            used_percent: self.record.used_percent,
            resets_at: self.record.resets_at,
            cooldown_until: if self.cooldown_until > now {
                Some(self.cooldown_until)
            } else {
                None
            },
            inflight: self.inflight,
            recent_failures: self.recent_failures,
            codex_home: self.record.codex_home.clone(),
            auth,
            usage,
        }
    }
}

fn within(n: i64) -> (r: bool)
    ensures
        r == fits(n as int),
{
    i32::MIN as i64 <= n && n <= i32::MAX as i64
}

/// An account that has done nothing yet.
pub open spec fn fresh(record: AccountView) -> HandleView {
    HandleView { record, inflight: 0, recent_failures: 0, cooldown_until: 0 }
}

/// `r` is the given score.
pub open spec fn score_is(r: Option<i32>, score: Option<int>) -> bool {
    match r {
        Some(n) => score == Some(n as int),
        None => score is None,
    }
}

/// Up to when an account rests that was rate limited at `now`.
pub open spec fn limit_end(resets_at: Option<i64>, now: i64) -> i64 {
    match resets_at {
        Some(resets_at) => resets_at,
        None => (now + DEFAULT_COOLDOWN_SECS) as i64,
    }
}

/// The account after its usage was looked up at `now`.
pub open spec fn after_lookup(handle: HandleView, usage: AccountUsageSnapshot, now: int) -> HandleView {
    handle.after_usage(
        match usage.primary_used_percent {
            Some(used) => Some(used.rounded),
            None => None,
        },
        usage.primary_resets_at,
        now,
    )
}

/// Who an account is logged in as.
#[derive(Debug)]
pub struct AccountAuthSnapshot {
    pub authenticated: bool,
    pub auth_mode: Option<String>,
    pub account_id: Option<String>,
    pub email: Option<String>,
    pub user_id: Option<String>,
    pub plan_type: Option<String>,
    pub fedramp: bool,
}

/// A share of a usage limit, in percent. The number itself is a floating-point number, kept by its
/// bits; what is reckoned with stands beside it.
#[derive(Debug)]
pub struct UsedPercent {
    /// The bits of the number.
    pub bits: u64,
    /// The nearest whole number from 0 to 255.
    pub rounded: u8,
    /// The whole tenths of a percent.
    pub tenths: i64,
    /// The number as people read it.
    pub display: String,
}

/// How far an account's usage limits are used up, in the short and in the long run.
#[derive(Debug)]
pub struct AccountUsageSnapshot {
    pub limit_id: Option<String>,
    pub plan_type: Option<String>,
    pub primary_used_percent: Option<UsedPercent>,
    pub primary_window_minutes: Option<i64>,
    pub primary_resets_at: Option<i64>,
    pub secondary_used_percent: Option<UsedPercent>,
    pub secondary_window_minutes: Option<i64>,
    pub secondary_resets_at: Option<i64>,
}

/// What there is to tell of an account.
#[derive(Debug)]
pub struct AccountSummary {
    pub id: String,
    pub state: AccountState,
    pub used_percent: Option<u8>,
    pub resets_at: Option<i64>,
    pub cooldown_until: Option<i64>,
    pub inflight: usize,
    pub recent_failures: u32,
    pub codex_home: String,
    pub auth: AccountAuthSnapshot,
    pub usage: Option<AccountUsageSnapshot>,
}

impl AccountSummary {
    /// The summary tells how the account is doing at `now`.
    pub open spec fn tells(self, handle: HandleView, now: int) -> bool {
        &&& self.id@ == handle.record.id
        &&& self.state == handle.record.state
        &&& self.used_percent == handle.record.used_percent
        &&& self.resets_at == handle.record.resets_at
        &&& self.cooldown_until == if handle.cooldown_until > now {
            Some(handle.cooldown_until)
        } else {
            None
        }
        &&& self.inflight == handle.inflight
        &&& self.recent_failures == handle.recent_failures
        &&& self.codex_home@ == handle.record.codex_home
    }
}

/// What the credentials of an account tell of it.
pub struct AuthFacts {
    /// The kind of login.
    pub auth_mode: String,
    pub account_id: Option<String>,
    pub email: Option<String>,
    pub user_id: Option<String>,
    /// The plan in JSON.
    pub plan_type_json: Option<String>,
    pub fedramp: bool,
}

/// The plan in JSON without the quotes around it.
pub open spec fn plan_name(json: Option<Seq<char>>) -> Option<Seq<char>> {
    match json {
        Some(json) => Some(text::unquoted(json)),
        None => None,
    }
}

fn plan_type(json: &Option<String>) -> (r: Option<String>)
    ensures
        text::text_in(r) == plan_name(text::text_in(*json)),
{
    match json {
        Some(json) => Some(text::trim_quotes(json.as_str()).to_string()),
        None => None,
    }
}

/// Who an account with the given credentials is logged in as.
pub fn auth_snapshot(facts: Option<AuthFacts>) -> (r: AccountAuthSnapshot)
    ensures
        r.authenticated == (facts is Some),
        match facts {
            Some(facts) => {
                &&& text::text_in(r.auth_mode) == Some(text::lowered(facts.auth_mode@))
                &&& r.account_id == facts.account_id
                &&& r.email == facts.email
                &&& r.user_id == facts.user_id
                &&& text::text_in(r.plan_type) == plan_name(text::text_in(facts.plan_type_json))
                &&& r.fedramp == facts.fedramp
            },
            None => {
                &&& r.auth_mode is None
                &&& r.account_id is None
                &&& r.email is None
                &&& r.user_id is None
                &&& r.plan_type is None
                &&& !r.fedramp
            },
        },
{
    match facts {
        Some(facts) => AccountAuthSnapshot {
            authenticated: true,
            auth_mode: Some(text::to_lower(facts.auth_mode.as_str())),
            account_id: facts.account_id,
            email: facts.email,
            user_id: facts.user_id,
            plan_type: plan_type(&facts.plan_type_json),
            fedramp: facts.fedramp,
        },
        None => AccountAuthSnapshot {
            authenticated: false,
            auth_mode: None,
            account_id: None,
            email: None,
            user_id: None,
            plan_type: None,
            fedramp: false,
        },
    }
}

/// One usage limit of an account.
pub struct UsageWindow {
    pub used_percent: UsedPercent,
    pub window_minutes: Option<i64>,
    pub resets_at: Option<i64>,
}

/// The usage limits of an account, as the upstream tells them.
pub struct RateLimits {
    pub limit_id: Option<String>,
    /// The plan in JSON.
    pub plan_type_json: Option<String>,
    pub primary: Option<UsageWindow>,
    pub secondary: Option<UsageWindow>,
}

fn open_window(window: Option<UsageWindow>) -> (r: (Option<UsedPercent>, Option<i64>, Option<i64>))
    ensures
        match window {
            Some(window) => r == (
                Some(window.used_percent),
                window.window_minutes,
                window.resets_at,
            ),
            None => r == (None::<UsedPercent>, None::<i64>, None::<i64>),
        },
{
    match window {
        Some(window) => (Some(window.used_percent), window.window_minutes, window.resets_at),
        None => (None, None, None),
    }
}

/// How far the given usage limits are used up.
pub fn usage_snapshot(limits: RateLimits) -> (r: AccountUsageSnapshot)
    ensures
        r.limit_id == limits.limit_id,
        text::text_in(r.plan_type) == plan_name(text::text_in(limits.plan_type_json)),
        match limits.primary {
            Some(window) => {
                &&& r.primary_used_percent == Some(window.used_percent)
                &&& r.primary_window_minutes == window.window_minutes
                &&& r.primary_resets_at == window.resets_at
            },
            None => {
                &&& r.primary_used_percent is None
                &&& r.primary_window_minutes is None
                &&& r.primary_resets_at is None
            },
        },
        match limits.secondary {
            Some(window) => {
                &&& r.secondary_used_percent == Some(window.used_percent)
                &&& r.secondary_window_minutes == window.window_minutes
                &&& r.secondary_resets_at == window.resets_at
            },
            None => {
                &&& r.secondary_used_percent is None
                &&& r.secondary_window_minutes is None
                &&& r.secondary_resets_at is None
            },
        },
{
    let plan_type = plan_type(&limits.plan_type_json);
    let (primary_used_percent, primary_window_minutes, primary_resets_at) = open_window(
        limits.primary,
    );
    let (secondary_used_percent, secondary_window_minutes, secondary_resets_at) = open_window(
        limits.secondary,
    );
    AccountUsageSnapshot {
        limit_id: limits.limit_id,
        plan_type,
        primary_used_percent,
        primary_window_minutes,
        primary_resets_at,
        secondary_used_percent,
        secondary_window_minutes,
        secondary_resets_at,
    }
}

/// Why an account cannot be used for a request.
#[derive(Debug)]
pub enum ResolveAuthError {
    /// It is not logged in.
    NotAuthenticated,
    /// Its token cannot be had, for the given reason.
    Token(String),
}

impl ResolveAuthError {
    /// What the error says.
    pub open spec fn text(self) -> Seq<char> {
        match self {
            ResolveAuthError::NotAuthenticated => "account is not authenticated"@,
            ResolveAuthError::Token(reason) => "failed to resolve bearer token: "@ + reason@,
        }
    }

    /// What the error says.
    pub fn message(&self) -> (s: String)
        ensures
            s@ == self.text(),
    {
        match self {
            ResolveAuthError::NotAuthenticated => "account is not authenticated".to_string(),
            ResolveAuthError::Token(reason) => "failed to resolve bearer token: ".to_string().concat(
                reason.as_str(),
            ),
        }
    }
}

/// What an account's requests are authorized with.
#[derive(Debug)]
pub struct ResolvedUpstreamAuth {
    pub bearer_token: String,
    pub chatgpt_account_id: Option<String>,
    pub is_fedramp_account: bool,
}

/// What an account's requests are authorized with, as mathematics sees it.
pub struct AuthView {
    pub bearer_token: Seq<char>,
    pub chatgpt_account_id: Option<Seq<char>>,
    pub is_fedramp_account: bool,
}

impl ResolvedUpstreamAuth {
    pub open spec fn view(&self) -> AuthView {
        AuthView {
            bearer_token: self.bearer_token@,
            chatgpt_account_id: text::text_in(self.chatgpt_account_id),
            is_fedramp_account: self.is_fedramp_account,
        }
    }
}

/// The credentials of an account for requests.
pub struct TokenFacts {
    /// The token, or why it cannot be had.
    pub token: Result<String, String>,
    pub account_id: Option<String>,
    pub fedramp: bool,
}

/// What the requests of an account with the given credentials are authorized with.
pub fn resolve_upstream_auth(facts: Option<TokenFacts>) -> (r: Result<
    ResolvedUpstreamAuth,
    ResolveAuthError,
>)
    ensures
        match facts {
            None => r == Err::<ResolvedUpstreamAuth, _>(ResolveAuthError::NotAuthenticated),
            Some(facts) => match facts.token {
                Err(reason) => r == Err::<ResolvedUpstreamAuth, _>(ResolveAuthError::Token(reason)),
                Ok(token) => r == Ok::<_, ResolveAuthError>(
                    (ResolvedUpstreamAuth {
                        bearer_token: token,
                        chatgpt_account_id: facts.account_id,
                        is_fedramp_account: facts.fedramp,
                    }),
                ),
            },
        },
{
    match facts {
        None => Err(ResolveAuthError::NotAuthenticated),
        Some(facts) => match facts.token {
            Err(reason) => Err(ResolveAuthError::Token(reason)),
            Ok(bearer_token) => Ok(
                ResolvedUpstreamAuth {
                    bearer_token,
                    chatgpt_account_id: facts.account_id,
                    is_fedramp_account: facts.fedramp,
                },
            ),
        },
    }
}

/// Why a request finds no account.
#[derive(Debug)]
pub enum RouteError {
    /// There are no accounts.
    NoAccountsConfigured,
    /// The token of the chosen account cannot be had.
    AccountAuthFailed { account_id: String },
    /// No account that may be chosen takes new requests and is logged in.
    NoEligibleAccounts { requested_account_id: Option<String> },
}

/// Why a request finds no account, as mathematics sees it.
pub enum RouteErrorView {
    NoAccountsConfigured,
    AccountAuthFailed { account_id: Seq<char> },
    NoEligibleAccounts { requested_account_id: Option<Seq<char>> },
}

impl RouteErrorView {
    /// What the error says.
    pub open spec fn text(self) -> Seq<char> {
        match self {
            RouteErrorView::NoAccountsConfigured => "no upstream accounts are configured"@,
            RouteErrorView::AccountAuthFailed { account_id } =>
                "failed to resolve auth for account "@ + account_id,
            RouteErrorView::NoEligibleAccounts { requested_account_id } =>
                "no eligible authenticated account found for account id "@ + text::debug_option(
                    requested_account_id,
                ),
        }
    }
}

impl RouteError {
    pub open spec fn view(&self) -> RouteErrorView {
        match self {
            RouteError::NoAccountsConfigured => RouteErrorView::NoAccountsConfigured,
            RouteError::AccountAuthFailed { account_id } => RouteErrorView::AccountAuthFailed {
                account_id: account_id@,
            },
            RouteError::NoEligibleAccounts { requested_account_id } =>
                RouteErrorView::NoEligibleAccounts {
                    requested_account_id: text::text_in(*requested_account_id),
                },
        }
    }

    /// What the error says.
    pub fn message(&self) -> (s: String)
        ensures
            s@ == self@.text(),
    {
        match self {
            RouteError::NoAccountsConfigured => "no upstream accounts are configured".to_string(),
            RouteError::AccountAuthFailed { account_id } =>
                "failed to resolve auth for account ".to_string().concat(account_id.as_str()),
            RouteError::NoEligibleAccounts { requested_account_id } =>
                "no eligible authenticated account found for account id ".to_string().concat(
                    text::debug_text(requested_account_id).as_str(),
                ),
        }
    }
}

/// An account that was rate limited takes no new requests before its rest is over. From then on it
/// is healthy, and takes them unless it is near its usage limit.
pub proof fn law_limited_account_rests(
    handle: HandleView,
    until: i64,
    used_percent: Option<u8>,
    now: int,
)
    ensures
        now < until ==> !handle.after_limit(until, used_percent).accepts(now),
        now < until ==> handle.after_limit(until, used_percent).cleared(now)
            == handle.after_limit(until, used_percent),
        until <= now ==> {
            let after = handle.after_limit(until, used_percent);
            &&& after.cleared(now).record.state == AccountState::Healthy
            &&& after.accepts(now) == after.has_headroom()
        },
{
}

/// After a success nothing is held against an account that can be chosen: it takes new requests
/// unless it is near its usage limit.
pub proof fn law_success_clears_the_account(handle: HandleView, now: int)
    requires
        0 <= now,
    ensures
        handle.after_success().recent_failures == 0,
        handle.after_success().accepts(now) == handle.accepts_sometime(),
{
}

/// A lease that is given back leaves no trace.
pub proof fn law_returned_lease_leaves_no_trace(handle: HandleView)
    ensures
        handle.with_lease().without_lease() == handle,
        handle.without_lease().with_lease() == handle,
{
}

/// A request under way, or one that failed, makes an account a worse choice.
pub proof fn law_load_lowers_the_score(handle: HandleView)
    ensures
        handle.inflight < 0x7fff_ffff ==> handle.with_lease().score() == handle.score() - 10,
        handle.recent_failures < 0x7fff_ffff ==> handle.after_failure().score() == handle.score()
            - 20,
{
}

/// Lifting a rate limit whose time is over changes neither whether an account takes new requests nor
/// its score.
pub proof fn law_clearing_changes_no_score(handle: HandleView, now: int)
    ensures
        handle.cleared(now).accepts(now) == handle.accepts(now),
        handle.cleared(now).score_at(now) == handle.score_at(now),
        handle.cleared(now).cleared(now) == handle.cleared(now),
        handle.cleared(now).scorable_at(now) == handle.scorable_at(now),
{
}

/// Which accounts can be chosen: those that are healthy or cooling down, and no others.
pub proof fn law_candidate_states(state: AccountState)
    ensures
        state.candidate() <==> !(state == AccountState::RateLimited || state
            == AccountState::NeedsReauth || state == AccountState::Disabled),
{
}

/// When an account takes new requests: once it has rested, unless it is disabled or has to log in
/// again, and as long as less than 95 percent of its usage limit is known to be used up.
pub proof fn law_when_requests_are_accepted(handle: HandleView, now: int)
    ensures
        now < handle.cooldown_until ==> !handle.accepts(now),
        handle.record.state == AccountState::Disabled ==> !handle.accepts(now),
        handle.record.state == AccountState::NeedsReauth ==> !handle.accepts(now),
        handle.record.used_percent matches Some(used) && used >= 95 ==> !handle.accepts(now),
        handle.accepts(now) || now < handle.cooldown_until || handle.record.state
            == AccountState::Disabled || handle.record.state == AccountState::NeedsReauth || (
        handle.record.used_percent matches Some(used) && used >= 95),
        handle.score_at(now) is Some <==> handle.accepts(now),
{
}

/// How good a choice an account is: what is left of its usage limit, and its preference. Being at 85
/// percent or more costs 25, cooling down 20, each request under way 10 and each failed one 20.
pub proof fn law_score(handle: HandleView, now: int)
    requires
        handle.accepts(now),
        handle.inflight <= i32::MAX,
        handle.recent_failures <= i32::MAX,
    ensures
        ({
            let used: int = match handle.record.used_percent {
                Some(used) => used as int,
                None => 0,
            };
            let near: int = if used >= 85 {
                25
            } else {
                0
            };
            let cooling: int = if handle.record.state == AccountState::CoolingDown {
                20
            } else {
                0
            };
            handle.score_at(now) == Some(
                100 + handle.record.preference - used - near - cooling - 10 * handle.inflight - 20
                    * handle.recent_failures,
            )
        }),
{
}

/// Of two accounts that are otherwise alike, the one that has used less, is preferred more, has fewer
/// requests under way, has failed less often or is not cooling down is the better choice.
pub proof fn law_better_account_scores_higher(a: HandleView, b: HandleView, now: int)
    requires
        a.accepts(now),
        b.accepts(now),
        a.inflight <= b.inflight <= i32::MAX,
        a.recent_failures <= b.recent_failures <= i32::MAX,
        a.record.preference >= b.record.preference,
        a.record.used_percent matches Some(used) ==> b.record.used_percent is Some && used
            <= b.record.used_percent->0,
        a.record.state == AccountState::CoolingDown ==> b.record.state == AccountState::CoolingDown,
    ensures
        a.score_at(now)->0 >= b.score_at(now)->0,
        a.inflight < b.inflight ==> a.score_at(now)->0 > b.score_at(now)->0,
        a.recent_failures < b.recent_failures ==> a.score_at(now)->0 > b.score_at(now)->0,
        a.record.preference > b.record.preference ==> a.score_at(now)->0 > b.score_at(now)->0,
        a.record.state != AccountState::CoolingDown && b.record.state == AccountState::CoolingDown
            ==> a.score_at(now)->0 > b.score_at(now)->0,
{
    law_score(a, now);
    law_score(b, now);
}

/// The score of an account whose preference and load are moderate always fits.
pub proof fn law_moderate_scores_fit(handle: HandleView, now: int)
    requires
        -1_000_000_000 <= handle.record.preference <= 1_000_000_000,
        handle.inflight <= 10_000_000,
        handle.recent_failures <= 10_000_000,
    ensures
        handle.scorable_at(now),
        handle.scorable(),
{
}

/// A score that is told is one that each step of the reckoning could hold: where it does not fit, the
/// account's preference or load is beyond all measure, and never is a score told that was cut off.
pub proof fn law_scores_that_do_not_fit(handle: HandleView, now: int)
    requires
        handle.accepts(now),
        !handle.scorable_at(now),
    ensures
        handle.record.preference > 1_000_000_000 || handle.record.preference < -1_000_000_000
            || handle.inflight > 10_000_000 || handle.recent_failures > 10_000_000,
{
    if -1_000_000_000 <= handle.record.preference <= 1_000_000_000 && handle.inflight <= 10_000_000
        && handle.recent_failures <= 10_000_000 {
        law_moderate_scores_fit(handle, now);
    }
}

/// A looked-up usage is taken over from the short-run limit alone: the stored share is its rounded
/// share, and is not known where that is not known, and the stored reset is its reset. Two lookups
/// that agree on the short-run limit come to the same, whatever they tell of the long run.
pub proof fn law_short_run_usage_is_stored(
    handle: HandleView,
    usage: AccountUsageSnapshot,
    other: AccountUsageSnapshot,
    now: int,
)
    ensures
        ({
            let after = after_lookup(handle, usage, now);
            &&& usage.primary_used_percent matches Some(used) ==> after.record.used_percent == Some(
                used.rounded,
            )
            &&& usage.primary_used_percent is None ==> after.record.used_percent is None
            &&& after.record.resets_at == usage.primary_resets_at
            &&& usage.primary_used_percent == other.primary_used_percent && usage.primary_resets_at
                == other.primary_resets_at ==> after == after_lookup(handle, other, now)
        }),
{
}

/// An account whose short-run limit is found to be used up to 95 percent or more takes no new requests
/// at any time, and one that is otherwise free to takes them where it is used less.
pub proof fn law_looked_up_limit_is_respected(
    handle: HandleView,
    usage: AccountUsageSnapshot,
    now: int,
    later: int,
)
    ensures
        usage.primary_used_percent matches Some(used) && used.rounded >= 95 ==> !after_lookup(
            handle,
            usage,
            now,
        ).accepts(later),
        (usage.primary_used_percent matches Some(used) ==> used.rounded < 95)
            && handle.cooldown_until <= later && handle.record.state != AccountState::Disabled
            && handle.record.state != AccountState::NeedsReauth ==> after_lookup(
            handle,
            usage,
            now,
        ).accepts(later),
{
}

/// Looking up the usage of an account changes nothing else of it, but that a rate limit whose time is
/// over is lifted.
pub proof fn law_lookup_keeps_the_rest(
    handle: HandleView,
    usage: AccountUsageSnapshot,
    now: int,
)
    ensures
        ({
            let after = after_lookup(handle, usage, now);
            &&& after.record.id == handle.record.id
            &&& after.record.preference == handle.record.preference
            &&& after.record.codex_home == handle.record.codex_home
            &&& after.inflight == handle.inflight
            &&& after.recent_failures == handle.recent_failures
            &&& after.cooldown_until == handle.cooldown_until
            &&& after.record.state == if handle.record.state == AccountState::RateLimited
                && handle.cooldown_until <= now {
                AccountState::Healthy
            } else {
                handle.record.state
            }
        }),
{
}

/// A rate limit whose time is over is lifted, and nothing else is changed by the passing of time.
pub proof fn law_time_lifts_only_rate_limits(handle: HandleView, now: int)
    ensures
        handle.record.state != AccountState::RateLimited ==> handle.cleared(now) == handle,
        now < handle.cooldown_until ==> handle.cleared(now) == handle,
        handle.record.state == AccountState::RateLimited && handle.cooldown_until <= now ==> {
            &&& handle.cleared(now).record.state == AccountState::Healthy
            &&& handle.cleared(now).record.id == handle.record.id
            &&& handle.cleared(now).record.used_percent == handle.record.used_percent
            &&& handle.cleared(now).record.resets_at == handle.record.resets_at
            &&& handle.cleared(now).record.preference == handle.record.preference
            &&& handle.cleared(now).record.codex_home == handle.record.codex_home
            &&& handle.cleared(now).inflight == handle.inflight
            &&& handle.cleared(now).recent_failures == handle.recent_failures
            &&& handle.cleared(now).cooldown_until == handle.cooldown_until
        },
{
}

/// A success ends a rest and a rate limit and forgets failures, and touches nothing else.
pub proof fn law_success_touches_nothing_else(handle: HandleView)
    ensures
        ({
            let after = handle.after_success();
            &&& after.recent_failures == 0
            &&& after.cooldown_until == 0
            &&& after.record.state == if handle.record.state == AccountState::RateLimited {
                AccountState::Healthy
            } else {
                handle.record.state
            }
            &&& after.record.id == handle.record.id
            &&& after.record.used_percent == handle.record.used_percent
            &&& after.record.resets_at == handle.record.resets_at
            &&& after.record.preference == handle.record.preference
            &&& after.record.codex_home == handle.record.codex_home
            &&& after.inflight == handle.inflight
        }),
{
}

/// A failure is counted, and touches nothing else: the account is not put to rest for it.
pub proof fn law_failure_is_counted(handle: HandleView, now: int)
    ensures
        handle.recent_failures < u32::MAX ==> handle.after_failure().recent_failures
            == handle.recent_failures + 1,
        handle.after_failure().record == handle.record,
        handle.after_failure().inflight == handle.inflight,
        handle.after_failure().cooldown_until == handle.cooldown_until,
        handle.after_failure().accepts(now) == handle.accepts(now),
{
}

/// A rate limit is noted: the account rests up to the given time, which is also when its limit is told
/// to start afresh. Its use is taken over where it is told, and kept otherwise. Nothing else changes.
pub proof fn law_limit_is_noted(handle: HandleView, until: i64, used_percent: Option<u8>)
    ensures
        ({
            let after = handle.after_limit(until, used_percent);
            &&& after.record.state == AccountState::RateLimited
            &&& after.cooldown_until == until
            &&& after.record.resets_at == Some(until)
            &&& used_percent is Some ==> after.record.used_percent == used_percent
            &&& used_percent is None ==> after.record.used_percent == handle.record.used_percent
            &&& after.record.id == handle.record.id
            &&& after.record.preference == handle.record.preference
            &&& after.record.codex_home == handle.record.codex_home
            &&& after.inflight == handle.inflight
            &&& after.recent_failures == handle.recent_failures
        }),
{
}

/// A rest ends when the upstream says so, and five minutes later where it says nothing.
pub proof fn law_rest_ends(resets_at: Option<i64>, now: i64)
    requires
        now <= i64::MAX - 300,
    ensures
        resets_at matches Some(end) ==> limit_end(resets_at, now) == end,
        resets_at is None ==> limit_end(resets_at, now) - now == 300,
{
}

/// A lease counts one request under way, and touches nothing else.
pub proof fn law_lease_counts_one_request(handle: HandleView)
    ensures
        handle.inflight < usize::MAX ==> handle.with_lease().inflight == handle.inflight + 1,
        handle.inflight > 0 ==> handle.without_lease().inflight == handle.inflight - 1,
        handle.with_lease().record == handle.record,
        handle.with_lease().recent_failures == handle.recent_failures,
        handle.with_lease().cooldown_until == handle.cooldown_until,
        handle.without_lease().record == handle.record,
        handle.without_lease().recent_failures == handle.recent_failures,
        handle.without_lease().cooldown_until == handle.cooldown_until,
{
}

/// A new account has the id, the preference and the directory that it was given, takes new requests at
/// once, and scores 100 more than its preference.
pub proof fn law_new_account_is_ready(
    preference: i32,
    id: Seq<char>,
    codex_home: Seq<char>,
    now: int,
)
    requires
        0 <= now,
    ensures
        ({
            let account = fresh(created(preference, id, codex_home));
            &&& account.record.id == id
            &&& account.record.preference == preference
            &&& account.record.codex_home == codex_home
            &&& account.record.used_percent is None
            &&& account.record.resets_at is None
            &&& account.accepts(now)
            &&& account.score_at(now) == Some(100 + preference)
        }),
{
}

/// An account that is loaded has nothing under way, no failures and no rest, and is as it was stored.
pub proof fn law_loaded_account_is_as_stored(record: AccountView)
    ensures
        fresh(record).record == record,
        fresh(record).inflight == 0,
        fresh(record).recent_failures == 0,
        fresh(record).cooldown_until == 0,
{
}

/// A summary tells each thing that is stored of an account, the requests under way and those that
/// failed, and a rest only while it lasts.
pub proof fn law_summary_tells_the_account(summary: AccountSummary, handle: HandleView, now: int)
    requires
        summary.tells(handle, now),
    ensures
        summary.id@ == handle.record.id,
        summary.state == handle.record.state,
        summary.used_percent == handle.record.used_percent,
        summary.resets_at == handle.record.resets_at,
        summary.inflight == handle.inflight,
        summary.recent_failures == handle.recent_failures,
        summary.codex_home@ == handle.record.codex_home,
        now < handle.cooldown_until ==> summary.cooldown_until == Some(handle.cooldown_until),
        handle.cooldown_until <= now ==> summary.cooldown_until is None,
{
}

/// A plan is told without the quotes around it, and as it is where there are none.
pub proof fn law_plan_is_told_without_quotes(plan: Seq<char>)
    requires
        plan.len() > 0 ==> plan[0] != '"' && plan.last() != '"',
    ensures
        plan_name(Some(plan)) == Some(plan),
        plan_name(Some(seq!['"'] + plan + seq!['"'])) == Some(plan),
        plan_name(None) is None,
{
    text::law_unquoted(plan);
    text::law_unquoted(seq!['"'] + plan + seq!['"']);
    text::lemma_unquoted(plan);
}

/// Refreshing the usage of an account stores the rounded share of the short-run limit and its reset,
/// whatever is told of the long run, and an account at 95 percent of it or more then takes no requests.
/// Where no usage was found, nothing changes.
pub proof fn law_refreshing_usage(
    handle: &mut AccountHandle,
    usage: Option<&AccountUsageSnapshot>,
    now: i64,
    changed: bool,
    later: int,
)
    requires
        call_ensures(AccountHandle::refresh_usage_state_at, (handle, usage, now), changed),
    ensures
        usage is None ==> !changed && final(handle)@ == old(handle)@,
        usage matches Some(found) ==> {
            let before = old(handle)@;
            let after = final(handle)@;
            &&& changed
            &&& found.primary_used_percent matches Some(used) ==> after.record.used_percent == Some(
                used.rounded,
            )
            &&& found.primary_used_percent is None ==> after.record.used_percent is None
            &&& after.record.resets_at == found.primary_resets_at
            &&& found.primary_used_percent is Some && found.primary_used_percent->0.rounded >= 95
                ==> !after.accepts(later)
            &&& after.record.id == before.record.id
            &&& after.record.preference == before.record.preference
            &&& after.record.codex_home == before.record.codex_home
            &&& after.cooldown_until == before.cooldown_until
            &&& after.inflight == before.inflight
            &&& after.recent_failures == before.recent_failures
        },
{
    if let Some(found) = usage {
        law_short_run_usage_is_stored(handle@, *found, *found, now as int);
        law_looked_up_limit_is_respected(handle@, *found, now as int, later);
        law_lookup_keeps_the_rest(handle@, *found, now as int);
    }
}

/// An account that is asked whether it takes new requests says so exactly if it has rested, is neither
/// disabled nor has to log in again, and is not known to be at 95 percent of its limit or more.
pub proof fn law_accepting_requests(handle: &mut AccountHandle, now: i64, r: bool)
    requires
        call_ensures(AccountHandle::accepting_new_requests_at, (handle, now), r),
    ensures
        ({
            let before = old(handle)@;
            r <==> {
                &&& before.cooldown_until <= now
                &&& before.record.state != AccountState::Disabled
                &&& before.record.state != AccountState::NeedsReauth
                &&& before.record.used_percent is None || before.record.used_percent->0 < 95
            }
        }),
        final(handle)@.record.used_percent == old(handle)@.record.used_percent,
        final(handle)@.cooldown_until == old(handle)@.cooldown_until,
{
    law_when_requests_are_accepted(handle@, now as int);
    law_time_lifts_only_rate_limits(handle@, now as int);
}

/// The score of an account that takes new requests, told from what is known of it.
pub proof fn law_scoring(handle: &mut AccountHandle, now: i64, r: Option<i32>)
    requires
        call_ensures(AccountHandle::score_at, (handle, now), r),
        old(handle)@.inflight <= i32::MAX,
        old(handle)@.recent_failures <= i32::MAX,
    ensures
        r is Some <==> old(handle)@.accepts(now as int),
        r matches Some(score) ==> {
            let before = old(handle)@;
            let used: int = match before.record.used_percent {
                Some(used) => used as int,
                None => 0,
            };
            let near: int = if used >= 85 {
                25
            } else {
                0
            };
            let cooling: int = if before.record.state == AccountState::CoolingDown {
                20
            } else {
                0
            };
            score == 100 + before.record.preference - used - near - cooling - 10 * before.inflight
                - 20 * before.recent_failures
        },
{
    if handle@.accepts(now as int) {
        law_score(handle@, now as int);
    }
    law_when_requests_are_accepted(handle@, now as int);
}

/// A rate limit puts an account to rest up to the time that is told, else for five minutes.
pub proof fn law_noting_a_limit(
    handle: &mut AccountHandle,
    resets_at: Option<i64>,
    used_percent: Option<u8>,
    now: i64,
    r: (),
)
    requires
        call_ensures(
            AccountHandle::note_rate_limited_at,
            (handle, resets_at, used_percent, now),
            r,
        ),
        now <= i64::MAX - 300,
    ensures
        ({
            let before = old(handle)@;
            let after = final(handle)@;
            &&& resets_at matches Some(end) ==> after.cooldown_until == end
            &&& resets_at is None ==> after.cooldown_until == now + 300
            &&& after.record.resets_at == Some(after.cooldown_until)
            &&& after.record.state == AccountState::RateLimited
            &&& used_percent is Some ==> after.record.used_percent == used_percent
            &&& used_percent is None ==> after.record.used_percent == before.record.used_percent
            &&& after.recent_failures == before.recent_failures
            &&& after.inflight == before.inflight
            &&& after.record.id == before.record.id
            &&& after.record.preference == before.record.preference
        }),
{
    law_rest_ends(resets_at, now);
    law_limit_is_noted(handle@, limit_end(resets_at, now), used_percent);
}

/// A success forgets failures and ends a rest; a failure is counted and changes nothing else.
pub proof fn law_noting_outcomes(good: &mut AccountHandle, bad: &mut AccountHandle, r: (), s: ())
    requires
        call_ensures(AccountHandle::note_success, (good,), r),
        call_ensures(AccountHandle::note_failure, (bad,), s),
    ensures
        final(good)@.recent_failures == 0,
        final(good)@.cooldown_until == 0,
        final(good)@.record.state != AccountState::RateLimited,
        old(good)@.record.state != AccountState::RateLimited ==> final(good)@.record == old(
            good,
        )@.record,
        final(good)@.inflight == old(good)@.inflight,
        old(bad)@.recent_failures < u32::MAX ==> final(bad)@.recent_failures == old(
            bad,
        )@.recent_failures + 1,
        final(bad)@.record == old(bad)@.record,
        final(bad)@.cooldown_until == old(bad)@.cooldown_until,
        final(bad)@.inflight == old(bad)@.inflight,
{
}

/// The limits of an account are told as the upstream tells them: the short run under the first names,
/// the long run under the second ones, and what is not there is not told.
pub proof fn law_usage_snapshot(limits: RateLimits, r: AccountUsageSnapshot)
    requires
        call_ensures(usage_snapshot, (limits,), r),
    ensures
        r.limit_id == limits.limit_id,
        limits.plan_type_json is Some ==> r.plan_type is Some && r.plan_type->0@ == text::unquoted(
            limits.plan_type_json->0@,
        ),
        limits.plan_type_json is None ==> r.plan_type is None,
        r.primary_used_percent is Some <==> limits.primary is Some,
        r.secondary_used_percent is Some <==> limits.secondary is Some,
        limits.primary matches Some(window) ==> r.primary_used_percent == Some(window.used_percent)
            && r.primary_window_minutes == window.window_minutes && r.primary_resets_at
            == window.resets_at,
        limits.secondary matches Some(window) ==> r.secondary_used_percent == Some(
            window.used_percent,
        ) && r.secondary_window_minutes == window.window_minutes && r.secondary_resets_at
            == window.resets_at,
        limits.primary is None ==> r.primary_window_minutes is None && r.primary_resets_at is None,
        limits.secondary is None ==> r.secondary_window_minutes is None
            && r.secondary_resets_at is None,
{
}

/// An account is told to be logged in exactly if it has credentials, and then with all that they tell.
pub proof fn law_auth_snapshot(facts: Option<AuthFacts>, r: AccountAuthSnapshot)
    requires
        call_ensures(auth_snapshot, (facts,), r),
    ensures
        r.authenticated <==> facts is Some,
        facts matches Some(known) ==> r.account_id == known.account_id && r.email == known.email
            && r.user_id == known.user_id && r.fedramp == known.fedramp && r.auth_mode is Some
            && r.auth_mode->0@ == text::lowered(known.auth_mode@),
        facts is Some && facts->0.plan_type_json is Some ==> r.plan_type is Some && r.plan_type->0@
            == text::unquoted(facts->0.plan_type_json->0@),
        facts is Some && facts->0.plan_type_json is None ==> r.plan_type is None,
        facts is None ==> r.account_id is None && r.email is None && r.user_id is None
            && r.plan_type is None && r.auth_mode is None && !r.fedramp,
{
}

/// A request is authorized with the token, the id and the kind of its account exactly if there is a
/// token. Having no login and having no token are told apart.
pub proof fn law_resolving_auth(
    facts: Option<TokenFacts>,
    r: Result<ResolvedUpstreamAuth, ResolveAuthError>,
)
    requires
        call_ensures(resolve_upstream_auth, (facts,), r),
    ensures
        facts is None ==> r matches Err(ResolveAuthError::NotAuthenticated),
        facts is Some && facts->0.token is Err ==> r matches Err(ResolveAuthError::Token(_)),
        facts is Some && facts->0.token is Ok ==> {
            &&& r is Ok
            &&& r->Ok_0.bearer_token == facts->0.token->Ok_0
            &&& r->Ok_0.chatgpt_account_id == facts->0.account_id
            &&& r->Ok_0.is_fedramp_account == facts->0.fedramp
        },
{
}

/// A summary tells each thing of an account, and the login and the usage that it was given.
pub proof fn law_summarizing(
    handle: &AccountHandle,
    auth: AccountAuthSnapshot,
    usage: Option<AccountUsageSnapshot>,
    now: i64,
    r: AccountSummary,
)
    requires
        call_ensures(AccountHandle::summary_at, (handle, auth, usage, now), r),
    ensures
        r.id@ == handle@.record.id,
        r.state == handle@.record.state,
        r.used_percent == handle@.record.used_percent,
        r.resets_at == handle@.record.resets_at,
        r.inflight == handle@.inflight,
        r.recent_failures == handle@.recent_failures,
        r.codex_home@ == handle@.record.codex_home,
        r.cooldown_until is Some <==> now < handle@.cooldown_until,
        r.cooldown_until matches Some(end) ==> end == handle@.cooldown_until,
        r.auth == auth,
        r.usage == usage,
{
    law_summary_tells_the_account(r, handle@, now as int);
}

/// What an error in choosing an account says: that there are none, which one could not log in, or which
/// one was asked for.
pub proof fn law_route_error_text(id: Seq<char>)
    ensures
        RouteErrorView::NoAccountsConfigured.text() == "no upstream accounts are configured"@,
        (RouteErrorView::AccountAuthFailed { account_id: id }).text()
            == "failed to resolve auth for account "@ + id,
        (RouteErrorView::NoEligibleAccounts { requested_account_id: None }).text()
            == "no eligible authenticated account found for account id "@ + "None"@,
        (RouteErrorView::NoEligibleAccounts { requested_account_id: Some(id) }).text()
            == "no eligible authenticated account found for account id "@ + ("Some("@
            + text::debug_quoted(id) + ")"@),
{
}

} // verus!
