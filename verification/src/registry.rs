//! The accounts that requests are routed across.

use vstd::prelude::*;

use crate::accounts;
use crate::accounts::AccountAuthSnapshot;
use crate::accounts::AccountHandle;
use crate::accounts::AccountSummary;
use crate::accounts::AccountUsageSnapshot;
use crate::accounts::AccountView;
use crate::accounts::CreateAccountRequest;
use crate::accounts::AccountState;
use crate::accounts::HandleView;
use crate::accounts::StoredAccount;
use crate::clock;
use crate::paths;
use crate::string_map::StringMap;
use crate::text;

verus! {

/// The accounts, and which of them the last request of a session went to. The choice of an account
/// does not look at the latter: every request goes to the best account there is.
///
/// An account keeps its number for good, also after it was deleted: a request that is under way on
/// it then still finds it.
pub struct AccountRegistry {
    handles: Vec<AccountHandle>,
    listed: Vec<usize>,
    session_affinity: StringMap<String>,
}

/// The accounts, as mathematics sees them.
pub struct RegistryView {
    /// Every account there has been, by its number.
    pub handles: Seq<HandleView>,
    /// The numbers of the accounts there are, in the order in which they came.
    pub listed: Seq<int>,
    /// The id of the account that the last request of a session went to, by the session's id.
    pub affinity: Map<Seq<char>, Seq<char>>,
}

/// The accounts behind their handles.
pub open spec fn handle_views(handles: Seq<AccountHandle>) -> Seq<HandleView> {
    handles.map_values(|h: AccountHandle| h@)
}

/// Account numbers.
pub open spec fn numbers(listed: Seq<usize>) -> Seq<int> {
    listed.map_values(|i: usize| i as int)
}

/// The texts of a map's values.
pub open spec fn text_map(map: Map<Seq<char>, String>) -> Map<Seq<char>, Seq<char>> {
    map.map_values(|s: String| s@)
}

/// The number of the first account of a list with an id.
pub open spec fn find(handles: Seq<HandleView>, listed: Seq<int>, id: Seq<char>) -> Option<int>
    decreases listed.len(),
{
    if listed.len() == 0 {
        None
    } else if handles[listed[0]].record.id == id {
        Some(listed[0])
    } else {
        find(handles, listed.drop_first(), id)
    }
}

/// The numbers of a list without those of the accounts with an id.
pub open spec fn without(handles: Seq<HandleView>, listed: Seq<int>, id: Seq<char>) -> Seq<int>
    decreases listed.len(),
{
    if listed.len() == 0 {
        Seq::empty()
    } else if handles[listed.last()].record.id == id {
        without(handles, listed.drop_last(), id)
    } else {
        without(handles, listed.drop_last(), id).push(listed.last())
    }
}

/// The directories of the accounts of a list with an id.
pub open spec fn homes_of(handles: Seq<HandleView>, listed: Seq<int>, id: Seq<char>) -> Seq<
    Seq<char>,
>
    decreases listed.len(),
{
    if listed.len() == 0 {
        Seq::empty()
    } else if handles[listed.last()].record.id == id {
        homes_of(handles, listed.drop_last(), id).push(handles[listed.last()].record.codex_home)
    } else {
        homes_of(handles, listed.drop_last(), id)
    }
}

impl RegistryView {
    /// The accounts there are.
    pub open spec fn accounts(self) -> Seq<HandleView> {
        self.listed.map_values(|i: int| self.handles[i])
    }

    /// What is stored of the accounts there are.
    pub open spec fn records(self) -> Seq<AccountView> {
        self.listed.map_values(|i: int| self.handles[i].record)
    }

    /// The number of the first account with an id.
    pub open spec fn find(self, id: Seq<char>) -> Option<int> {
        find(self.handles, self.listed, id)
    }

    /// The registry with an account changed. A number without an account changes nothing.
    pub open spec fn with_handle(self, account: int, handle: HandleView) -> RegistryView {
        if 0 <= account < self.handles.len() {
            RegistryView { handles: self.handles.update(account, handle), ..self }
        } else {
            self
        }
    }

    /// The registry with one more account.
    pub open spec fn with_account(self, record: AccountView) -> RegistryView {
        RegistryView {
            handles: self.handles.push(accounts::fresh(record)),
            listed: self.listed.push(self.handles.len() as int),
            ..self
        }
    }

    /// The registry without the accounts with an id.
    pub open spec fn without_account(self, id: Seq<char>) -> RegistryView {
        RegistryView { listed: without(self.handles, self.listed, id), ..self }
    }

    /// The registry with a note that a session's request went to an account.
    pub open spec fn bound(self, session: Option<Seq<char>>, id: Seq<char>) -> RegistryView {
        match session {
            Some(session) => RegistryView { affinity: self.affinity.insert(session, id), ..self },
            None => self,
        }
    }

    /// The registry without such a note for a session.
    pub open spec fn unbound(self, session: Option<Seq<char>>) -> RegistryView {
        match session {
            Some(session) => RegistryView { affinity: self.affinity.remove(session), ..self },
            None => self,
        }
    }

    /// Each account that is listed is there, and is listed once.
    pub open spec fn well_formed(self) -> bool {
        &&& forall|k: int| 0 <= k < self.listed.len() ==> 0 <= #[trigger] self.listed[k]
            < self.handles.len()
        &&& self.listed.no_duplicates()
    }
}

impl AccountRegistry {
    #[verifier::type_invariant]
    spec fn inv(self) -> bool {
        self@.well_formed()
    }

    /// The accounts.
    pub closed spec fn view(&self) -> RegistryView {
        RegistryView {
            handles: handle_views(self.handles@),
            listed: numbers(self.listed@),
            affinity: text_map(self.session_affinity@),
        }
    }

    /// A registry without accounts.
    pub fn new() -> (r: AccountRegistry)
        ensures
            r@.handles.len() == 0,
            r@.listed.len() == 0,
            r@.affinity == Map::<Seq<char>, Seq<char>>::empty(),
    {
        let r = AccountRegistry {
            handles: Vec::new(),
            listed: Vec::new(),
            session_affinity: StringMap::new(),
        };
        assert(r@.affinity =~= Map::<Seq<char>, Seq<char>>::empty());
        r
    }

    /// Takes the registry's contents out of it.
    fn take(&mut self) -> (r: AccountRegistry)
        ensures
            r == *old(self),
    {
        let mut r = AccountRegistry::new();
        std::mem::swap(&mut r, self);
        r
    }

    /// A registry with the given accounts, of which nothing but what is stored is known.
    pub fn load_or_create(stored: Vec<StoredAccount>) -> (r: AccountRegistry)
        ensures
            r@.records() == stored@.map_values(|s: StoredAccount| s@),
            r@.handles == stored@.map_values(|s: StoredAccount| accounts::fresh(s@)),
            r@.affinity == Map::<Seq<char>, Seq<char>>::empty(),
    {
        let ghost all = stored@;
        let mut handles: Vec<AccountHandle> = Vec::new();
        let mut listed: Vec<usize> = Vec::new();
        for record in it: stored
            invariant
                it.seq() == all,
                handles@.len() == it.index(),
                listed@.len() == it.index(),
                forall|k: int| 0 <= k < it.index() ==> (#[trigger] handles@[k])@ == accounts::fresh(
                    all[k]@,
                ),
                forall|k: int| 0 <= k < it.index() ==> #[trigger] listed@[k] == k,
        {
            listed.push(handles.len());
            handles.push(AccountHandle::new(record));
        }
        assert(text_map(Map::<Seq<char>, String>::empty()) =~= Map::<Seq<char>, Seq<char>>::empty());
        let r = AccountRegistry { handles, listed, session_affinity: StringMap::new() };
        assert(r@.records() =~= all.map_values(|s: StoredAccount| s@));
        assert(r@.handles =~= all.map_values(|s: StoredAccount| accounts::fresh(s@)));
        r
    }

    /// What is stored of the accounts there are.
    pub fn records(&self) -> (stored: Vec<StoredAccount>)
        ensures
            stored@.map_values(|s: StoredAccount| s@) == self@.records(),
    {
        proof {
            use_type_invariant(self);
        }
        let mut stored: Vec<StoredAccount> = Vec::new();
        for k in 0..self.listed.len()
            invariant
                self@.well_formed(),
                stored@.len() == k,
                forall|j: int| 0 <= j < k ==> (#[trigger] stored@[j])@ == self@.records()[j],
        {
            assert(0 <= self@.listed[k as int] < self@.handles.len());
            stored.push(self.handles[self.listed[k]].record());
        }
        assert(stored@.map_values(|s: StoredAccount| s@) =~= self@.records());
        stored
    }

    /// The numbers of the accounts there are.
    pub fn account_numbers(&self) -> (listed: Vec<usize>)
        ensures
            numbers(listed@) == self@.listed,
            self@.well_formed(),
    {
        proof {
            use_type_invariant(self);
        }
        let mut listed: Vec<usize> = Vec::new();
        for k in 0..self.listed.len()
            invariant
                listed@ == self.listed@.take(k as int),
        {
            listed.push(self.listed[k]);
            assert(self.listed@.take(k + 1) =~= self.listed@.take(k as int).push(
                self.listed@[k as int],
            ));
        }
        assert(self.listed@.take(self.listed@.len() as int) =~= self.listed@);
        listed
    }

    /// The number of the first account with an id.
    pub fn find_handle(&self, account_id: &str) -> (r: Option<usize>)
        ensures
            match r {
                Some(i) => self@.find(account_id@) == Some(i as int) && i < self@.handles.len(),
                None => self@.find(account_id@) is None,
            },
    {
        proof {
            use_type_invariant(self);
        }
        assert forall|k: int| 0 <= k < self.listed@.len() implies #[trigger] self.listed@[k]
            < self.handles@.len() by {
            assert(self@.listed[k] == self.listed@[k]);
        }
        find_number(&self.handles, &self.listed, account_id)
    }

    /// What is stored of the account with an id.
    pub fn get_record(&self, account_id: &str) -> (r: Option<StoredAccount>)
        ensures
            match r {
                Some(record) => {
                    &&& self@.find(account_id@) is Some
                    &&& record@ == self@.handles[self@.find(account_id@)->0].record
                },
                None => self@.find(account_id@) is None,
            },
    {
        match self.find_handle(account_id) {
            Some(i) => Some(self.handles[i].record()),
            None => None,
        }
    }

    /// What is stored of the account with a number.
    pub fn record_of(&self, account: usize) -> (r: Option<StoredAccount>)
        ensures
            match r {
                Some(record) => account < self@.handles.len() && record@
                    == self@.handles[account as int].record,
                None => account >= self@.handles.len(),
            },
    {
        if account < self.handles.len() {
            Some(self.handles[account].record())
        } else {
            None
        }
    }

    /// What there is to tell now of the account with a number.
    pub fn summary(
        &self,
        account: usize,
        auth: AccountAuthSnapshot,
        usage: Option<AccountUsageSnapshot>,
    ) -> (r: Option<AccountSummary>)
        ensures
            match r {
                Some(summary) => {
                    &&& account < self@.handles.len()
                    &&& exists|now: i64|
                        0 <= now && clock::is_timestamp(now as int) && #[trigger] summary.tells(
                            self@.handles[account as int],
                            now as int,
                        )
                    &&& summary.auth == auth
                    &&& summary.usage == usage
                },
                None => account >= self@.handles.len(),
            },
    {
        if account < self.handles.len() {
            let summary = self.handles[account].summary(auth, usage);
            assert(self@.handles[account as int] == self.handles@[account as int]@);
            Some(summary)
        } else {
            None
        }
    }

    /// What there is to tell now of the account with an id.
    pub fn get_summary(
        &self,
        account_id: &str,
        auth: AccountAuthSnapshot,
        usage: Option<AccountUsageSnapshot>,
    ) -> (r: Option<AccountSummary>)
        ensures
            match r {
                Some(summary) => {
                    &&& self@.find(account_id@) is Some
                    &&& exists|now: i64|
                        0 <= now && clock::is_timestamp(now as int) && #[trigger] summary.tells(
                            self@.handles[self@.find(account_id@)->0],
                            now as int,
                        )
                    &&& summary.auth == auth
                    &&& summary.usage == usage
                },
                None => self@.find(account_id@) is None,
            },
    {
        match self.find_handle(account_id) {
            Some(account) => {
                let r = self.summary(account, auth, usage);
                proof {
                    let now = choose|now: i64|
                        0 <= now && clock::is_timestamp(now as int) && #[trigger] r->0.tells(
                            self@.handles[account as int],
                            now as int,
                        );
                    assert(r->0.tells(self@.handles[self@.find(account_id@)->0], now as int));
                }
                r
            },
            None => None,
        }
    }

    /// What there is to tell now of the accounts with the given numbers. A number without an account
    /// is passed over.
    pub fn list_summaries(
        &self,
        asked: Vec<(usize, AccountAuthSnapshot, Option<AccountUsageSnapshot>)>,
    ) -> (r: Vec<AccountSummary>)
        ensures
            exists|now: i64|
                0 <= now && clock::is_timestamp(now as int) && #[trigger] summarizes(
                    r@,
                    asked@,
                    self@.handles,
                    now as int,
                ),
    {
        let now: i64 = clock::current_unix_seconds();
        self.list_summaries_at(asked, now)
    }

    /// What there is to tell at `now` of the accounts with the given numbers.
    pub fn list_summaries_at(
        &self,
        asked: Vec<(usize, AccountAuthSnapshot, Option<AccountUsageSnapshot>)>,
        now: i64,
    ) -> (r: Vec<AccountSummary>)
        ensures
            summarizes(r@, asked@, self@.handles, now as int),
    {
        let ghost all = asked@;
        let mut r: Vec<AccountSummary> = Vec::new();
        for item in it: asked
            invariant
                it.seq() == all,
                summarizes(r@, all.take(it.index()), self@.handles, now as int),
        {
            let ghost before = r@;
            let ghost k = it.index();
            assert(all.take(k + 1).drop_last() =~= all.take(k));
            let (account, auth, usage) = item;
            if account < self.handles.len() {
                r.push(self.handles[account].summary_at(auth, usage, now));
                assert(r@.drop_last() =~= before);
                assert(self@.handles[account as int] == self.handles@[account as int]@);
            }
        }
        assert(all.take(all.len() as int) =~= all);
        r
    }

    /// Adds an account with the given id, whose directory is in that with the proxy's data.
    pub fn create_account(
        &mut self,
        request: CreateAccountRequest,
        account_id: String,
        data_dir: &str,
    ) -> (account: StoredAccount)
        ensures
            account@ == accounts::created(
                request.preference,
                account_id@,
                paths::account_home(data_dir@, account_id@),
            ),
            final(self)@ == old(self)@.with_account(account@),
    {
        proof {
            use_type_invariant(&*self);
        }
        let codex_home = paths::account_home_in(data_dir, account_id.as_str());
        let account = StoredAccount {
            id: account_id,
            state: AccountState::Healthy,
            used_percent: None,
            resets_at: None,
            preference: request.preference,
            codex_home,
        };
        let AccountRegistry { mut handles, mut listed, session_affinity } = self.take();
        listed.push(handles.len());
        handles.push(AccountHandle::new(account.clone()));
        proof {
            let expected = old(self)@.with_account(account@);
            assert(handle_views(handles@) =~= expected.handles);
            assert(numbers(listed@) =~= expected.listed);
        }
        *self = AccountRegistry { handles, listed, session_affinity };
        account
    }

    /// Removes the accounts with an id, and tells their directories: none exactly if there was no
    /// such account.
    pub fn delete_account(&mut self, account_id: &str) -> (homes: Vec<String>)
        ensures
            final(self)@ == old(self)@.without_account(account_id@),
            text::texts(homes@) == homes_of(old(self)@.handles, old(self)@.listed, account_id@),
            (homes@.len() == 0) == (old(self)@.find(account_id@) is None),
    {
        proof {
            use_type_invariant(&*self);
        }
        let ghost before = self@;
        let AccountRegistry { handles, listed, session_affinity } = self.take();
        let mut kept: Vec<usize> = Vec::new();
        let mut homes: Vec<String> = Vec::new();
        assert(text::texts(homes@) =~= homes_of(before.handles, before.listed.take(0), account_id@));
        assert(numbers(kept@) =~= without(before.handles, before.listed.take(0), account_id@));
        for k in 0..listed.len()
            invariant
                before.well_formed(),
                before.handles == handle_views(handles@),
                before.listed == numbers(listed@),
                text::texts(homes@) == homes_of(
                    before.handles,
                    before.listed.take(k as int),
                    account_id@,
                ),
                numbers(kept@) == without(
                    before.handles,
                    before.listed.take(k as int),
                    account_id@,
                ),
        {
            let i: usize = listed[k];
            assert(before.listed[k as int] == i);
            assert(before.listed.take(k + 1).drop_last() =~= before.listed.take(k as int));
            let ghost kept0 = kept@;
            let ghost homes0 = homes@;
            if text::same(handles[i].id_str(), account_id) {
                homes.push(handles[i].record().codex_home);
                assert(text::texts(homes@) =~= text::texts(homes0).push(
                    before.handles[i as int].record.codex_home,
                ));
            } else {
                kept.push(i);
                assert(numbers(kept@) =~= numbers(kept0).push(i as int));
            }
        }
        assert(before.listed.take(before.listed.len() as int) =~= before.listed);
        proof {
            lemma_without(before.handles, before.listed, account_id@);
            lemma_homes(before.handles, before.listed, account_id@);
            let left = numbers(kept@);
            assert forall|k: int| 0 <= k < left.len() implies 0 <= #[trigger] left[k]
                < before.handles.len() by {
                assert(left.contains(left[k]));
                assert(before.listed.contains(left[k]));
            }
        }
        *self = AccountRegistry { handles, listed: kept, session_affinity };
        homes
    }

    /// Notes that a session's request went to an account.
    pub fn bind_session_affinity(&mut self, session_id: &str, account_id: &str)
        ensures
            final(self)@ == old(self)@.bound(Some(session_id@), account_id@),
    {
        proof {
            use_type_invariant(&*self);
        }
        let AccountRegistry { handles, listed, mut session_affinity } = self.take();
        session_affinity.insert(session_id.to_string(), account_id.to_string());
        assert(text_map(session_affinity@) =~= old(self)@.bound(
            Some(session_id@),
            account_id@,
        ).affinity);
        *self = AccountRegistry { handles, listed, session_affinity };
    }

    /// Forgets which account a session's request went to.
    pub fn clear_session_affinity(&mut self, session_id: &str)
        ensures
            final(self)@ == old(self)@.unbound(Some(session_id@)),
    {
        proof {
            use_type_invariant(&*self);
        }
        let AccountRegistry { handles, listed, mut session_affinity } = self.take();
        let _ = session_affinity.remove(session_id);
        assert(text_map(session_affinity@) =~= old(self)@.unbound(Some(session_id@)).affinity);
        *self = AccountRegistry { handles, listed, session_affinity };
    }

    /// Takes note that an account was rate limited, and forgets that the session's request went
    /// there.
    pub fn mark_rate_limited(
        &mut self,
        account_id: &str,
        session_id: Option<&str>,
        resets_at: Option<i64>,
        used_percent: Option<u8>,
    )
        ensures
            exists|now: i64|
                0 <= now && clock::is_timestamp(now as int) && final(self)@ == limited(
                    old(self)@,
                    account_id@,
                    text::str_in(session_id),
                    #[trigger] accounts::limit_end(resets_at, now),
                    used_percent,
                ),
    {
        self.mark_rate_limited_at(
            account_id,
            session_id,
            resets_at,
            used_percent,
            clock::current_unix_seconds(),
        )
    }

    /// Takes note at `now` that an account was rate limited.
    pub fn mark_rate_limited_at(
        &mut self,
        account_id: &str,
        session_id: Option<&str>,
        resets_at: Option<i64>,
        used_percent: Option<u8>,
        now: i64,
    )
        requires
            now <= i64::MAX - accounts::DEFAULT_COOLDOWN_SECS,
        ensures
            final(self)@ == limited(
                old(self)@,
                account_id@,
                text::str_in(session_id),
                accounts::limit_end(resets_at, now),
                used_percent,
            ),
    {
        match self.find_handle(account_id) {
            Some(i) => {
                proof {
                    use_type_invariant(&*self);
                }
                let AccountRegistry { mut handles, listed, session_affinity } = self.take();
                handles[i].note_rate_limited_at(resets_at, used_percent, now);
                assert(handle_views(handles@) =~= old(self)@.handles.update(
                    i as int,
                    handles@[i as int]@,
                ));
                *self = AccountRegistry { handles, listed, session_affinity };
            },
            None => {},
        }
        if let Some(session_id) = session_id {
            self.clear_session_affinity(session_id);
        }
    }

    /// Takes over the usage of an account that was looked up, if it was found, and tells whether it
    /// was.
    pub fn refresh_usage_state(&mut self, account: usize, usage: Option<&AccountUsageSnapshot>) -> (
    changed: bool)
        ensures
            changed == (usage is Some && account < old(self)@.handles.len()),
            !changed ==> final(self)@ == old(self)@,
            changed ==> exists|now: i64|
                0 <= now && clock::is_timestamp(now as int) && final(self)@ == old(
                    self,
                )@.with_handle(
                    account as int,
                    #[trigger] accounts::after_lookup(
                        old(self)@.handles[account as int],
                        *usage->0,
                        now as int,
                    ),
                ),
    {
        self.refresh_usage_state_at(account, usage, clock::current_unix_seconds())
    }

    /// Takes over at `now` the usage of an account that was looked up, if it was found, and tells
    /// whether it was.
    pub fn refresh_usage_state_at(
        &mut self,
        account: usize,
        usage: Option<&AccountUsageSnapshot>,
        now: i64,
    ) -> (changed: bool)
        ensures
            changed == (usage is Some && account < old(self)@.handles.len()),
            !changed ==> final(self)@ == old(self)@,
            changed ==> final(self)@ == old(self)@.with_handle(
                account as int,
                accounts::after_lookup(old(self)@.handles[account as int], *usage->0, now as int),
            ),
    {
        proof {
            use_type_invariant(&*self);
        }
        if account >= self.handles.len() {
            return false;
        }
        let AccountRegistry { mut handles, listed, session_affinity } = self.take();
        let changed = handles[account].refresh_usage_state_at(usage, now);
        assert(handle_views(handles@) =~= old(self)@.handles.update(
            account as int,
            handles@[account as int]@,
        ));
        if !changed {
            assert(handle_views(handles@) =~= old(self)@.handles);
        }
        *self = AccountRegistry { handles, listed, session_affinity };
        changed
    }

    /// Takes note that a request on an account succeeded.
    pub fn note_success(&mut self, account: usize)
        ensures
            final(self)@ == old(self)@.with_handle(
                account as int,
                old(self)@.handles[account as int].after_success(),
            ),
    {
        proof {
            use_type_invariant(&*self);
        }
        if account < self.handles.len() {
            let AccountRegistry { mut handles, listed, session_affinity } = self.take();
            handles[account].note_success();
            assert(handle_views(handles@) =~= old(self)@.handles.update(
                account as int,
                handles@[account as int]@,
            ));
            *self = AccountRegistry { handles, listed, session_affinity };
        }
    }

    /// Takes note that a request on an account failed.
    pub fn note_failure(&mut self, account: usize)
        ensures
            final(self)@ == old(self)@.with_handle(
                account as int,
                old(self)@.handles[account as int].after_failure(),
            ),
    {
        proof {
            use_type_invariant(&*self);
        }
        if account < self.handles.len() {
            let AccountRegistry { mut handles, listed, session_affinity } = self.take();
            handles[account].note_failure();
            assert(handle_views(handles@) =~= old(self)@.handles.update(
                account as int,
                handles@[account as int]@,
            ));
            *self = AccountRegistry { handles, listed, session_affinity };
        }
    }

    /// Counts one more request under way on an account.
    pub(crate) fn take_lease(&mut self, account: usize)
        ensures
            final(self)@ == old(self)@.with_handle(
                account as int,
                old(self)@.handles[account as int].with_lease(),
            ),
    {
        proof {
            use_type_invariant(&*self);
        }
        if account < self.handles.len() {
            let AccountRegistry { mut handles, listed, session_affinity } = self.take();
            handles[account].take_lease();
            assert(handle_views(handles@) =~= old(self)@.handles.update(
                account as int,
                handles@[account as int]@,
            ));
            *self = AccountRegistry { handles, listed, session_affinity };
        }
    }

    /// Counts one request less under way on an account.
    pub(crate) fn return_lease(&mut self, account: usize)
        ensures
            final(self)@ == old(self)@.with_handle(
                account as int,
                old(self)@.handles[account as int].without_lease(),
            ),
    {
        proof {
            use_type_invariant(&*self);
        }
        if account < self.handles.len() {
            let AccountRegistry { mut handles, listed, session_affinity } = self.take();
            handles[account].return_lease();
            assert(handle_views(handles@) =~= old(self)@.handles.update(
                account as int,
                handles@[account as int]@,
            ));
            *self = AccountRegistry { handles, listed, session_affinity };
        }
    }

    /// How many accounts there have been.
    pub(crate) fn count(&self) -> (n: usize)
        ensures
            n == self@.handles.len(),
    {
        self.handles.len()
    }

    /// The id of an account.
    pub(crate) fn id_of(&self, account: usize) -> (id: &str)
        requires
            account < self@.handles.len(),
        ensures
            id@ == self@.handles[account as int].record.id,
    {
        self.handles[account].id_str()
    }

    /// Whether the score of an account at `now`, where there is one, fits.
    pub(crate) fn can_score_at(&self, account: usize, now: i64) -> (r: bool)
        requires
            account < self@.handles.len(),
        ensures
            r == self@.handles[account as int].scorable_at(now as int),
    {
        self.handles[account].can_score_at(now)
    }

    /// How good a choice an account is at `now`, where it takes new requests.
    pub(crate) fn score_at(&mut self, account: usize, now: i64) -> (r: Option<i32>)
        requires
            account < old(self)@.handles.len(),
            old(self)@.handles[account as int].scorable_at(now as int),
        ensures
            accounts::score_is(r, old(self)@.handles[account as int].score_at(now as int)),
            final(self)@ == old(self)@.with_handle(
                account as int,
                old(self)@.handles[account as int].cleared(now as int),
            ),
    {
        proof {
            use_type_invariant(&*self);
        }
        let AccountRegistry { mut handles, listed, session_affinity } = self.take();
        let r = handles[account].score_at(now);
        assert(handle_views(handles@) =~= old(self)@.handles.update(
            account as int,
            handles@[account as int]@,
        ));
        *self = AccountRegistry { handles, listed, session_affinity };
        r
    }

    /// The id of the account that the last request of a session went to.
    pub fn bound_account_id(&self, session_id: &str) -> (r: Option<String>)
        ensures
            match r {
                Some(id) => self@.affinity.contains_key(session_id@) && id@
                    == self@.affinity[session_id@],
                None => !self@.affinity.contains_key(session_id@),
            },
    {
        match self.session_affinity.get(session_id) {
            Some(id) => Some(id.clone()),
            None => None,
        }
    }
}

/// The summaries tell how the accounts that were asked about are doing at `now`, in their order.
pub open spec fn summarizes(
    summaries: Seq<AccountSummary>,
    asked: Seq<(usize, AccountAuthSnapshot, Option<AccountUsageSnapshot>)>,
    handles: Seq<HandleView>,
    now: int,
) -> bool
    decreases asked.len(),
{
    if asked.len() == 0 {
        summaries.len() == 0
    } else if asked.last().0 < handles.len() {
        &&& summaries.len() > 0
        &&& summaries.last().tells(handles[asked.last().0 as int], now)
        &&& summaries.last().auth == asked.last().1
        &&& summaries.last().usage == asked.last().2
        &&& summarizes(summaries.drop_last(), asked.drop_last(), handles, now)
    } else {
        summarizes(summaries, asked.drop_last(), handles, now)
    }
}

/// The registry after the account with an id was rate limited up to a time.
pub open spec fn limited(
    registry: RegistryView,
    id: Seq<char>,
    session: Option<Seq<char>>,
    until: i64,
    used_percent: Option<u8>,
) -> RegistryView {
    let noted = match registry.find(id) {
        Some(i) => registry.with_handle(i, registry.handles[i].after_limit(until, used_percent)),
        None => registry,
    };
    noted.unbound(session)
}

/// The number of the first account of a list with an id.
fn find_number(handles: &Vec<AccountHandle>, listed: &Vec<usize>, account_id: &str) -> (r: Option<
    usize,
>)
    requires
        forall|k: int| 0 <= k < listed@.len() ==> #[trigger] listed@[k] < handles@.len(),
    ensures
        match r {
            Some(i) => find(handle_views(handles@), numbers(listed@), account_id@) == Some(i as int)
                && i < handles@.len(),
            None => find(handle_views(handles@), numbers(listed@), account_id@) is None,
        },
{
    let ghost views = handle_views(handles@);
    let ghost all = numbers(listed@);
    assert(all.skip(0) =~= all);
    for k in 0..listed.len()
        invariant
            views == handle_views(handles@),
            all == numbers(listed@),
            forall|k: int| 0 <= k < listed@.len() ==> #[trigger] listed@[k] < handles@.len(),
            find(views, all, account_id@) == find(views, all.skip(k as int), account_id@),
    {
        let i: usize = listed[k];
        assert(all.skip(k as int)[0] == i);
        assert(all.skip(k as int).drop_first() =~= all.skip(k + 1));
        if text::same(handles[i].id_str(), account_id) {
            return Some(i);
        }
    }
    None
}

/// What is found is listed, and has the id.
pub proof fn lemma_find(handles: Seq<HandleView>, listed: Seq<int>, id: Seq<char>)
    ensures
        match find(handles, listed, id) {
            Some(i) => listed.contains(i) && handles[i].record.id == id,
            None => forall|k: int|
                0 <= k < listed.len() ==> handles[#[trigger] listed[k]].record.id != id,
        },
    decreases listed.len(),
{
    if listed.len() > 0 {
        let rest = listed.drop_first();
        lemma_find(handles, rest, id);
        if handles[listed[0]].record.id == id {
            assert(listed.contains(listed[0]));
        } else {
            match find(handles, rest, id) {
                Some(i) => {
                    let k = choose|k: int| 0 <= k < rest.len() && rest[k] == i;
                    assert(listed[k + 1] == i);
                },
                None => {
                    assert forall|k: int| 0 <= k < listed.len() implies handles[
                        #[trigger] listed[k]
                    ].record.id != id by {
                        if k > 0 {
                            assert(rest[k - 1] == listed[k]);
                        }
                    }
                },
            }
        }
    }
}

/// What is left of a list is what was listed with another id.
pub proof fn lemma_without(handles: Seq<HandleView>, listed: Seq<int>, id: Seq<char>)
    ensures
        forall|i: int|
            #[trigger] without(handles, listed, id).contains(i) <==> listed.contains(i)
                && handles[i].record.id != id,
        listed.no_duplicates() ==> without(handles, listed, id).no_duplicates(),
    decreases listed.len(),
{
    let left = without(handles, listed, id);
    if listed.len() > 0 {
        let init = listed.drop_last();
        let last = listed.last();
        lemma_without(handles, init, id);
        let left_init = without(handles, init, id);
        assert(listed =~= init.push(last));
        assert forall|i: int| #[trigger] listed.contains(i) <==> init.contains(i) || i == last by {
            if init.contains(i) {
                let k = choose|k: int| 0 <= k < init.len() && init[k] == i;
                assert(listed[k] == i);
            }
            if i == last {
                assert(listed[listed.len() - 1] == i);
            }
            if listed.contains(i) && i != last {
                let k = choose|k: int| 0 <= k < listed.len() && listed[k] == i;
                assert(init[k] == i);
            }
        }
        if handles[last].record.id != id {
            assert forall|i: int| #[trigger] left.contains(i) <==> left_init.contains(i) || i
                == last by {
                if left_init.contains(i) {
                    let k = choose|k: int| 0 <= k < left_init.len() && left_init[k] == i;
                    assert(left[k] == i);
                }
                if i == last {
                    assert(left[left.len() - 1] == i);
                }
                if left.contains(i) && i != last {
                    let k = choose|k: int| 0 <= k < left.len() && left[k] == i;
                    assert(left_init[k] == i);
                }
            }
        }
        if listed.no_duplicates() {
            assert(init.no_duplicates());
            assert(!init.contains(last));
            assert(!left_init.contains(last));
            assert(left.no_duplicates());
        }
    }
}

proof fn lemma_homes(handles: Seq<HandleView>, listed: Seq<int>, id: Seq<char>)
    ensures
        (homes_of(handles, listed, id).len() == 0) == (find(handles, listed, id) is None),
    decreases listed.len(),
{
    lemma_find(handles, listed, id);
    if listed.len() > 0 {
        let init = listed.drop_last();
        lemma_homes(handles, init, id);
        lemma_find(handles, init, id);
        match find(handles, init, id) {
            Some(i) => {
                let k = choose|k: int| 0 <= k < init.len() && init[k] == i;
                assert(listed[k] == i);
            },
            None => {
                match find(handles, listed, id) {
                    Some(i) => {
                        let k = choose|k: int| 0 <= k < listed.len() && listed[k] == i;
                        if k < init.len() {
                            assert(init[k] == i);
                        }
                    },
                    None => {
                        assert(handles[listed[listed.len() - 1]].record.id != id);
                    },
                }
            },
        }
    }
}

proof fn lemma_find_push(handles: Seq<HandleView>, listed: Seq<int>, last: int, id: Seq<char>)
    ensures
        find(handles, listed.push(last), id) == match find(handles, listed, id) {
            Some(i) => Some(i),
            None => if handles[last].record.id == id {
                Some(last)
            } else {
                None
            },
        },
    decreases listed.len(),
{
    let all = listed.push(last);
    if listed.len() > 0 {
        assert(all[0] == listed[0]);
        assert(all.drop_first() =~= listed.drop_first().push(last));
        lemma_find_push(handles, listed.drop_first(), last, id);
    } else {
        assert(all.drop_first() =~= Seq::<int>::empty());
        assert(find(handles, all.drop_first(), id) is None);
    }
}

proof fn lemma_find_same(
    handles: Seq<HandleView>,
    more: Seq<HandleView>,
    listed: Seq<int>,
    id: Seq<char>,
)
    requires
        forall|k: int|
            0 <= k < listed.len() ==> handles[#[trigger] listed[k]].record
                == more[listed[k]].record,
    ensures
        find(handles, listed, id) == find(more, listed, id),
        without(handles, listed, id) == without(more, listed, id),
    decreases listed.len(),
{
    if listed.len() > 0 {
        let rest = listed.drop_first();
        assert forall|k: int| 0 <= k < rest.len() implies handles[#[trigger] rest[k]].record
            == more[rest[k]].record by {
            assert(rest[k] == listed[k + 1]);
        }
        lemma_find_same(handles, more, rest, id);
        assert(handles[listed[0]].record == more[listed[0]].record);
        let init = listed.drop_last();
        assert forall|k: int| 0 <= k < init.len() implies handles[#[trigger] init[k]].record
            == more[init[k]].record by {
            assert(init[k] == listed[k]);
        }
        lemma_find_same(handles, more, init, id);
        assert(handles[listed[listed.len() - 1]].record == more[listed[listed.len() - 1]].record);
    }
}

/// A new account is found by its id, unless there was one with that id before, and the others are
/// found as before.
pub proof fn law_created_account_is_found(
    registry: RegistryView,
    record: AccountView,
    other: Seq<char>,
)
    requires
        registry.well_formed(),
        registry.find(record.id) is None,
    ensures
        ({
            let after = registry.with_account(record);
            &&& after.well_formed()
            &&& after.find(record.id) == Some(registry.handles.len() as int)
            &&& after.handles[registry.handles.len() as int] == accounts::fresh(record)
            &&& other != record.id ==> after.find(other) == registry.find(other)
        }),
{
    let after = registry.with_account(record);
    let n = registry.handles.len() as int;
    assert forall|k: int| 0 <= k < registry.listed.len() implies registry.handles[
        #[trigger] registry.listed[k]
    ].record == after.handles[registry.listed[k]].record by {}
    lemma_find_same(registry.handles, after.handles, registry.listed, record.id);
    lemma_find_same(registry.handles, after.handles, registry.listed, other);
    lemma_find_push(after.handles, registry.listed, n, record.id);
    lemma_find_push(after.handles, registry.listed, n, other);
    assert forall|a: int, b: int|
        0 <= a < b < after.listed.len() implies after.listed[a] != after.listed[b] by {
        if b == registry.listed.len() {
            assert(registry.listed[a] < n);
        }
    }
    assert forall|k: int| 0 <= k < after.listed.len() implies 0 <= #[trigger] after.listed[k]
        < after.handles.len() by {
        if k < registry.listed.len() {
            assert(registry.listed[k] < n);
        }
    }
}

proof fn lemma_without_all(handles: Seq<HandleView>, listed: Seq<int>, id: Seq<char>)
    requires
        forall|k: int| 0 <= k < listed.len() ==> handles[#[trigger] listed[k]].record.id != id,
    ensures
        without(handles, listed, id) == listed,
    decreases listed.len(),
{
    if listed.len() > 0 {
        let init = listed.drop_last();
        assert forall|k: int| 0 <= k < init.len() implies handles[#[trigger] init[k]].record.id
            != id by {
            assert(init[k] == listed[k]);
        }
        lemma_without_all(handles, init, id);
        assert(handles[listed[listed.len() - 1]].record.id != id);
        assert(init.push(listed.last()) =~= listed);
    }
}

/// Deleting an account that was just created leaves the accounts that there were.
pub proof fn law_delete_undoes_create(registry: RegistryView, record: AccountView)
    requires
        registry.well_formed(),
        registry.find(record.id) is None,
    ensures
        ({
            let after = registry.with_account(record).without_account(record.id);
            &&& after.listed == registry.listed
            &&& after.records() == registry.records()
            &&& after.affinity == registry.affinity
        }),
{
    let more = registry.with_account(record);
    let after = more.without_account(record.id);
    lemma_find(registry.handles, registry.listed, record.id);
    assert(more.listed.drop_last() =~= registry.listed);
    assert forall|k: int| 0 <= k < registry.listed.len() implies more.handles[
        #[trigger] registry.listed[k]
    ].record.id != record.id by {
        assert(registry.handles[registry.listed[k]].record.id != record.id);
    }
    lemma_without_all(more.handles, registry.listed, record.id);
    assert(after.records() =~= registry.records());
}

/// A deleted account is found no more, and the others are found as before.
pub proof fn law_deleted_account_is_gone(registry: RegistryView, id: Seq<char>, other: Seq<char>)
    ensures
        registry.without_account(id).find(id) is None,
        other != id ==> registry.without_account(id).find(other) == registry.find(other),
{
    lemma_find_without(registry.handles, registry.listed, id, other);
}

proof fn lemma_find_without(
    handles: Seq<HandleView>,
    listed: Seq<int>,
    id: Seq<char>,
    other: Seq<char>,
)
    ensures
        find(handles, without(handles, listed, id), id) is None,
        other != id ==> find(handles, without(handles, listed, id), other) == find(
            handles,
            listed,
            other,
        ),
    decreases listed.len(),
{
    if listed.len() > 0 {
        let init = listed.drop_last();
        let last = listed.last();
        lemma_find_without(handles, init, id, other);
        assert(listed =~= init.push(last));
        lemma_find_push(handles, init, last, other);
        lemma_find_push(handles, without(handles, init, id), last, other);
        lemma_find_push(handles, without(handles, init, id), last, id);
    }
}

/// An account that is rate limited is passed over until its rest is over, and it is forgotten that the
/// request of the session that ran into the limit went there.
pub proof fn law_limited_account_is_passed_over(
    registry: RegistryView,
    id: Seq<char>,
    session: Option<Seq<char>>,
    until: i64,
    used_percent: Option<u8>,
    now: int,
)
    requires
        registry.well_formed(),
        now < until,
    ensures
        registry.find(id) is Some ==> !limited(
            registry,
            id,
            session,
            until,
            used_percent,
        ).handles[registry.find(id)->0].accepts(now),
        session is Some ==> !limited(
            registry,
            id,
            session,
            until,
            used_percent,
        ).affinity.contains_key(session->0),
{
    lemma_find(registry.handles, registry.listed, id);
    if let Some(i) = registry.find(id) {
        let k = choose|k: int| 0 <= k < registry.listed.len() && registry.listed[k] == i;
        assert(0 <= registry.listed[k] < registry.handles.len());
    }
}

proof fn lemma_find_record(a: RegistryView, b: RegistryView, k: int, id: Seq<char>)
    requires
        a.records() == b.records(),
        0 <= k <= a.listed.len(),
    ensures
        ({
            let x = find(a.handles, a.listed.skip(k), id);
            let y = find(b.handles, b.listed.skip(k), id);
            &&& x is Some <==> y is Some
            &&& x is Some ==> a.handles[x->0].record == b.handles[y->0].record
        }),
    decreases a.listed.len() - k,
{
    assert(a.records().len() == a.listed.len());
    assert(b.records().len() == b.listed.len());
    if k < a.listed.len() {
        assert(a.records()[k] == a.handles[a.listed[k]].record);
        assert(b.records()[k] == b.handles[b.listed[k]].record);
        assert(a.listed.skip(k)[0] == a.listed[k]);
        assert(b.listed.skip(k)[0] == b.listed[k]);
        assert(a.listed.skip(k).drop_first() =~= a.listed.skip(k + 1));
        assert(b.listed.skip(k).drop_first() =~= b.listed.skip(k + 1));
        lemma_find_record(a, b, k + 1, id);
    }
}

/// A registry that is loaded from what another one stored finds the same accounts, with the same
/// records.
pub proof fn law_stored_accounts_come_back(registry: RegistryView, loaded: RegistryView, id: Seq<char>)
    requires
        loaded.records() == registry.records(),
    ensures
        loaded.find(id) is Some <==> registry.find(id) is Some,
        registry.find(id) is Some ==> loaded.handles[loaded.find(id)->0].record
            == registry.handles[registry.find(id)->0].record,
{
    lemma_find_record(loaded, registry, 0, id);
    assert(loaded.listed.skip(0) =~= loaded.listed);
    assert(registry.listed.skip(0) =~= registry.listed);
}

/// An account is found by its id exactly if one with that id is listed, and it is the first of those.
pub proof fn law_first_with_the_id_is_found(registry: RegistryView, id: Seq<char>, k: int)
    requires
        0 <= k < registry.listed.len(),
        registry.handles[registry.listed[k]].record.id == id,
        forall|j: int|
            0 <= j < k ==> registry.handles[#[trigger] registry.listed[j]].record.id != id,
    ensures
        registry.find(id) == Some(registry.listed[k]),
{
    lemma_find_first(registry.handles, registry.listed, id, k);
}

proof fn lemma_find_first(handles: Seq<HandleView>, listed: Seq<int>, id: Seq<char>, k: int)
    requires
        0 <= k < listed.len(),
        handles[listed[k]].record.id == id,
        forall|j: int| 0 <= j < k ==> handles[#[trigger] listed[j]].record.id != id,
    ensures
        find(handles, listed, id) == Some(listed[k]),
    decreases k,
{
    if k > 0 {
        assert(handles[listed[0]].record.id != id);
        let rest = listed.drop_first();
        assert forall|j: int| 0 <= j < k - 1 implies handles[#[trigger] rest[j]].record.id != id by {
            assert(rest[j] == listed[j + 1]);
        }
        lemma_find_first(handles, rest, id, k - 1);
    }
}

/// No account is found exactly if none with the id is listed.
pub proof fn law_missing_account_is_not_found(registry: RegistryView, id: Seq<char>)
    ensures
        registry.find(id) is None <==> forall|k: int|
            0 <= k < registry.listed.len()
                ==> registry.handles[#[trigger] registry.listed[k]].record.id != id,
{
    lemma_find_none(registry.handles, registry.listed, id);
}

proof fn lemma_find_none(handles: Seq<HandleView>, listed: Seq<int>, id: Seq<char>)
    ensures
        find(handles, listed, id) is None <==> forall|k: int|
            0 <= k < listed.len() ==> handles[#[trigger] listed[k]].record.id != id,
    decreases listed.len(),
{
    if listed.len() > 0 {
        let rest = listed.drop_first();
        lemma_find_none(handles, rest, id);
        if handles[listed[0]].record.id != id {
            if find(handles, rest, id) is None {
                assert forall|k: int| 0 <= k < listed.len() implies handles[
                    #[trigger] listed[k]
                ].record.id != id by {
                    if k > 0 {
                        assert(rest[k - 1] == listed[k]);
                    }
                }
            } else {
                let k = choose|k: int|
                    0 <= k < rest.len() && handles[#[trigger] rest[k]].record.id == id;
                assert(listed[k + 1] == rest[k]);
            }
        }
    }
}

/// Deleting takes every account with the id off the list, and no other, and the others stay in their
/// order.
pub proof fn law_deleting_filters_the_list(registry: RegistryView, id: Seq<char>)
    ensures
        registry.without_account(id).listed == registry.listed.filter(
            |i: int| registry.handles[i].record.id != id,
        ),
        registry.without_account(id).handles == registry.handles,
        registry.without_account(id).affinity == registry.affinity,
{
    lemma_without_filters(registry.handles, registry.listed, id);
}

proof fn lemma_without_filters(handles: Seq<HandleView>, listed: Seq<int>, id: Seq<char>)
    ensures
        without(handles, listed, id) == listed.filter(|i: int| handles[i].record.id != id),
        homes_of(handles, listed, id) == listed.filter(
            |i: int| handles[i].record.id == id,
        ).map_values(|i: int| handles[i].record.codex_home),
    decreases listed.len(),
{
    reveal(Seq::filter);
    let same = |i: int| handles[i].record.id == id;
    let home = |i: int| handles[i].record.codex_home;
    if listed.len() > 0 {
        lemma_without_filters(handles, listed.drop_last(), id);
        if same(listed.last()) {
            assert(listed.drop_last().filter(same).push(listed.last()).map_values(home)
                =~= listed.drop_last().filter(same).map_values(home).push(home(listed.last())));
        }
        assert(homes_of(handles, listed, id) =~= listed.filter(same).map_values(home));
    } else {
        assert(homes_of(handles, listed, id) =~= listed.filter(same).map_values(home));
    }
}

/// The directories that are told of a deletion are those of the accounts that it takes off the list, in
/// their order.
pub proof fn law_directories_of_deleted_accounts(registry: RegistryView, id: Seq<char>)
    ensures
        homes_of(registry.handles, registry.listed, id) == registry.listed.filter(
            |i: int| registry.handles[i].record.id == id,
        ).map_values(|i: int| registry.handles[i].record.codex_home),
        homes_of(registry.handles, registry.listed, id).len() > 0 <==> registry.find(id) is Some,
{
    lemma_without_filters(registry.handles, registry.listed, id);
    lemma_find_none(registry.handles, registry.listed, id);
    let same = |i: int| registry.handles[i].record.id == id;
    let hits = registry.listed.filter(same);
    if hits.len() > 0 {
        registry.listed.lemma_filter_pred(same, 0);
        assert(hits.contains(hits[0]));
        registry.listed.lemma_filter_contains_rev(same, hits[0]);
        let k = choose|k: int| 0 <= k < registry.listed.len() && registry.listed[k] == hits[0];
        assert(registry.handles[registry.listed[k]].record.id == id);
    }
    if registry.find(id) is Some {
        let k = choose|k: int|
            0 <= k < registry.listed.len()
                && registry.handles[#[trigger] registry.listed[k]].record.id == id;
        assert(same(registry.listed[k]));
        registry.listed.lemma_filter_contains(same, k);
        assert(hits.contains(registry.listed[k]));
    }
}

/// A new account comes after those there are, as it was created, and changes none of them.
pub proof fn law_created_account_comes_last(registry: RegistryView, record: AccountView)
    requires
        registry.well_formed(),
    ensures
        registry.with_account(record).records() == registry.records().push(record),
        registry.with_account(record).affinity == registry.affinity,
        forall|i: int|
            0 <= i < registry.handles.len() ==> #[trigger] registry.with_account(record).handles[i]
                == registry.handles[i],
{
    let after = registry.with_account(record);
    assert forall|k: int| 0 <= k < registry.listed.len() implies #[trigger] after.records()[k]
        == registry.records()[k] by {
        assert(0 <= registry.listed[k] < registry.handles.len());
    }
    assert(after.records() =~= registry.records().push(record));
}

/// A rate limit changes the account with the id, and no other, takes note of the session, and of no
/// other, and the list stays.
pub proof fn law_limit_touches_one_account(
    registry: RegistryView,
    id: Seq<char>,
    session: Option<Seq<char>>,
    until: i64,
    used_percent: Option<u8>,
    i: int,
    other: Seq<char>,
)
    requires
        registry.well_formed(),
        0 <= i < registry.handles.len(),
    ensures
        ({
            let after = limited(registry, id, session, until, used_percent);
            &&& after.listed == registry.listed
            &&& after.handles.len() == registry.handles.len()
            &&& registry.find(id) != Some(i) ==> after.handles[i] == registry.handles[i]
            &&& registry.find(id) == Some(i) ==> {
                &&& after.handles[i].record.state == accounts::AccountState::RateLimited
                &&& after.handles[i].cooldown_until == until
                &&& after.handles[i].record.resets_at == Some(until)
                &&& used_percent is Some ==> after.handles[i].record.used_percent == used_percent
                &&& used_percent is None ==> after.handles[i].record.used_percent
                    == registry.handles[i].record.used_percent
            }
            &&& session != Some(other) ==> (after.affinity.contains_key(other)
                <==> registry.affinity.contains_key(other))
            &&& session != Some(other) && registry.affinity.contains_key(other)
                ==> after.affinity[other] == registry.affinity[other]
        }),
{
}

/// A note on a session tells the account that it was given, and touches no other session and no
/// account.
pub proof fn law_sessions_are_noted(
    registry: RegistryView,
    session: Seq<char>,
    id: Seq<char>,
    other: Seq<char>,
)
    ensures
        registry.bound(Some(session), id).affinity.contains_key(session),
        registry.bound(Some(session), id).affinity[session] == id,
        !registry.unbound(Some(session)).affinity.contains_key(session),
        other != session ==> {
            &&& registry.bound(Some(session), id).affinity.contains_key(other)
                <==> registry.affinity.contains_key(other)
            &&& registry.unbound(Some(session)).affinity.contains_key(other)
                <==> registry.affinity.contains_key(other)
        },
        registry.bound(Some(session), id).handles == registry.handles,
        registry.bound(Some(session), id).listed == registry.listed,
        registry.unbound(Some(session)).handles == registry.handles,
        registry.unbound(Some(session)).listed == registry.listed,
        registry.bound(None, id) == registry,
        registry.unbound(None) == registry,
{
}

proof fn lemma_summaries_len(
    summaries: Seq<AccountSummary>,
    asked: Seq<(usize, AccountAuthSnapshot, Option<AccountUsageSnapshot>)>,
    handles: Seq<HandleView>,
    now: int,
)
    requires
        summarizes(summaries, asked, handles, now),
        forall|j: int| 0 <= j < asked.len() ==> (#[trigger] asked[j]).0 < handles.len(),
    ensures
        summaries.len() == asked.len(),
    decreases asked.len(),
{
    if asked.len() > 0 {
        let init = asked.drop_last();
        assert(asked[asked.len() - 1].0 < handles.len());
        assert forall|j: int| 0 <= j < init.len() implies (#[trigger] init[j]).0 < handles.len() by {
            assert(init[j] == asked[j]);
        }
        lemma_summaries_len(summaries.drop_last(), init, handles, now);
    }
}

/// Where all numbers that are asked about are those of accounts, there is a summary of each, in their
/// order, with the login and the usage that came with it.
pub proof fn law_summaries_are_in_order(
    summaries: Seq<AccountSummary>,
    asked: Seq<(usize, AccountAuthSnapshot, Option<AccountUsageSnapshot>)>,
    handles: Seq<HandleView>,
    now: int,
    k: int,
)
    requires
        summarizes(summaries, asked, handles, now),
        forall|j: int| 0 <= j < asked.len() ==> (#[trigger] asked[j]).0 < handles.len(),
        0 <= k < asked.len(),
    ensures
        summaries.len() == asked.len(),
        summaries[k].tells(handles[asked[k].0 as int], now),
        summaries[k].auth == asked[k].1,
        summaries[k].usage == asked[k].2,
    decreases asked.len(),
{
    lemma_summaries_len(summaries, asked, handles, now);
    let last = asked.len() - 1;
    assert(asked[last].0 < handles.len());
    if k < last {
        let init = asked.drop_last();
        assert forall|j: int| 0 <= j < init.len() implies (#[trigger] init[j]).0 < handles.len() by {
            assert(init[j] == asked[j]);
        }
        law_summaries_are_in_order(summaries.drop_last(), init, handles, now, k);
        assert(summaries.drop_last()[k] == summaries[k]);
    }
}

/// Deleting accounts by an id takes those with the id off the list, and no others, and changes no
/// account and no session.
pub proof fn law_who_stays(registry: RegistryView, id: Seq<char>, i: int)
    ensures
        registry.without_account(id).listed.contains(i) <==> registry.listed.contains(i)
            && registry.handles[i].record.id != id,
        registry.without_account(id).handles == registry.handles,
        registry.without_account(id).affinity == registry.affinity,
{
    law_deleting_filters_the_list(registry, id);
    let kept = |i: int| registry.handles[i].record.id != id;
    let rest = registry.listed.filter(kept);
    assert(registry.without_account(id).listed == rest);
    if registry.listed.contains(i) && kept(i) {
        let k = choose|k: int| 0 <= k < registry.listed.len() && registry.listed[k] == i;
        registry.listed.lemma_filter_contains(kept, k);
    }
    if rest.contains(i) {
        registry.listed.lemma_filter_contains_rev(kept, i);
        let k = choose|k: int| 0 <= k < rest.len() && rest[k] == i;
        registry.listed.lemma_filter_pred(kept, k);
    }
}

/// A created account has the id and the preference that were asked for, its own directory among those
/// of the accounts, and nothing known of its usage; it is listed last, and the others stay.
pub proof fn law_creating_an_account(
    registry: &mut AccountRegistry,
    request: CreateAccountRequest,
    account_id: String,
    data_dir: &str,
    account: StoredAccount,
)
    requires
        call_ensures(
            AccountRegistry::create_account,
            (registry, request, account_id, data_dir),
            account,
        ),
        old(registry)@.well_formed(),
    ensures
        account@.id == account_id@,
        account@.preference == request.preference,
        account@.codex_home == paths::joined(paths::joined(data_dir@, "accounts"@), account_id@),
        account@.state == AccountState::Healthy,
        account@.used_percent is None,
        account@.resets_at is None,
        final(registry)@.records() == old(registry)@.records().push(account@),
        final(registry)@.affinity == old(registry)@.affinity,
{
    law_created_account_comes_last(registry@, account@);
}

/// Deleting by an id takes the accounts with the id off the list, and no others, and hands back a
/// directory exactly if there was one.
pub proof fn law_deleting_an_account(
    registry: &mut AccountRegistry,
    account_id: &str,
    homes: Vec<String>,
    i: int,
    k: int,
)
    requires
        call_ensures(AccountRegistry::delete_account, (registry, account_id), homes),
    ensures
        final(registry)@.listed.contains(i) <==> old(registry)@.listed.contains(i) && old(
            registry,
        )@.handles[i].record.id != account_id@,
        final(registry)@.handles == old(registry)@.handles,
        final(registry)@.affinity == old(registry)@.affinity,
        homes@.len() > 0 <==> exists|k: int|
            0 <= k < old(registry)@.listed.len() && old(registry)@.handles[#[trigger] old(
                registry,
            )@.listed[k]].record.id == account_id@,
        0 <= k < homes@.len() ==> exists|j: int|
            0 <= j < old(registry)@.listed.len() && old(registry)@.handles[#[trigger] old(
                registry,
            )@.listed[j]].record.id == account_id@ && old(registry)@.handles[old(
                registry,
            )@.listed[j]].record.codex_home == homes@[k]@,
{
    let before = registry@;
    law_who_stays(before, account_id@, i);
    law_directories_of_deleted_accounts(before, account_id@);
    lemma_find_none(before.handles, before.listed, account_id@);
    let same = |i: int| before.handles[i].record.id == account_id@;
    let hits = before.listed.filter(same);
    if 0 <= k < homes@.len() {
        assert(text::texts(homes@)[k] == homes@[k]@);
        assert(hits.contains(hits[k]));
        before.listed.lemma_filter_pred(same, k);
        before.listed.lemma_filter_contains_rev(same, hits[k]);
        let j = choose|j: int| 0 <= j < before.listed.len() && before.listed[j] == hits[k];
        assert(before.handles[before.listed[j]].record.id == account_id@);
    }
}

/// A rate limit puts the account with the id to rest until it ends, and no other account, and from then
/// on the session goes to no account.
pub proof fn law_marking_a_limit(
    registry: &mut AccountRegistry,
    account_id: &str,
    session_id: Option<&str>,
    resets_at: Option<i64>,
    used_percent: Option<u8>,
    now: i64,
    r: (),
    i: int,
)
    requires
        call_ensures(
            AccountRegistry::mark_rate_limited_at,
            (registry, account_id, session_id, resets_at, used_percent, now),
            r,
        ),
        old(registry)@.well_formed(),
        0 <= i < old(registry)@.handles.len(),
        now <= i64::MAX - 300,
    ensures
        final(registry)@.listed == old(registry)@.listed,
        old(registry)@.find(account_id@) != Some(i) ==> final(registry)@.handles[i] == old(
            registry,
        )@.handles[i],
        old(registry)@.find(account_id@) == Some(i) ==> {
            let after = final(registry)@.handles[i];
            &&& after.record.state == AccountState::RateLimited
            &&& resets_at matches Some(end) ==> after.cooldown_until == end
            &&& resets_at is None ==> after.cooldown_until == now + 300
            &&& used_percent is Some ==> after.record.used_percent == used_percent
        },
        session_id matches Some(session) ==> !final(registry)@.affinity.contains_key(session@),
        session_id is None ==> final(registry)@.affinity == old(registry)@.affinity,
{
    law_limit_touches_one_account(
        registry@,
        account_id@,
        text::str_in(session_id),
        accounts::limit_end(resets_at, now),
        used_percent,
        i,
        ""@,
    );
    accounts::law_rest_ends(resets_at, now);
}

/// A usage that was looked up is stored with its account, by the short-run limit, and no other account
/// changes.
pub proof fn law_storing_usage(
    registry: &mut AccountRegistry,
    account: usize,
    usage: Option<&AccountUsageSnapshot>,
    now: i64,
    changed: bool,
    i: int,
)
    requires
        call_ensures(
            AccountRegistry::refresh_usage_state_at,
            (registry, account, usage, now),
            changed,
        ),
        0 <= i < old(registry)@.handles.len(),
    ensures
        changed <==> usage is Some && account < old(registry)@.handles.len(),
        final(registry)@.listed == old(registry)@.listed,
        final(registry)@.affinity == old(registry)@.affinity,
        i != account || usage is None ==> final(registry)@.handles[i] == old(registry)@.handles[i],
        i == account && usage is Some ==> {
            let after = final(registry)@.handles[i];
            let found = *usage->0;
            &&& found.primary_used_percent matches Some(used) ==> after.record.used_percent == Some(
                used.rounded,
            )
            &&& found.primary_used_percent is None ==> after.record.used_percent is None
            &&& after.record.resets_at == found.primary_resets_at
            &&& after.record.id == old(registry)@.handles[i].record.id
            &&& after.inflight == old(registry)@.handles[i].inflight
        },
{
    if usage is Some && i == account {
        accounts::law_short_run_usage_is_stored(registry@.handles[i], *usage->0, *usage->0, now as int);
        accounts::law_lookup_keeps_the_rest(registry@.handles[i], *usage->0, now as int);
    }
}

/// What is stored and loaded again is told in the same order, each account with nothing under way, and
/// with no session.
pub proof fn law_loading_what_was_stored(
    registry: &AccountRegistry,
    stored: Vec<StoredAccount>,
    loaded: AccountRegistry,
)
    requires
        call_ensures(AccountRegistry::records, (registry,), stored),
        call_ensures(AccountRegistry::load_or_create, (stored,), loaded),
    ensures
        loaded@.records() == registry@.records(),
        loaded@.affinity.dom() == Set::<Seq<char>>::empty(),
        forall|i: int|
            0 <= i < loaded@.handles.len() ==> (#[trigger] loaded@.handles[i]).inflight == 0
                && loaded@.handles[i].recent_failures == 0 && loaded@.handles[i].cooldown_until == 0,
{
    assert(loaded@.affinity.dom() =~= Set::<Seq<char>>::empty());
}

/// The record that is got by an id is that of the first account on the list with the id, and there is
/// one exactly if an account on the list has it.
pub proof fn law_getting_a_record(
    registry: &AccountRegistry,
    account_id: &str,
    r: Option<StoredAccount>,
    k: int,
)
    requires
        call_ensures(AccountRegistry::get_record, (registry, account_id), r),
    ensures
        r is None ==> !(0 <= k < registry@.listed.len()
            && registry@.handles[registry@.listed[k]].record.id == account_id@),
        0 <= k < registry@.listed.len() && registry@.handles[registry@.listed[k]].record.id
            == account_id@ && (forall|j: int|
            0 <= j < k ==> registry@.handles[#[trigger] registry@.listed[j]].record.id
                != account_id@) ==> r is Some && r->0@ == registry@.handles[registry@.listed[k]].record,
{
    lemma_find_none(registry@.handles, registry@.listed, account_id@);
    if 0 <= k < registry@.listed.len() && registry@.handles[registry@.listed[k]].record.id
        == account_id@ && (forall|j: int|
        0 <= j < k ==> registry@.handles[#[trigger] registry@.listed[j]].record.id != account_id@) {
        law_first_with_the_id_is_found(registry@, account_id@, k);
    }
}

} // verus!
