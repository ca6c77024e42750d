//! The choice of the account that a request goes to.
//!
//! What has to be asked of the outside on the way, whether an account is logged in and how far its
//! usage limits are used up, is asked by the caller: a choice stops at each question, and goes on
//! with the answer.

use vstd::prelude::*;

use crate::accounts;
use crate::accounts::AccountUsageSnapshot;
use crate::accounts::AuthView;
use crate::accounts::HandleView;
use crate::accounts::ResolveAuthError;
use crate::accounts::ResolvedUpstreamAuth;
use crate::accounts::RouteError;
use crate::accounts::RouteErrorView;
use crate::clock;
use crate::ranking;
use crate::ranking::RankKey;
use crate::ranking::RankKeyView;
use crate::registry;
use crate::registry::AccountRegistry;
use crate::registry::RegistryView;
use crate::text;

verus! {

/// The right to use an account for a request. As long as it is not given back, the request counts as
/// under way.
#[derive(Debug)]
pub struct AccountLease {
    account: usize,
    account_id: String,
    score: i32,
}

impl AccountLease {
    /// The account, as it was chosen.
    pub closed spec fn view(&self) -> CandidateView {
        CandidateView {
            account: self.account as int,
            id: self.account_id@,
            score: self.score as int,
        }
    }

    /// The account's id.
    pub fn account_id(&self) -> (id: String)
        ensures
            id@ == self@.id,
    {
        self.account_id.clone()
    }

    /// How good a choice the account was.
    pub fn score(&self) -> (score: i32)
        ensures
            score == self@.score,
    {
        self.score
    }

    /// Takes note that the request succeeded.
    pub fn note_success(&self, accounts: &mut AccountRegistry)
        ensures
            final(accounts)@ == old(accounts)@.with_handle(
                self@.account,
                old(accounts)@.handles[self@.account].after_success(),
            ),
    {
        accounts.note_success(self.account);
    }

    /// Takes note that the request failed.
    pub fn note_failure(&self, accounts: &mut AccountRegistry)
        ensures
            final(accounts)@ == old(accounts)@.with_handle(
                self@.account,
                old(accounts)@.handles[self@.account].after_failure(),
            ),
    {
        accounts.note_failure(self.account);
    }

    /// Gives the lease back.
    pub fn release(self, accounts: &mut AccountRegistry)
        ensures
            final(accounts)@ == old(accounts)@.with_handle(
                self@.account,
                old(accounts)@.handles[self@.account].without_lease(),
            ),
    {
        accounts.return_lease(self.account);
    }
}

/// The account that a request goes to.
#[derive(Debug)]
pub struct SelectedAccount {
    pub lease: AccountLease,
    pub auth: ResolvedUpstreamAuth,
}

/// The account that a request goes to, as mathematics sees it.
pub struct SelectedView {
    pub lease: CandidateView,
    pub auth: AuthView,
}

impl SelectedAccount {
    pub open spec fn view(&self) -> SelectedView {
        SelectedView { lease: self.lease@, auth: self.auth@ }
    }
}

/// An account that can be chosen.
struct Candidate {
    account: usize,
    id: String,
    score: i32,
}

/// An account that can be chosen, as mathematics sees it.
pub struct CandidateView {
    /// The account's number.
    pub account: int,
    pub id: Seq<char>,
    pub score: int,
}

impl Candidate {
    spec fn view(&self) -> CandidateView {
        CandidateView { account: self.account as int, id: self.id@, score: self.score as int }
    }

    fn into_lease(self) -> (lease: AccountLease)
        ensures
            lease@ == self@,
    {
        AccountLease { account: self.account, account_id: self.id, score: self.score }
    }

    fn duplicate(&self) -> (r: Candidate)
        ensures
            r@ == self@,
    {
        Candidate { account: self.account, id: self.id.clone(), score: self.score }
    }
}

spec fn candidate_views(candidates: Seq<Candidate>) -> Seq<CandidateView> {
    candidates.map_values(|c: Candidate| c@)
}

/// What counts as the use of a limit of which none is known.
pub const UNKNOWN_USE: i64 = -1;

/// What the long-run usage of an account counts for in the ranking.
#[derive(Clone, Copy)]
pub struct UsageRank {
    /// When its long-run usage limit starts afresh.
    pub reset: i64,
    /// The tenths of a percent of it that are used up.
    pub used: i64,
}

/// What a looked-up usage counts for in the ranking: an account whose limit starts afresh soon comes
/// first, and of several such the one that has used most of it.
pub open spec fn usage_rank(usage: Option<AccountUsageSnapshot>) -> UsageRank {
    match usage {
        Some(usage) => UsageRank {
            reset: match usage.secondary_resets_at {
                Some(reset) => reset,
                None => i64::MAX,
            },
            used: match usage.secondary_used_percent {
                Some(used) => used.tenths,
                None => UNKNOWN_USE,
            },
        },
        None => UsageRank { reset: i64::MAX, used: UNKNOWN_USE },
    }
}

/// What usage counts for where it is not looked up: nothing.
pub open spec fn no_rank() -> UsageRank {
    UsageRank { reset: i64::MIN, used: UNKNOWN_USE }
}

fn rank_usage(usage: Option<&AccountUsageSnapshot>) -> (r: UsageRank)
    ensures
        match usage {
            Some(usage) => r == usage_rank(Some(*usage)),
            None => r == usage_rank(None),
        },
{
    match usage {
        Some(usage) => UsageRank {
            reset: match usage.secondary_resets_at {
                Some(reset) => reset,
                None => i64::MAX,
            },
            used: match &usage.secondary_used_percent {
                Some(used) => used.tenths,
                None => UNKNOWN_USE,
            },
        },
        None => UsageRank { reset: i64::MAX, used: UNKNOWN_USE },
    }
}

/// What an account is chosen for.
struct Request {
    requested: Option<String>,
    session: Option<String>,
    excluded: Vec<String>,
    listed: Vec<usize>,
}

/// What an account is chosen for, as mathematics sees it.
pub struct RequestView {
    /// The id that the account has to have.
    pub requested: Option<Seq<char>>,
    /// The session that the request belongs to.
    pub session: Option<Seq<char>>,
    /// The ids that the account must not have.
    pub excluded: Seq<Seq<char>>,
    /// The numbers of the accounts there were when the choice began.
    pub listed: Seq<int>,
}

impl RequestView {
    /// An account with this id may be chosen.
    pub open spec fn may_choose(self, id: Seq<char>) -> bool {
        (self.requested is Some ==> id == self.requested->0) && !self.excluded.contains(id)
    }

    /// Usage is looked up: some accounts were turned away, and no account was asked for.
    pub open spec fn looks_at_usage(self) -> bool {
        self.excluded.len() > 0 && self.requested is None
    }
}

impl Request {
    spec fn view(&self) -> RequestView {
        RequestView {
            requested: text::text_in(self.requested),
            session: text::text_in(self.session),
            excluded: text::texts(self.excluded@),
            listed: registry::numbers(self.listed@),
        }
    }

    fn may_choose(&self, id: &str) -> (r: bool)
        ensures
            r == self@.may_choose(id@),
    {
        let named = match &self.requested {
            Some(requested) => text::same(requested.as_str(), id),
            None => true,
        };
        named && !text::lists(&self.excluded, id)
    }

    fn looks_at_usage(&self) -> (r: bool)
        ensures
            r == self@.looks_at_usage(),
    {
        self.excluded.len() > 0 && self.requested.is_none()
    }
}

/// Account number `i` is considered for a request.
pub open spec fn considered(handles: Seq<HandleView>, i: int, request: RequestView) -> bool {
    0 <= i < handles.len() && request.may_choose(handles[i].record.id)
}

/// The accounts of a list that can be chosen for a request at `now`.
pub open spec fn candidates(
    handles: Seq<HandleView>,
    listed: Seq<int>,
    request: RequestView,
    now: int,
) -> Seq<CandidateView>
    decreases listed.len(),
{
    if listed.len() == 0 {
        Seq::empty()
    } else {
        let before = candidates(handles, listed.drop_last(), request, now);
        let i = listed.last();
        if considered(handles, i, request) && handles[i].accepts(now) {
            before.push(
                CandidateView {
                    account: i,
                    id: handles[i].record.id,
                    score: handles[i].cleared(now).score(),
                },
            )
        } else {
            before
        }
    }
}

/// The accounts after those of a list were considered at `now`: the rate limits whose time is over
/// are lifted.
pub open spec fn swept(
    handles: Seq<HandleView>,
    listed: Seq<int>,
    request: RequestView,
    now: int,
) -> Seq<HandleView> {
    Seq::new(
        handles.len(),
        |i: int|
            if listed.contains(i) && request.may_choose(handles[i].record.id) {
                handles[i].cleared(now)
            } else {
                handles[i]
            },
    )
}

/// The score of each account of a list that is considered at `now` fits.
pub open spec fn all_scorable(
    handles: Seq<HandleView>,
    listed: Seq<int>,
    request: RequestView,
    now: int,
) -> bool {
    forall|k: int|
        0 <= k < listed.len() && considered(handles, listed[k], request)
            ==> handles[#[trigger] listed[k]].scorable_at(now)
}

/// What the candidates are ranked by.
pub open spec fn rank_keys(candidates: Seq<CandidateView>, ranks: Seq<UsageRank>) -> Seq<
    RankKeyView,
> {
    Seq::new(
        candidates.len(),
        |k: int|
            RankKeyView {
                reset: ranks[k].reset as int,
                used: ranks[k].used as int,
                score: candidates[k].score,
                id: candidates[k].id,
            },
    )
}

/// The candidates, best first.
pub open spec fn ranked(candidates: Seq<CandidateView>, ranks: Seq<UsageRank>) -> Seq<
    CandidateView,
> {
    let order = ranking::sorted(rank_keys(candidates, ranks));
    Seq::new(candidates.len(), |k: int| candidates[order[k] as int])
}

/// What an account's login came to.
pub enum AuthOutcome {
    Resolved(AuthView),
    NotAuthenticated,
    TokenFailed,
}

/// What an account's login came to.
pub open spec fn outcome(auth: Result<ResolvedUpstreamAuth, ResolveAuthError>) -> AuthOutcome {
    match auth {
        Ok(auth) => AuthOutcome::Resolved(auth@),
        Err(ResolveAuthError::NotAuthenticated) => AuthOutcome::NotAuthenticated,
        Err(ResolveAuthError::Token(_)) => AuthOutcome::TokenFailed,
    }
}

/// A choice that stops for the login of an account.
pub struct AuthWait {
    request: Request,
    ranking: Vec<Candidate>,
    next: usize,
}

/// A choice that stops for the login of an account, as mathematics sees it.
pub struct AuthWaitView {
    pub request: RequestView,
    /// The candidates, best first.
    pub ranking: Seq<CandidateView>,
    /// Which of them is asked about, after those before it were not logged in.
    pub next: int,
}

impl AuthWaitView {
    /// The account whose login is asked for.
    pub open spec fn asked(self) -> CandidateView {
        self.ranking[self.next]
    }

    /// There is an account whose login is asked for.
    pub open spec fn well_formed(self) -> bool {
        0 <= self.next < self.ranking.len()
    }
}

impl AuthWait {
    #[verifier::type_invariant]
    spec fn inv(self) -> bool {
        self@.well_formed()
    }

    pub closed spec fn view(&self) -> AuthWaitView {
        AuthWaitView {
            request: self.request@,
            ranking: candidate_views(self.ranking@),
            next: self.next as int,
        }
    }

    /// The number of the account whose login is asked for.
    pub fn account(&self) -> (account: usize)
        ensures
            account == self@.asked().account,
    {
        proof {
            use_type_invariant(self);
        }
        self.ranking[self.next].account
    }
}

/// A choice that stops for the usage of an account.
pub struct UsageWait {
    request: Request,
    candidates: Vec<Candidate>,
    ranks: Vec<UsageRank>,
}

/// A choice that stops for the usage of an account, as mathematics sees it.
pub struct UsageWaitView {
    pub request: RequestView,
    pub candidates: Seq<CandidateView>,
    /// What the usage counts for of the candidates that were asked about.
    pub ranks: Seq<UsageRank>,
}

impl UsageWaitView {
    /// The account whose usage is asked for.
    pub open spec fn asked(self) -> CandidateView {
        self.candidates[self.ranks.len() as int]
    }

    /// There is an account whose usage is asked for.
    pub open spec fn well_formed(self) -> bool {
        self.ranks.len() < self.candidates.len()
    }
}

impl UsageWait {
    #[verifier::type_invariant]
    spec fn inv(self) -> bool {
        self@.well_formed()
    }

    pub closed spec fn view(&self) -> UsageWaitView {
        UsageWaitView {
            request: self.request@,
            candidates: candidate_views(self.candidates@),
            ranks: self.ranks@,
        }
    }

    /// The number of the account whose usage is asked for.
    pub fn account(&self) -> (account: usize)
        ensures
            account == self@.asked().account,
    {
        proof {
            use_type_invariant(self);
        }
        self.candidates[self.ranks.len()].account
    }
}

/// How far a choice has come.
pub enum SelectionStep {
    /// It is made, or there is none.
    Done(Result<SelectedAccount, RouteError>),
    /// It stops for the login of an account.
    ResolveAuth(AuthWait),
    /// It stops for the usage of an account.
    FetchUsage(UsageWait),
}

/// How far a choice has come, as mathematics sees it.
pub enum StepView {
    Done(Result<SelectedView, RouteErrorView>),
    ResolveAuth(AuthWaitView),
    FetchUsage(UsageWaitView),
}

impl SelectionStep {
    pub open spec fn view(&self) -> StepView {
        match self {
            SelectionStep::Done(Ok(selected)) => StepView::Done(Ok(selected@)),
            SelectionStep::Done(Err(err)) => StepView::Done(Err(err@)),
            SelectionStep::ResolveAuth(wait) => StepView::ResolveAuth(wait@),
            SelectionStep::FetchUsage(wait) => StepView::FetchUsage(wait@),
        }
    }
}

/// The choice goes on with the login of a candidate, if there is one.
pub open spec fn trying(request: RequestView, ranking: Seq<CandidateView>, next: int) -> StepView {
    if next < ranking.len() {
        StepView::ResolveAuth(AuthWaitView { request, ranking, next })
    } else {
        StepView::Done(
            Err(RouteErrorView::NoEligibleAccounts { requested_account_id: request.requested }),
        )
    }
}

/// The choice goes on among all accounts that can be chosen at `now`.
pub open spec fn surveyed(registry: RegistryView, request: RequestView, now: int) -> (
    RegistryView,
    StepView,
) {
    let found = candidates(registry.handles, request.listed, request, now);
    let after = RegistryView {
        handles: swept(registry.handles, request.listed, request, now),
        ..registry
    };
    if request.looks_at_usage() && found.len() > 0 {
        (
            after,
            StepView::FetchUsage(
                UsageWaitView { request, candidates: found, ranks: Seq::empty() },
            ),
        )
    } else {
        (after, trying(request, ranked(found, Seq::new(found.len(), |k: int| no_rank())), 0))
    }
}

/// A choice that begins at `now`.
pub open spec fn begun(registry: RegistryView, request: RequestView, now: int) -> (
    RegistryView,
    StepView,
) {
    if request.listed.len() == 0 {
        (registry, StepView::Done(Err(RouteErrorView::NoAccountsConfigured)))
    } else {
        surveyed(registry, request, now)
    }
}

/// The scores that are reckoned when a choice begins at `now` fit.
pub open spec fn can_begin(registry: RegistryView, request: RequestView, now: int) -> bool {
    all_scorable(registry.handles, request.listed, request, now)
}

/// A choice that goes on with what the login came to.
pub open spec fn resumed(registry: RegistryView, wait: AuthWaitView, outcome: AuthOutcome) -> (
    RegistryView,
    StepView,
) {
    let request = wait.request;
    let asked = wait.asked();
    match outcome {
        AuthOutcome::Resolved(auth) => (
            registry.with_handle(
                asked.account,
                registry.handles[asked.account].with_lease(),
            ).bound(request.session, asked.id),
            StepView::Done(Ok(SelectedView { lease: asked, auth })),
        ),
        AuthOutcome::NotAuthenticated => (
            registry.unbound(request.session),
            trying(request, wait.ranking, wait.next + 1),
        ),
        AuthOutcome::TokenFailed => (
            registry,
            StepView::Done(Err(RouteErrorView::AccountAuthFailed { account_id: asked.id })),
        ),
    }
}

/// A choice that goes on with what the usage counts for.
pub open spec fn resumed_with_usage(wait: UsageWaitView, rank: UsageRank) -> StepView {
    let ranks = wait.ranks.push(rank);
    if ranks.len() < wait.candidates.len() {
        StepView::FetchUsage(UsageWaitView { ranks, ..wait })
    } else {
        trying(wait.request, ranked(wait.candidates, ranks), 0)
    }
}

proof fn lemma_swept_none(handles: Seq<HandleView>, request: RequestView, now: int)
    ensures
        swept(handles, Seq::empty(), request, now) == handles,
{
    assert(swept(handles, Seq::empty(), request, now) =~= handles);
}

proof fn lemma_swept_next(
    handles: Seq<HandleView>,
    listed: Seq<int>,
    k: int,
    request: RequestView,
    now: int,
)
    requires
        0 <= k < listed.len(),
    ensures
        ({
            let i = listed[k];
            let before = swept(handles, listed.take(k), request, now);
            let after = swept(handles, listed.take(k + 1), request, now);
            if considered(handles, i, request) {
                &&& after == before.update(i, before[i].cleared(now))
                &&& before[i].record.id == handles[i].record.id
                &&& before[i].scorable_at(now) == handles[i].scorable_at(now)
                &&& before[i].score_at(now) == handles[i].score_at(now)
            } else {
                after == before
            }
        }),
{
    let i = listed[k];
    let before = swept(handles, listed.take(k), request, now);
    let after = swept(handles, listed.take(k + 1), request, now);
    let shorter = listed.take(k);
    let longer = listed.take(k + 1);
    assert(longer =~= shorter.push(i));
    assert forall|j: int| longer.contains(j) <==> shorter.contains(j) || j == i by {
        if shorter.contains(j) {
            let m = choose|m: int| 0 <= m < shorter.len() && shorter[m] == j;
            assert(longer[m] == j);
        }
        if j == i {
            assert(longer[k] == j);
        }
        if longer.contains(j) && j != i {
            let m = choose|m: int| 0 <= m < longer.len() && longer[m] == j;
            assert(shorter[m] == j);
        }
    }
    if considered(handles, i, request) {
        accounts::law_clearing_changes_no_score(handles[i], now);
        assert(after =~= before.update(i, before[i].cleared(now)));
    } else {
        assert(after =~= before);
    }
}

fn try_candidate(request: Request, ranking: Vec<Candidate>, next: usize) -> (step: SelectionStep)
    ensures
        step@ == trying(request@, candidate_views(ranking@), next as int),
{
    if next < ranking.len() {
        SelectionStep::ResolveAuth(AuthWait { request, ranking, next })
    } else {
        SelectionStep::Done(
            Err(RouteError::NoEligibleAccounts { requested_account_id: request.requested }),
        )
    }
}

/// The candidates, best first.
fn rank_candidates(found: Vec<Candidate>, ranks: &Vec<UsageRank>) -> (ranking: Vec<Candidate>)
    requires
        ranks@.len() == found@.len(),
    ensures
        candidate_views(ranking@) == ranked(candidate_views(found@), ranks@),
{
    let mut keys: Vec<RankKey> = Vec::new();
    for k in 0..found.len()
        invariant
            ranks@.len() == found@.len(),
            keys@.len() == k,
            forall|j: int|
                0 <= j < k ==> (#[trigger] keys@[j])@ == rank_keys(
                    candidate_views(found@),
                    ranks@,
                )[j],
    {
        keys.push(
            RankKey {
                reset: ranks[k].reset,
                used: ranks[k].used,
                score: found[k].score,
                id: found[k].id.clone(),
            },
        );
    }
    assert(ranking::key_views(keys@) =~= rank_keys(candidate_views(found@), ranks@));
    let order = ranking::stable_order(&keys);
    let mut ranking: Vec<Candidate> = Vec::new();
    for k in 0..order.len()
        invariant
            order@.len() == found@.len(),
            forall|j: int| 0 <= j < order@.len() ==> #[trigger] order@[j] < found@.len(),
            ranking@.len() == k,
            forall|j: int| 0 <= j < k ==> (#[trigger] ranking@[j])@ == found@[order@[j] as int]@,
    {
        ranking.push(found[order[k]].duplicate());
    }
    assert(candidate_views(ranking@) =~= ranked(candidate_views(found@), ranks@));
    ranking
}

impl AccountRegistry {
    /// Goes on with a choice among all accounts that can be chosen at `now`.
    fn survey_at(&mut self, request: Request, now: i64) -> (step: SelectionStep)
        requires
            all_scorable(old(self)@.handles, request@.listed, request@, now as int),
        ensures
            (final(self)@, step@) == surveyed(old(self)@, request@, now as int),
    {
        let ghost before = self@;
        let ghost all = request@.listed;
        let ghost wanted = request@;
        let mut found: Vec<Candidate> = Vec::new();
        proof {
            lemma_swept_none(before.handles, wanted, now as int);
            assert(all.take(0) =~= Seq::<int>::empty());
            assert(candidate_views(found@) =~= candidates(
                before.handles,
                all.take(0),
                wanted,
                now as int,
            ));
        }
        for k in 0..request.listed.len()
            invariant
                all == request@.listed,
                wanted == request@,
                all_scorable(before.handles, all, wanted, now as int),
                self@ == (RegistryView {
                    handles: swept(before.handles, all.take(k as int), wanted, now as int),
                    ..before
                }),
                candidate_views(found@) == candidates(
                    before.handles,
                    all.take(k as int),
                    wanted,
                    now as int,
                ),
        {
            let i: usize = request.listed[k];
            assert(all[k as int] == i);
            proof {
                lemma_swept_next(before.handles, all, k as int, wanted, now as int);
                assert(all.take(k + 1).drop_last() =~= all.take(k as int));
            }
            let ghost found0 = found@;
            if i < self.count() {
                let wanted_id = request.may_choose(self.id_of(i));
                if wanted_id {
                    assert(considered(before.handles, i as int, wanted));
                    match self.score_at(i, now) {
                        Some(score) => {
                            let id = self.id_of(i).to_string();
                            found.push(Candidate { account: i, id, score });
                            assert(candidate_views(found@) =~= candidate_views(found0).push(
                                found@[found0.len() as int]@,
                            ));
                        },
                        None => {},
                    }
                }
            }
        }
        assert(all.take(all.len() as int) =~= all);
        if request.looks_at_usage() && found.len() > 0 {
            SelectionStep::FetchUsage(
                UsageWait { request, candidates: found, ranks: Vec::new() },
            )
        } else {
            let mut ranks: Vec<UsageRank> = Vec::new();
            for k in 0..found.len()
                invariant
                    ranks@.len() == k,
                    forall|j: int| 0 <= j < k ==> #[trigger] ranks@[j] == no_rank(),
            {
                ranks.push(UsageRank { reset: i64::MIN, used: UNKNOWN_USE });
            }
            assert(ranks@ =~= Seq::new(found@.len(), |k: int| no_rank()));
            let ranking = rank_candidates(found, &ranks);
            try_candidate(request, ranking, 0)
        }
    }

    /// Whether the score of each account of a request's list that is considered at `now` fits.
    fn can_score_all_at(&self, request: &Request, now: i64) -> (r: bool)
        ensures
            r == all_scorable(self@.handles, request@.listed, request@, now as int),
    {
        for k in 0..request.listed.len()
            invariant
                forall|j: int|
                    0 <= j < k && considered(self@.handles, request@.listed[j], request@)
                        ==> self@.handles[#[trigger] request@.listed[j]].scorable_at(now as int),
        {
            let i: usize = request.listed[k];
            assert(request@.listed[k as int] == i);
            if i < self.count() {
                let wanted_id = request.may_choose(self.id_of(i));
                if wanted_id && !self.can_score_at(i, now) {
                    assert(considered(self@.handles, request@.listed[k as int], request@));
                    return false;
                }
            }
        }
        true
    }

    fn new_request(
        &self,
        requested_account_id: Option<&str>,
        session_id: Option<&str>,
        excluded_account_ids: &Vec<String>,
    ) -> (request: Request)
        ensures
            request@ == request_for(
                self@,
                text::str_in(requested_account_id),
                text::str_in(session_id),
                text::texts(excluded_account_ids@),
            ),
            self@.well_formed(),
    {
        Request {
            requested: text::own_text(requested_account_id),
            session: text::own_text(session_id),
            excluded: text::copy_all(excluded_account_ids),
            listed: self.account_numbers(),
        }
    }

    fn begin_at(&mut self, request: Request, now: i64) -> (step: SelectionStep)
        requires
            can_begin(old(self)@, request@, now as int),
        ensures
            (final(self)@, step@) == begun(old(self)@, request@, now as int),
    {
        if request.listed.len() == 0 {
            return SelectionStep::Done(Err(RouteError::NoAccountsConfigured));
        }
        self.survey_at(request, now)
    }

    /// Begins at `now` to choose the account that a request goes to. There is no result exactly if the
    /// reckoning of a score leaves the range of its numbers.
    pub fn select_account_at(
        &mut self,
        requested_account_id: Option<&str>,
        session_id: Option<&str>,
        excluded_account_ids: &Vec<String>,
        now: i64,
    ) -> (r: Option<SelectionStep>)
        ensures
            begins(
                old(self)@,
                request_for(
                    old(self)@,
                    text::str_in(requested_account_id),
                    text::str_in(session_id),
                    text::texts(excluded_account_ids@),
                ),
                now as int,
                final(self)@,
                step_in(r),
            ),
    {
        let request = self.new_request(requested_account_id, session_id, excluded_account_ids);
        if self.can_score_all_at(&request, now) {
            Some(self.begin_at(request, now))
        } else {
            None
        }
    }

    /// Begins to choose the account that a request goes to. There is no result exactly if the
    /// reckoning of a score leaves the range of its numbers.
    pub fn select_account(
        &mut self,
        requested_account_id: Option<&str>,
        session_id: Option<&str>,
        excluded_account_ids: &Vec<String>,
    ) -> (r: Option<SelectionStep>)
        ensures
            exists|now: i64|
                0 <= now && clock::is_timestamp(now as int) && #[trigger] begins(
                    old(self)@,
                    request_for(
                        old(self)@,
                        text::str_in(requested_account_id),
                        text::str_in(session_id),
                        text::texts(excluded_account_ids@),
                    ),
                    now as int,
                    final(self)@,
                    step_in(r),
                ),
    {
        let now: i64 = clock::current_unix_seconds();
        self.select_account_at(requested_account_id, session_id, excluded_account_ids, now)
    }

    /// Goes on with a choice, with what the login came to.
    pub fn resume_with_auth(
        &mut self,
        wait: AuthWait,
        auth: Result<ResolvedUpstreamAuth, ResolveAuthError>,
    ) -> (step: SelectionStep)
        ensures
            (final(self)@, step@) == resumed(old(self)@, wait@, outcome(auth)),
    {
        proof {
            use_type_invariant(&wait);
        }
        let AuthWait { request, ranking, next } = wait;
        let candidate = ranking[next].duplicate();
        match auth {
            Ok(auth) => {
                self.take_lease(candidate.account);
                if let Some(session) = &request.session {
                    self.bind_session_affinity(session.as_str(), candidate.id.as_str());
                }
                SelectionStep::Done(Ok(SelectedAccount { lease: candidate.into_lease(), auth }))
            },
            Err(ResolveAuthError::NotAuthenticated) => {
                if let Some(session) = &request.session {
                    self.clear_session_affinity(session.as_str());
                }
                assert(next < ranking.len());
                try_candidate(request, ranking, next + 1)
            },
            Err(ResolveAuthError::Token(_)) => SelectionStep::Done(
                Err(RouteError::AccountAuthFailed { account_id: candidate.id }),
            ),
        }
    }
}

/// Goes on with a choice, with the usage that was looked up, if it was found.
pub fn resume_with_usage(wait: UsageWait, usage: Option<&AccountUsageSnapshot>) -> (step:
    SelectionStep)
    ensures
        step@ == resumed_with_usage(
            wait@,
            usage_rank(
                match usage {
                    Some(usage) => Some(*usage),
                    None => None,
                },
            ),
        ),
{
    proof {
        use_type_invariant(&wait);
    }
    let UsageWait { request, candidates, mut ranks } = wait;
    ranks.push(rank_usage(usage));
    if ranks.len() < candidates.len() {
        SelectionStep::FetchUsage(UsageWait { request, candidates, ranks })
    } else {
        let ranking = rank_candidates(candidates, &ranks);
        try_candidate(request, ranking, 0)
    }
}

/// The step in an option.
pub open spec fn step_in(r: Option<SelectionStep>) -> Option<StepView> {
    match r {
        Some(step) => Some(step@),
        None => None,
    }
}

/// A request for an account among those there are.
pub open spec fn request_for(
    registry: RegistryView,
    requested: Option<Seq<char>>,
    session: Option<Seq<char>>,
    excluded: Seq<Seq<char>>,
) -> RequestView {
    RequestView { requested, session, excluded, listed: registry.listed }
}

/// A choice that begins at `now` leaves the registry `after` and has come to `step`. It comes to none
/// exactly if a score does not fit, and then changes nothing.
pub open spec fn begins(
    before: RegistryView,
    request: RequestView,
    now: int,
    after: RegistryView,
    step: Option<StepView>,
) -> bool {
    match step {
        Some(step) => can_begin(before, request, now) && (after, step) == begun(
            before,
            request,
            now,
        ),
        None => !can_begin(before, request, now) && after == before,
    }
}

/// What a looked-up usage counts for depends on the long-run limit alone: two lookups that agree on it
/// count the same, whatever they tell of the short run. A reset that is known counts as it is, so the
/// sooner one counts less, and one that is not known, or a usage that was not found, counts as the last
/// of all.
pub proof fn law_only_the_long_run_limit_ranks(a: AccountUsageSnapshot, b: AccountUsageSnapshot)
    ensures
        a.secondary_resets_at == b.secondary_resets_at && a.secondary_used_percent
            == b.secondary_used_percent ==> usage_rank(Some(a)) == usage_rank(Some(b)),
        a.secondary_resets_at is Some && b.secondary_resets_at is Some ==> (usage_rank(
            Some(a),
        ).reset < usage_rank(Some(b)).reset <==> a.secondary_resets_at->0
            < b.secondary_resets_at->0),
        a.secondary_resets_at matches Some(reset) ==> usage_rank(Some(a)).reset == reset,
        a.secondary_resets_at is None ==> usage_rank(Some(a)).reset == i64::MAX,
        usage_rank(None).reset == i64::MAX,
{
}

/// Of two long-run limits the one counts more that is used up further, to the tenth of a percent, and
/// one whose use is not known counts less than one that is not used at all.
pub proof fn law_use_of_the_long_run_limit_ranks(a: AccountUsageSnapshot, b: AccountUsageSnapshot)
    ensures
        a.secondary_used_percent is Some && b.secondary_used_percent is Some ==> (usage_rank(
            Some(a),
        ).used > usage_rank(Some(b)).used <==> a.secondary_used_percent->0.tenths
            > b.secondary_used_percent->0.tenths),
        a.secondary_used_percent matches Some(used) && used.tenths >= 0
            && b.secondary_used_percent is None ==> usage_rank(Some(a)).used > usage_rank(
            Some(b),
        ).used,
        a.secondary_used_percent is None ==> usage_rank(Some(a)).used == usage_rank(None).used,
{
}

/// An account may be chosen for a request exactly if no other one was asked for, and it has not turned
/// the request away.
pub proof fn law_who_may_be_chosen(request: RequestView, id: Seq<char>)
    ensures
        request.requested matches Some(asked) && asked != id ==> !request.may_choose(id),
        request.excluded.contains(id) ==> !request.may_choose(id),
        (request.requested matches Some(asked) ==> asked == id) && !request.excluded.contains(id)
            ==> request.may_choose(id),
{
}

/// Usage is looked up exactly if some account turned the request away, no account was asked for, and
/// there is one to choose.
pub proof fn law_when_usage_is_looked_up(registry: RegistryView, request: RequestView, now: int)
    requires
        request.listed.len() > 0,
    ensures
        begun(registry, request, now).1 is FetchUsage <==> {
            &&& request.excluded.len() > 0
            &&& request.requested is None
            &&& candidates(registry.handles, request.listed, request, now).len() > 0
        },
{
}

/// Beginning a choice changes no account but for lifting rate limits whose time is over, and those only
/// of accounts that may be chosen.
pub proof fn law_beginning_only_lifts_limits(
    registry: RegistryView,
    request: RequestView,
    now: int,
    i: int,
)
    requires
        0 <= i < registry.handles.len(),
    ensures
        ({
            let after = begun(registry, request, now).0;
            let handle = registry.handles[i];
            &&& after.handles.len() == registry.handles.len()
            &&& after.listed == registry.listed
            &&& after.affinity == registry.affinity
            &&& after.handles[i] != handle ==> {
                &&& request.listed.contains(i)
                &&& !request.excluded.contains(handle.record.id)
                &&& request.requested is Some ==> handle.record.id == request.requested->0
                &&& handle.record.state == accounts::AccountState::RateLimited
                &&& handle.cooldown_until <= now
                &&& after.handles[i] == handle.in_state(accounts::AccountState::Healthy)
            }
            &&& request.listed.contains(i) && !request.excluded.contains(handle.record.id)
                && request.requested is None && handle.record.state
                == accounts::AccountState::RateLimited && handle.cooldown_until <= now
                ==> after.handles[i].record.state == accounts::AccountState::Healthy
        }),
{
}

/// What a login came to is told apart: a token, no login, or a token that cannot be had.
pub proof fn law_outcomes(auth: Result<ResolvedUpstreamAuth, ResolveAuthError>)
    ensures
        auth matches Ok(found) ==> outcome(auth) == AuthOutcome::Resolved(found@),
        auth matches Err(ResolveAuthError::NotAuthenticated) ==> outcome(auth) is NotAuthenticated,
        auth matches Err(ResolveAuthError::Token(_)) ==> outcome(auth) is TokenFailed,
{
}

/// After a login that came to a token the choice is made, one more request is under way on the account,
/// and the session, if there is one, goes to it from now on. After one that came to nothing the session
/// goes to no account, and the next candidate is asked about, or none is left. After a token that cannot
/// be had the choice fails, with the id of its account.
pub proof fn law_what_a_login_leads_to(
    registry: RegistryView,
    wait: AuthWaitView,
    outcome: AuthOutcome,
)
    requires
        wait.well_formed(),
    ensures
        ({
            let (after, step) = resumed(registry, wait, outcome);
            let asked = wait.ranking[wait.next];
            match outcome {
                AuthOutcome::Resolved(auth) => {
                    &&& step is Done
                    &&& step->Done_0 is Ok
                    &&& step->Done_0->Ok_0.lease == asked
                    &&& step->Done_0->Ok_0.auth == auth
                    &&& 0 <= asked.account < registry.handles.len()
                        && registry.handles[asked.account].inflight < usize::MAX
                        ==> after.handles[asked.account].inflight
                        == registry.handles[asked.account].inflight + 1
                    &&& wait.request.session matches Some(session) ==> after.affinity
                        == registry.affinity.insert(session, asked.id)
                    &&& wait.request.session is None ==> after.affinity == registry.affinity
                    &&& after.listed == registry.listed
                },
                AuthOutcome::NotAuthenticated => {
                    &&& after.handles == registry.handles
                    &&& after.listed == registry.listed
                    &&& wait.request.session matches Some(session) ==> after.affinity
                        == registry.affinity.remove(session)
                    &&& wait.request.session is None ==> after.affinity == registry.affinity
                    &&& wait.next + 1 < wait.ranking.len() ==> step is ResolveAuth
                        && step->ResolveAuth_0.asked() == wait.ranking[wait.next + 1]
                    &&& wait.next + 1 == wait.ranking.len() ==> step == StepView::Done(
                        Err(
                            RouteErrorView::NoEligibleAccounts {
                                requested_account_id: wait.request.requested,
                            },
                        ),
                    )
                },
                AuthOutcome::TokenFailed => {
                    &&& after == registry
                    &&& step == StepView::Done(
                        Err(RouteErrorView::AccountAuthFailed { account_id: asked.id }),
                    )
                },
            }
        }),
{
}

/// What a usage counts for when it is looked up depends on the long-run limit alone. Of two the one
/// whose reset is known to be sooner counts less, and one whose reset is not known counts the most.
proof fn law_ranking_usage(
    a: Option<&AccountUsageSnapshot>,
    b: Option<&AccountUsageSnapshot>,
    r: UsageRank,
    s: UsageRank,
)
    requires
        call_ensures(rank_usage, (a,), r),
        call_ensures(rank_usage, (b,), s),
    ensures
        a is Some && b is Some && a->0.secondary_resets_at == b->0.secondary_resets_at
            && a->0.secondary_used_percent == b->0.secondary_used_percent ==> r == s,
        a is Some && b is Some && a->0.secondary_resets_at is Some && b->0.secondary_resets_at is Some
            ==> (r.reset < s.reset <==> a->0.secondary_resets_at->0 < b->0.secondary_resets_at->0),
        a is None || a->0.secondary_resets_at is None ==> r.reset == i64::MAX,
        a is Some && b is Some && a->0.secondary_used_percent is Some
            && b->0.secondary_used_percent is Some ==> (r.used > s.used
            <==> a->0.secondary_used_percent->0.tenths > b->0.secondary_used_percent->0.tenths),
        a is None || a->0.secondary_used_percent is None ==> r.used == -1,
{
    if a is Some && b is Some {
        law_only_the_long_run_limit_ranks(*a->0, *b->0);
        law_use_of_the_long_run_limit_ranks(*a->0, *b->0);
    }
}

/// Going on with a usage that was looked up asks about the next candidate, and after the last of them
/// about the login of the one that ranks first.
pub proof fn law_going_on_with_usage(
    wait: UsageWait,
    usage: Option<&AccountUsageSnapshot>,
    step: SelectionStep,
)
    requires
        call_ensures(resume_with_usage, (wait, usage), step),
        wait@.well_formed(),
    ensures
        wait@.ranks.len() + 1 < wait@.candidates.len() ==> {
            &&& step@ is FetchUsage
            &&& step@->FetchUsage_0.candidates == wait@.candidates
            &&& step@->FetchUsage_0.request == wait@.request
            &&& step@->FetchUsage_0.asked() == wait@.candidates[wait@.ranks.len() as int + 1]
            &&& step@->FetchUsage_0.ranks.len() == wait@.ranks.len() + 1
            &&& usage is Some && usage->0.secondary_resets_at is Some
                ==> step@->FetchUsage_0.ranks.last().reset == usage->0.secondary_resets_at->0
        },
        wait@.ranks.len() + 1 == wait@.candidates.len() ==> step@ is ResolveAuth
            && step@->ResolveAuth_0.request == wait@.request && step@->ResolveAuth_0.next == 0,
{
}

/// Going on with what a login came to makes the choice, asks about the next candidate, or fails.
pub proof fn law_going_on_with_a_login(
    registry: &mut AccountRegistry,
    wait: AuthWait,
    auth: Result<ResolvedUpstreamAuth, ResolveAuthError>,
    step: SelectionStep,
)
    requires
        call_ensures(AccountRegistry::resume_with_auth, (registry, wait, auth), step),
        wait@.well_formed(),
    ensures
        ({
            let asked = wait@.ranking[wait@.next];
            match auth {
                Ok(found) => {
                    &&& step@ is Done
                    &&& step@->Done_0 is Ok
                    &&& step@->Done_0->Ok_0.lease == asked
                    &&& step@->Done_0->Ok_0.auth == found@
                    &&& wait@.request.session matches Some(session)
                        ==> final(registry)@.affinity.contains_key(session)
                        && final(registry)@.affinity[session] == asked.id
                },
                Err(ResolveAuthError::NotAuthenticated) => {
                    &&& final(registry)@.handles == old(registry)@.handles
                    &&& wait@.request.session matches Some(session)
                        ==> !final(registry)@.affinity.contains_key(session)
                    &&& wait@.next + 1 < wait@.ranking.len() ==> step@ is ResolveAuth
                        && step@->ResolveAuth_0.asked() == wait@.ranking[wait@.next + 1]
                    &&& wait@.next + 1 == wait@.ranking.len() ==> step@ is Done
                        && step@->Done_0 is Err && step@->Done_0->Err_0 is NoEligibleAccounts
                },
                Err(ResolveAuthError::Token(_)) => {
                    &&& final(registry)@ == old(registry)@
                    &&& step@ == StepView::Done(
                        Err(RouteErrorView::AccountAuthFailed { account_id: asked.id }),
                    )
                },
            }
        }),
{
    law_what_a_login_leads_to(registry@, wait@, outcome(auth));
}

/// The lease of an account notes successes and failures on that account alone, and when it is given
/// back one request less is under way on it.
pub proof fn law_leases(
    lease: &AccountLease,
    good: &mut AccountRegistry,
    bad: &mut AccountRegistry,
    held: AccountLease,
    back: &mut AccountRegistry,
    i: int,
)
    requires
        call_ensures(AccountLease::note_success, (lease, good), ()),
        call_ensures(AccountLease::note_failure, (lease, bad), ()),
        call_ensures(AccountLease::release, (held, back), ()),
    ensures
        final(good)@.listed == old(good)@.listed && final(good)@.affinity == old(good)@.affinity,
        final(bad)@.listed == old(bad)@.listed && final(bad)@.affinity == old(bad)@.affinity,
        final(back)@.listed == old(back)@.listed && final(back)@.affinity == old(back)@.affinity,
        0 <= i < old(good)@.handles.len() && i == lease@.account ==> final(good)@.handles[i].recent_failures == 0 && final(good)@.handles[i].cooldown_until == 0,
        0 <= i < old(good)@.handles.len() && i != lease@.account ==> final(good)@.handles[i] == old(
            good,
        )@.handles[i],
        0 <= i < old(bad)@.handles.len() && i == lease@.account && old(
            bad,
        )@.handles[i].recent_failures < u32::MAX ==> final(bad)@.handles[i].recent_failures == old(
            bad,
        )@.handles[i].recent_failures + 1,
        0 <= i < old(bad)@.handles.len() && i != lease@.account ==> final(bad)@.handles[i] == old(
            bad,
        )@.handles[i],
        0 <= i < old(back)@.handles.len() && i == held@.account && old(back)@.handles[i].inflight > 0
            ==> final(back)@.handles[i].inflight == old(back)@.handles[i].inflight - 1,
        0 <= i < old(back)@.handles.len() && i != held@.account ==> final(back)@.handles[i] == old(
            back,
        )@.handles[i],
{
}

/// A choice tells the id and the score of the account that it was made of, and a question is about the
/// account that stands next.
pub proof fn law_choices_tell_their_account(
    lease: &AccountLease,
    id: String,
    score: i32,
    login: &AuthWait,
    first: usize,
    usage: &UsageWait,
    second: usize,
)
    requires
        call_ensures(AccountLease::account_id, (lease,), id),
        call_ensures(AccountLease::score, (lease,), score),
        call_ensures(AuthWait::account, (login,), first),
        call_ensures(UsageWait::account, (usage,), second),
    ensures
        id@ == lease@.id,
        score == lease@.score,
        first == login@.ranking[login@.next].account,
        second == usage@.candidates[usage@.ranks.len() as int].account,
{
}

/// A choice is begun wherever preferences and loads are moderate.
pub proof fn law_choice_is_begun(
    registry: &mut AccountRegistry,
    requested: Option<&str>,
    session: Option<&str>,
    excluded: &Vec<String>,
    now: i64,
    r: Option<SelectionStep>,
)
    requires
        call_ensures(
            AccountRegistry::select_account_at,
            (registry, requested, session, excluded, now),
            r,
        ),
        forall|i: int|
            0 <= i < old(registry)@.handles.len() ==> {
                let handle = #[trigger] old(registry)@.handles[i];
                &&& -1_000_000_000 <= handle.record.preference <= 1_000_000_000
                &&& handle.inflight <= 10_000_000
                &&& handle.recent_failures <= 10_000_000
            },
    ensures
        r is Some,
        old(registry)@.listed.len() == 0 ==> r->0@ == StepView::Done(
            Err(RouteErrorView::NoAccountsConfigured),
        ),
{
    let before = registry@;
    assert forall|i: int| 0 <= i < before.handles.len() implies (
    #[trigger] before.handles[i]).scorable_at(now as int) by {
        accounts::law_moderate_scores_fit(before.handles[i], now as int);
    }
}

} // verus!
