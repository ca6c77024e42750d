//! What the choice of an account comes to as a whole, when its questions are answered.

use vstd::prelude::*;

use crate::accounts;
use crate::accounts::AccountUsageSnapshot;
use crate::accounts::HandleView;
use crate::accounts::RouteErrorView;
use crate::ranking;
use crate::registry;
use crate::registry::AccountRegistry;
use crate::registry::RegistryView;
use crate::selection;
use crate::selection::AuthOutcome;
use crate::selection::CandidateView;
use crate::selection::RequestView;
use crate::selection::SelectedView;
use crate::selection::SelectionStep;
use crate::selection::StepView;
use crate::selection::UsageRank;
use crate::selection::UsageWaitView;
use crate::text;

verus! {

/// How many kinds of questions are still to come.
pub open spec fn stage(step: StepView) -> nat {
    match step {
        StepView::Done(_) => 0,
        StepView::ResolveAuth(_) => 1,
        StepView::FetchUsage(_) => 2,
    }
}

/// How many questions of the present kind are still to come.
pub open spec fn questions(step: StepView) -> int {
    match step {
        StepView::Done(_) => 0,
        StepView::ResolveAuth(wait) => wait.ranking.len() - wait.next,
        StepView::FetchUsage(wait) => wait.candidates.len() - wait.ranks.len(),
    }
}

/// What a choice that has come to `step` comes to when the login of account `i` comes to `auth(i)`, and
/// its usage counts for `usage(i)`. A choice always stops with a question; one that did not would come
/// to nothing.
pub open spec fn run(
    registry: RegistryView,
    step: StepView,
    auth: spec_fn(int) -> AuthOutcome,
    usage: spec_fn(int) -> UsageRank,
) -> (RegistryView, Result<SelectedView, RouteErrorView>)
    decreases stage(step), questions(step),
{
    match step {
        StepView::Done(result) => (registry, result),
        StepView::ResolveAuth(wait) => if wait.well_formed() {
            let (after, next) = selection::resumed(registry, wait, auth(wait.asked().account));
            run(after, next, auth, usage)
        } else {
            (registry, Err(RouteErrorView::NoAccountsConfigured))
        },
        StepView::FetchUsage(wait) => if wait.well_formed() {
            let next = selection::resumed_with_usage(wait, usage(wait.asked().account));
            run(registry, next, auth, usage)
        } else {
            (registry, Err(RouteErrorView::NoAccountsConfigured))
        },
    }
}

/// The first of the candidates from `next` on that is logged in.
pub open spec fn first_login(
    ranking: Seq<CandidateView>,
    auth: spec_fn(int) -> AuthOutcome,
    next: int,
) -> Option<int>
    decreases ranking.len() - next,
{
    if next < 0 || next >= ranking.len() {
        None
    } else if auth(ranking[next].account) is NotAuthenticated {
        first_login(ranking, auth, next + 1)
    } else {
        Some(next)
    }
}

/// What a choice among ranked candidates comes to.
pub open spec fn verdict(
    request: RequestView,
    ranking: Seq<CandidateView>,
    auth: spec_fn(int) -> AuthOutcome,
    next: int,
) -> Result<SelectedView, RouteErrorView> {
    match first_login(ranking, auth, next) {
        Some(k) => match auth(ranking[k].account) {
            AuthOutcome::Resolved(auth) => Ok(SelectedView { lease: ranking[k], auth }),
            _ => Err(RouteErrorView::AccountAuthFailed { account_id: ranking[k].id }),
        },
        None => Err(RouteErrorView::NoEligibleAccounts { requested_account_id: request.requested }),
    }
}

/// What the usage of the candidates counts for.
pub open spec fn usage_ranks(
    request: RequestView,
    found: Seq<CandidateView>,
    usage: spec_fn(int) -> UsageRank,
) -> Seq<UsageRank> {
    if request.looks_at_usage() {
        Seq::new(found.len(), |k: int| usage(found[k].account))
    } else {
        Seq::new(found.len(), |k: int| selection::no_rank())
    }
}

/// The accounts that can be chosen for a request at `now`, best first.
pub open spec fn choices(
    registry: RegistryView,
    request: RequestView,
    usage: spec_fn(int) -> UsageRank,
    now: int,
) -> Seq<CandidateView> {
    let found = selection::candidates(registry.handles, request.listed, request, now);
    selection::ranked(found, usage_ranks(request, found, usage))
}

/// What a choice among the accounts there are comes to that begins at `now`.
pub open spec fn routed(
    registry: RegistryView,
    request: RequestView,
    auth: spec_fn(int) -> AuthOutcome,
    usage: spec_fn(int) -> UsageRank,
    now: int,
) -> Result<SelectedView, RouteErrorView> {
    verdict(request, choices(registry, request, usage, now), auth, 0)
}

proof fn lemma_trying(
    registry: RegistryView,
    request: RequestView,
    ranking: Seq<CandidateView>,
    next: int,
    auth: spec_fn(int) -> AuthOutcome,
    usage: spec_fn(int) -> UsageRank,
)
    requires
        0 <= next,
    ensures
        run(registry, selection::trying(request, ranking, next), auth, usage).1 == verdict(
            request,
            ranking,
            auth,
            next,
        ),
    decreases ranking.len() - next,
{
    if next < ranking.len() {
        match auth(ranking[next].account) {
            AuthOutcome::NotAuthenticated => {
                lemma_trying(
                    registry.unbound(request.session),
                    request,
                    ranking,
                    next + 1,
                    auth,
                    usage,
                );
            },
            AuthOutcome::Resolved(_) => {
                reveal_with_fuel(run, 2);
            },
            AuthOutcome::TokenFailed => {
                reveal_with_fuel(run, 2);
            },
        }
    }
}

proof fn lemma_usage(
    registry: RegistryView,
    wait: UsageWaitView,
    auth: spec_fn(int) -> AuthOutcome,
    usage: spec_fn(int) -> UsageRank,
)
    requires
        wait.well_formed(),
        forall|k: int|
            0 <= k < wait.ranks.len() ==> #[trigger] wait.ranks[k] == usage(
                wait.candidates[k].account,
            ),
    ensures
        run(registry, StepView::FetchUsage(wait), auth, usage).1 == verdict(
            wait.request,
            selection::ranked(
                wait.candidates,
                Seq::new(wait.candidates.len(), |k: int| usage(wait.candidates[k].account)),
            ),
            auth,
            0,
        ),
    decreases wait.candidates.len() - wait.ranks.len(),
{
    let ranks = wait.ranks.push(usage(wait.asked().account));
    if ranks.len() < wait.candidates.len() {
        lemma_usage(registry, UsageWaitView { ranks, ..wait }, auth, usage);
    } else {
        let all = Seq::new(wait.candidates.len(), |k: int| usage(wait.candidates[k].account));
        assert(ranks =~= all);
        lemma_trying(
            registry,
            wait.request,
            selection::ranked(wait.candidates, ranks),
            0,
            auth,
            usage,
        );
    }
}

proof fn lemma_surveyed(
    registry: RegistryView,
    request: RequestView,
    auth: spec_fn(int) -> AuthOutcome,
    usage: spec_fn(int) -> UsageRank,
    now: int,
)
    ensures
        ({
            let (after, step) = selection::surveyed(registry, request, now);
            run(after, step, auth, usage).1 == verdict(
                request,
                choices(registry, request, usage, now),
                auth,
                0,
            )
        }),
{
    let found = selection::candidates(registry.handles, request.listed, request, now);
    let (after, step) = selection::surveyed(registry, request, now);
    if request.looks_at_usage() && found.len() > 0 {
        lemma_usage(
            after,
            UsageWaitView { request, candidates: found, ranks: Seq::empty() },
            auth,
            usage,
        );
    } else {
        let plain = Seq::new(found.len(), |k: int| selection::no_rank());
        assert(usage_ranks(request, found, usage) =~= plain);
        lemma_trying(after, request, selection::ranked(found, plain), 0, auth, usage);
    }
}

/// The whole choice: the best of the candidates that is logged in. If that one's token cannot be had
/// the request fails, and it also fails if no candidate is logged in.
pub proof fn law_choice(
    registry: RegistryView,
    request: RequestView,
    auth: spec_fn(int) -> AuthOutcome,
    usage: spec_fn(int) -> UsageRank,
    now: int,
)
    requires
        registry.well_formed(),
        request.listed == registry.listed,
    ensures
        ({
            let (after, step) = selection::begun(registry, request, now);
            run(after, step, auth, usage).1 == if registry.listed.len() == 0 {
                Err(RouteErrorView::NoAccountsConfigured)
            } else {
                routed(registry, request, auth, usage, now)
            }
        }),
{
    if registry.listed.len() > 0 {
        lemma_surveyed(registry, request, auth, usage, now);
    }
}

proof fn lemma_candidate(
    handles: Seq<HandleView>,
    listed: Seq<int>,
    request: RequestView,
    now: int,
    candidate: CandidateView,
)
    ensures
        selection::candidates(handles, listed, request, now).contains(candidate) <==> {
            &&& listed.contains(candidate.account)
            &&& selection::considered(handles, candidate.account, request)
            &&& candidate.id == handles[candidate.account].record.id
            &&& handles[candidate.account].score_at(now) == Some(candidate.score)
        },
    decreases listed.len(),
{
    let found = selection::candidates(handles, listed, request, now);
    if listed.len() > 0 {
        let init = listed.drop_last();
        let last = listed.last();
        lemma_candidate(handles, init, request, now, candidate);
        let before = selection::candidates(handles, init, request, now);
        if init.contains(candidate.account) {
            let k = choose|k: int| 0 <= k < init.len() && init[k] == candidate.account;
            assert(listed[k] == candidate.account);
        }
        if listed.contains(candidate.account) && candidate.account != last {
            let k = choose|k: int| 0 <= k < listed.len() && listed[k] == candidate.account;
            assert(init[k] == candidate.account);
        }
        if candidate.account == last {
            assert(listed[listed.len() - 1] == last);
        }
        if before.contains(candidate) {
            let k = choose|k: int| 0 <= k < before.len() && before[k] == candidate;
            assert(found[k] == candidate);
        }
        if found.contains(candidate) && !before.contains(candidate) {
            let k = choose|k: int| 0 <= k < found.len() && found[k] == candidate;
            if k < before.len() {
                assert(before[k] == candidate);
            }
        }
        if selection::considered(handles, last, request) && handles[last].accepts(now) {
            assert(found[before.len() as int] == found.last());
        }
    }
}

/// An account is a candidate exactly if it is listed, may be chosen for the request and takes new
/// requests, and it is one with its score.
pub proof fn law_candidates(
    registry: RegistryView,
    request: RequestView,
    now: int,
    candidate: CandidateView,
)
    requires
        registry.well_formed(),
        request.listed == registry.listed,
    ensures
        selection::candidates(registry.handles, request.listed, request, now).contains(candidate)
            <==> {
            &&& registry.listed.contains(candidate.account)
            &&& request.may_choose(candidate.id)
            &&& candidate.id == registry.handles[candidate.account].record.id
            &&& registry.handles[candidate.account].score_at(now) == Some(candidate.score)
        },
{
    lemma_candidate(registry.handles, request.listed, request, now, candidate);
    if registry.listed.contains(candidate.account) {
        let k = choose|k: int|
            0 <= k < registry.listed.len() && registry.listed[k] == candidate.account;
        assert(0 <= registry.listed[k] < registry.handles.len());
    }
}

/// Ranking the candidates neither adds nor loses one.
pub proof fn law_ranking_keeps_the_candidates(
    found: Seq<CandidateView>,
    ranks: Seq<UsageRank>,
    candidate: CandidateView,
)
    requires
        found.len() <= usize::MAX,
    ensures
        selection::ranked(found, ranks).len() == found.len(),
        selection::ranked(found, ranks).contains(candidate) <==> found.contains(candidate),
{
    let keys = selection::rank_keys(found, ranks);
    let order = ranking::sorted(keys);
    let ranking = selection::ranked(found, ranks);
    ranking::stable_order_exists(keys);
    if ranking.contains(candidate) {
        let k = choose|k: int| 0 <= k < ranking.len() && ranking[k] == candidate;
        assert(order[k] < keys.len());
        assert(found[order[k] as int] == candidate);
    }
    if found.contains(candidate) {
        let j = choose|j: int| 0 <= j < found.len() && found[j] == candidate;
        assert(order.contains(j as usize));
        let k = choose|k: int| 0 <= k < order.len() && order[k] == j as usize;
        assert(ranking[k] == candidate);
    }
}

/// Without a look at usage the candidates stand by their scores, the highest first, and those with
/// the same score by their ids.
pub proof fn law_highest_score_comes_first(found: Seq<CandidateView>, a: int, b: int)
    requires
        found.len() <= usize::MAX,
        0 <= a < b < found.len(),
    ensures
        ({
            let ranking = selection::ranked(
                found,
                Seq::new(found.len(), |k: int| selection::no_rank()),
            );
            &&& ranking[a].score >= ranking[b].score
            &&& ranking[a].score == ranking[b].score ==> crate::text::text_before(
                ranking[a].id,
                ranking[b].id,
            ) || ranking[a].id == ranking[b].id
        }),
{
    let ranks = Seq::new(found.len(), |k: int| selection::no_rank());
    let keys = selection::rank_keys(found, ranks);
    let order = ranking::sorted(keys);
    ranking::stable_order_exists(keys);
    assert(order[a] < keys.len());
    assert(order[b] < keys.len());
    assert(ranking::precedes(keys, order[a] as int, order[b] as int));
}

/// With a look at usage the candidates stand by when their long-run limit starts afresh, the soonest
/// first, and of those with the same time the one that has used most stands first. Those with the same
/// usage stand by their scores, the highest first, and those with the same score by their ids.
pub proof fn law_soonest_reset_comes_first(
    found: Seq<CandidateView>,
    usage: spec_fn(int) -> UsageRank,
    a: int,
    b: int,
)
    requires
        found.len() <= usize::MAX,
        0 <= a < b < found.len(),
    ensures
        ({
            let ranking = selection::ranked(
                found,
                Seq::new(found.len(), |k: int| usage(found[k].account)),
            );
            let first = usage(ranking[a].account);
            let second = usage(ranking[b].account);
            &&& first.reset <= second.reset
            &&& first.reset == second.reset ==> first.used >= second.used
            &&& first == second ==> ranking[a].score >= ranking[b].score
            &&& first == second && ranking[a].score == ranking[b].score ==> crate::text::text_before(
                ranking[a].id,
                ranking[b].id,
            ) || ranking[a].id == ranking[b].id
        }),
{
    let ranks = Seq::new(found.len(), |k: int| usage(found[k].account));
    let keys = selection::rank_keys(found, ranks);
    let order = ranking::sorted(keys);
    ranking::stable_order_exists(keys);
    assert(order[a] < keys.len());
    assert(order[b] < keys.len());
    assert(ranking::precedes(keys, order[a] as int, order[b] as int));
}

proof fn lemma_first_login(ranking: Seq<CandidateView>, auth: spec_fn(int) -> AuthOutcome, next: int)
    requires
        0 <= next,
    ensures
        match first_login(ranking, auth, next) {
            Some(k) => {
                &&& next <= k < ranking.len()
                &&& !(auth(ranking[k].account) is NotAuthenticated)
                &&& forall|j: int|
                    next <= j < k ==> auth((#[trigger] ranking[j]).account) is NotAuthenticated
            },
            None => forall|j: int|
                next <= j < ranking.len() ==> auth(
                    (#[trigger] ranking[j]).account,
                ) is NotAuthenticated,
        },
    decreases ranking.len() - next,
{
    if next < ranking.len() && auth(ranking[next].account) is NotAuthenticated {
        lemma_first_login(ranking, auth, next + 1);
    }
}

/// A chosen account is listed, has the id that was asked for, if any, has none of the ids that were
/// turned away, took new requests when it was looked at and is logged in; the lease tells its id and
/// the score that it had then.
pub proof fn law_chosen_account(
    registry: RegistryView,
    request: RequestView,
    auth: spec_fn(int) -> AuthOutcome,
    usage: spec_fn(int) -> UsageRank,
    now: int,
)
    requires
        registry.well_formed(),
        request.listed == registry.listed,
        registry.listed.len() <= usize::MAX,
    ensures
        routed(registry, request, auth, usage, now) matches Ok(chosen) ==> {
            let lease = chosen.lease;
            &&& registry.listed.contains(lease.account)
            &&& lease.id == registry.handles[lease.account].record.id
            &&& request.requested is Some ==> lease.id == request.requested->0
            &&& !request.excluded.contains(lease.id)
            &&& registry.handles[lease.account].score_at(now) == Some(lease.score)
            &&& auth(lease.account) == AuthOutcome::Resolved(chosen.auth)
        },
{
    let found = selection::candidates(registry.handles, request.listed, request, now);
    let ranking = choices(registry, request, usage, now);
    lemma_candidates_len(registry.handles, request.listed, request, now);
    lemma_first_login(ranking, auth, 0);
    match first_login(ranking, auth, 0) {
        Some(k) => {
            assert(ranking.contains(ranking[k]));
            law_ranking_keeps_the_candidates(
                found,
                usage_ranks(request, found, usage),
                ranking[k],
            );
            law_candidates(registry, request, now, ranking[k]);
        },
        None => {},
    }
}

proof fn lemma_candidates_len(
    handles: Seq<HandleView>,
    listed: Seq<int>,
    request: RequestView,
    now: int,
)
    ensures
        selection::candidates(handles, listed, request, now).len() <= listed.len(),
    decreases listed.len(),
{
    if listed.len() > 0 {
        lemma_candidates_len(handles, listed.drop_last(), request, now);
    }
}

/// No better candidate is passed over: those that rank before the chosen one are not logged in. If a
/// token could not be had, it was that of the best candidate that is logged in. And if no account is
/// found although there are some, no candidate is logged in.
pub proof fn law_best_login_is_chosen(
    registry: RegistryView,
    request: RequestView,
    auth: spec_fn(int) -> AuthOutcome,
    usage: spec_fn(int) -> UsageRank,
    now: int,
    better: int,
)
    requires
        registry.well_formed(),
        request.listed == registry.listed,
        0 <= better < choices(registry, request, usage, now).len(),
    ensures
        ({
            let ranking = choices(registry, request, usage, now);
            let asleep = auth(ranking[better].account) is NotAuthenticated;
            match routed(registry, request, auth, usage, now) {
                Ok(chosen) => {
                    ||| asleep
                    ||| exists|k: int| 0 <= k <= better && #[trigger] ranking[k] == chosen.lease
                },
                Err(RouteErrorView::AccountAuthFailed { account_id }) => {
                    ||| asleep
                    ||| exists|k: int|
                        {
                            &&& 0 <= k <= better
                            &&& (#[trigger] ranking[k]).id == account_id
                            &&& auth(ranking[k].account) is TokenFailed
                        }
                },
                Err(RouteErrorView::NoEligibleAccounts { .. }) => asleep,
                Err(RouteErrorView::NoAccountsConfigured) => false,
            }
        }),
{
    let ranking = choices(registry, request, usage, now);
    lemma_first_login(ranking, auth, 0);
    match first_login(ranking, auth, 0) {
        Some(k) => {
            if k <= better {
                assert(ranking[k] == ranking[k]);
            } else {
                assert(auth(ranking[better].account) is NotAuthenticated);
            }
        },
        None => {
            assert(auth(ranking[better].account) is NotAuthenticated);
        },
    }
}

proof fn lemma_candidates_ignore_sessions(
    handles: Seq<HandleView>,
    listed: Seq<int>,
    request: RequestView,
    other: RequestView,
    now: int,
)
    requires
        request.requested == other.requested,
        request.excluded == other.excluded,
    ensures
        selection::candidates(handles, listed, request, now) == selection::candidates(
            handles,
            listed,
            other,
            now,
        ),
    decreases listed.len(),
{
    if listed.len() > 0 {
        lemma_candidates_ignore_sessions(handles, listed.drop_last(), request, other, now);
    }
}

/// Routing is not sticky: the choice is the same whatever session a request belongs to, and whichever
/// accounts the requests of the sessions went to before.
pub proof fn law_choice_ignores_sessions(
    registry: RegistryView,
    affinity: Map<Seq<char>, Seq<char>>,
    request: RequestView,
    session: Option<Seq<char>>,
    auth: spec_fn(int) -> AuthOutcome,
    usage: spec_fn(int) -> UsageRank,
    now: int,
)
    requires
        registry.well_formed(),
        request.listed == registry.listed,
    ensures
        ({
            let elsewhere = RegistryView { affinity, ..registry };
            let other = RequestView { session, ..request };
            let (after, step) = selection::begun(registry, request, now);
            let (after2, step2) = selection::begun(elsewhere, other, now);
            &&& routed(registry, request, auth, usage, now) == routed(
                elsewhere,
                other,
                auth,
                usage,
                now,
            )
            &&& run(after, step, auth, usage).1 == run(after2, step2, auth, usage).1
        }),
{
    let elsewhere = RegistryView { affinity, ..registry };
    let other = RequestView { session, ..request };
    lemma_candidates_ignore_sessions(registry.handles, registry.listed, request, other, now);
    law_choice(registry, request, auth, usage, now);
    law_choice(elsewhere, other, auth, usage, now);
}

proof fn lemma_trying_after(
    registry: RegistryView,
    request: RequestView,
    ranking: Seq<CandidateView>,
    next: int,
    auth: spec_fn(int) -> AuthOutcome,
    usage: spec_fn(int) -> UsageRank,
)
    requires
        0 <= next,
    ensures
        left_by(
            registry.handles,
            request,
            run(registry, selection::trying(request, ranking, next), auth, usage),
        ),
    decreases ranking.len() - next,
{
    if next < ranking.len() {
        match auth(ranking[next].account) {
            AuthOutcome::NotAuthenticated => {
                lemma_trying_after(
                    registry.unbound(request.session),
                    request,
                    ranking,
                    next + 1,
                    auth,
                    usage,
                );
            },
            AuthOutcome::Resolved(_) => {
                reveal_with_fuel(run, 2);
            },
            AuthOutcome::TokenFailed => {
                reveal_with_fuel(run, 2);
            },
        }
    }
}

/// What a choice leaves behind, given the accounts before: if it found one, that has one more request
/// under way, and it is noted that the session's request went to it. The others have as many as before.
pub open spec fn left_by(
    before: Seq<HandleView>,
    request: RequestView,
    run: (RegistryView, Result<SelectedView, RouteErrorView>),
) -> bool {
    let (after, result) = run;
    &&& after.handles.len() == before.len()
    &&& forall|i: int|
        0 <= i < before.len() ==> (#[trigger] after.handles[i]).inflight == if result is Ok
            && result->Ok_0.lease.account == i {
            before[i].with_lease().inflight
        } else {
            before[i].inflight
        }
    &&& result is Ok && request.session is Some ==> {
        &&& after.affinity.contains_key(request.session->0)
        &&& after.affinity[request.session->0] == result->Ok_0.lease.id
    }
}

proof fn lemma_usage_after(
    registry: RegistryView,
    wait: UsageWaitView,
    auth: spec_fn(int) -> AuthOutcome,
    usage: spec_fn(int) -> UsageRank,
)
    requires
        wait.well_formed(),
    ensures
        left_by(
            registry.handles,
            wait.request,
            run(registry, StepView::FetchUsage(wait), auth, usage),
        ),
    decreases wait.candidates.len() - wait.ranks.len(),
{
    let ranks = wait.ranks.push(usage(wait.asked().account));
    if ranks.len() < wait.candidates.len() {
        lemma_usage_after(registry, UsageWaitView { ranks, ..wait }, auth, usage);
    } else {
        lemma_trying_after(
            registry,
            wait.request,
            selection::ranked(wait.candidates, ranks),
            0,
            auth,
            usage,
        );
    }
}

proof fn lemma_surveyed_after(
    registry: RegistryView,
    request: RequestView,
    auth: spec_fn(int) -> AuthOutcome,
    usage: spec_fn(int) -> UsageRank,
    now: int,
)
    ensures
        ({
            let (after, step) = selection::surveyed(registry, request, now);
            left_by(registry.handles, request, run(after, step, auth, usage))
        }),
{
    let found = selection::candidates(registry.handles, request.listed, request, now);
    let (after, step) = selection::surveyed(registry, request, now);
    if request.looks_at_usage() && found.len() > 0 {
        lemma_usage_after(
            after,
            UsageWaitView { request, candidates: found, ranks: Seq::empty() },
            auth,
            usage,
        );
    } else {
        let plain = Seq::new(found.len(), |k: int| selection::no_rank());
        lemma_trying_after(after, request, selection::ranked(found, plain), 0, auth, usage);
    }
    let result = run(after, step, auth, usage);
    assert forall|i: int| 0 <= i < registry.handles.len() implies (
    #[trigger] result.0.handles[i]).inflight == if result.1 is Ok && result.1->Ok_0.lease.account
        == i {
        registry.handles[i].with_lease().inflight
    } else {
        registry.handles[i].inflight
    } by {
        assert(after.handles[i].inflight == registry.handles[i].inflight);
    }
}

/// A choice that finds an account counts one more request under way on it and on no other, and notes
/// that the session's request went there. One that finds none counts nothing.
pub proof fn law_choice_counts_one_request(
    registry: RegistryView,
    request: RequestView,
    auth: spec_fn(int) -> AuthOutcome,
    usage: spec_fn(int) -> UsageRank,
    now: int,
)
    requires
        registry.well_formed(),
        request.listed == registry.listed,
    ensures
        ({
            let (after, step) = selection::begun(registry, request, now);
            left_by(registry.handles, request, run(after, step, auth, usage))
        }),
{
    if registry.listed.len() > 0 {
        lemma_surveyed_after(registry, request, auth, usage, now);
    }
}

proof fn lemma_no_candidates(
    handles: Seq<HandleView>,
    listed: Seq<int>,
    request: RequestView,
    now: int,
)
    requires
        forall|k: int|
            0 <= k < listed.len() ==> !selection::considered(
                handles,
                #[trigger] listed[k],
                request,
            ),
    ensures
        selection::candidates(handles, listed, request, now).len() == 0,
    decreases listed.len(),
{
    if listed.len() > 0 {
        let init = listed.drop_last();
        assert forall|k: int| 0 <= k < init.len() implies !selection::considered(
            handles,
            #[trigger] init[k],
            request,
        ) by {
            assert(init[k] == listed[k]);
        }
        lemma_no_candidates(handles, init, request, now);
        assert(!selection::considered(handles, listed[listed.len() - 1], request));
    }
}

/// A request that every account has turned away finds none.
pub proof fn law_request_turned_away_by_all_finds_none(
    registry: RegistryView,
    request: RequestView,
    auth: spec_fn(int) -> AuthOutcome,
    usage: spec_fn(int) -> UsageRank,
    now: int,
)
    requires
        registry.well_formed(),
        request.listed == registry.listed,
        forall|k: int|
            0 <= k < registry.listed.len() ==> request.excluded.contains(
                registry.handles[#[trigger] registry.listed[k]].record.id,
            ),
    ensures
        routed(registry, request, auth, usage, now) == Err::<SelectedView, _>(
            RouteErrorView::NoEligibleAccounts { requested_account_id: request.requested },
        ),
{
    lemma_no_candidates(registry.handles, request.listed, request, now);
}

/// A request that asks for an account which turned it away finds none.
pub proof fn law_turned_away_request_finds_none(
    registry: RegistryView,
    request: RequestView,
    auth: spec_fn(int) -> AuthOutcome,
    usage: spec_fn(int) -> UsageRank,
    now: int,
)
    requires
        request.requested is Some,
        request.excluded.contains(request.requested->0),
    ensures
        routed(registry, request, auth, usage, now) == Err::<SelectedView, _>(
            RouteErrorView::NoEligibleAccounts { requested_account_id: request.requested },
        ),
{
    lemma_no_candidates(registry.handles, request.listed, request, now);
}

/// Which accounts are candidates, told from what is known of them: those that are listed, that were
/// asked for if any was, that did not turn the request away, have rested, are neither disabled nor have
/// to log in again, and of whose usage limit less than 95 percent is known to be used up.
pub proof fn law_who_is_a_candidate(
    registry: RegistryView,
    request: RequestView,
    now: int,
    i: int,
)
    requires
        registry.well_formed(),
        request.listed == registry.listed,
        0 <= i < registry.handles.len(),
    ensures
        ({
            let handle = registry.handles[i];
            let found = selection::candidates(registry.handles, request.listed, request, now);
            (exists|c: CandidateView| #[trigger] found.contains(c) && c.account == i) <==> {
                &&& registry.listed.contains(i)
                &&& request.requested is None || request.requested == Some(handle.record.id)
                &&& !request.excluded.contains(handle.record.id)
                &&& handle.cooldown_until <= now
                &&& handle.record.state != accounts::AccountState::Disabled
                &&& handle.record.state != accounts::AccountState::NeedsReauth
                &&& handle.record.used_percent is None || handle.record.used_percent->0 < 95
            }
        }),
{
    let handle = registry.handles[i];
    let found = selection::candidates(registry.handles, request.listed, request, now);
    let c = CandidateView { account: i, id: handle.record.id, score: handle.cleared(now).score() };
    accounts::law_when_requests_are_accepted(handle, now);
    law_candidates(registry, request, now, c);
    if exists|c: CandidateView| #[trigger] found.contains(c) && c.account == i {
        let d = choose|c: CandidateView| #[trigger] found.contains(c) && c.account == i;
        law_candidates(registry, request, now, d);
    }
}

/// Where no account turned the request away, or one was asked for, the candidates are tried by their
/// scores, the highest first, and with the same score by their ids.
pub proof fn law_order_before_a_refusal(
    registry: RegistryView,
    request: RequestView,
    usage: spec_fn(int) -> UsageRank,
    now: int,
    a: int,
    b: int,
)
    requires
        registry.listed.len() <= usize::MAX,
        request.listed == registry.listed,
        request.requested is Some || request.excluded.len() == 0,
        0 <= a < choices(registry, request, usage, now).len(),
        0 <= b < choices(registry, request, usage, now).len(),
    ensures
        ({
            let first = choices(registry, request, usage, now)[a];
            let second = choices(registry, request, usage, now)[b];
            &&& first.score > second.score ==> a < b
            &&& first.score == second.score && text::text_before(first.id, second.id) ==> a < b
        }),
{
    let found = selection::candidates(registry.handles, request.listed, request, now);
    lemma_candidates_len(registry.handles, request.listed, request, now);
    let plain = Seq::new(found.len(), |k: int| selection::no_rank());
    assert(usage_ranks(request, found, usage) =~= plain);
    if b < a {
        law_highest_score_comes_first(found, b, a);
        let ranking = selection::ranked(found, plain);
        lemma_text_order(ranking[a].id, ranking[b].id);
    }
    if a == b {
        lemma_text_order(choices(registry, request, usage, now)[a].id, choices(
            registry,
            request,
            usage,
            now,
        )[b].id);
    }
}

proof fn lemma_text_order(a: Seq<char>, b: Seq<char>)
    ensures
        text::text_before(a, b) ==> !text::text_before(b, a) && a != b,
{
    if text::text_before(a, b) {
        text::text_before_irreflexive(a);
        if text::text_before(b, a) {
            text::text_before_transitive(a, b, a);
        }
    }
}

/// What the looked-up usages count for.
pub open spec fn counted(snapshots: spec_fn(int) -> Option<AccountUsageSnapshot>) -> spec_fn(
    int,
) -> UsageRank {
    |i: int| selection::usage_rank(snapshots(i))
}

/// When the long-run limit of an account is known to start afresh.
pub open spec fn long_run_reset(usage: Option<AccountUsageSnapshot>) -> Option<i64> {
    if usage is Some {
        usage->0.secondary_resets_at
    } else {
        None
    }
}

/// After a refusal the candidates are tried by when their long-run limits start afresh, the soonest
/// first, whatever their short-run limits are. One of which that is not known comes after those of
/// which it is. With the same reset the one comes first that has used more of its long-run limit, and
/// with the same use the one with the higher score, then the one with the lesser id.
pub proof fn law_order_after_a_refusal(
    registry: RegistryView,
    request: RequestView,
    snapshots: spec_fn(int) -> Option<AccountUsageSnapshot>,
    now: int,
    a: int,
    b: int,
)
    requires
        registry.listed.len() <= usize::MAX,
        request.listed == registry.listed,
        request.requested is None,
        request.excluded.len() > 0,
        0 <= a < choices(registry, request, counted(snapshots), now).len(),
        0 <= b < choices(registry, request, counted(snapshots), now).len(),
    ensures
        ({
            let ranking = choices(registry, request, counted(snapshots), now);
            let x = snapshots(ranking[a].account);
            let y = snapshots(ranking[b].account);
            &&& long_run_reset(x) is Some && long_run_reset(y) is Some && long_run_reset(x)->0
                < long_run_reset(y)->0 ==> a < b
            &&& long_run_reset(x) is Some && long_run_reset(x)->0 < i64::MAX && long_run_reset(
                y,
            ) is None ==> a < b
            &&& x is Some && y is Some && x->0.secondary_resets_at == y->0.secondary_resets_at
                && x->0.secondary_used_percent is Some && y->0.secondary_used_percent is Some
                && x->0.secondary_used_percent->0.tenths > y->0.secondary_used_percent->0.tenths
                ==> a < b
            &&& x is Some && y is Some && x->0.secondary_resets_at == y->0.secondary_resets_at
                && x->0.secondary_used_percent == y->0.secondary_used_percent && ranking[a].score
                > ranking[b].score ==> a < b
            &&& x is Some && y is Some && x->0.secondary_resets_at == y->0.secondary_resets_at
                && x->0.secondary_used_percent == y->0.secondary_used_percent && ranking[a].score
                == ranking[b].score && text::text_before(ranking[a].id, ranking[b].id) ==> a < b
        }),
{
    let usage = counted(snapshots);
    let found = selection::candidates(registry.handles, request.listed, request, now);
    lemma_candidates_len(registry.handles, request.listed, request, now);
    let ranks = Seq::new(found.len(), |k: int| usage(found[k].account));
    assert(usage_ranks(request, found, usage) =~= ranks);
    let ranking = choices(registry, request, usage, now);
    lemma_text_order(ranking[a].id, ranking[b].id);
    if b < a {
        law_soonest_reset_comes_first(found, usage, b, a);
        let x = snapshots(ranking[a].account);
        let y = snapshots(ranking[b].account);
        assert(usage(ranking[a].account) == selection::usage_rank(x));
        assert(usage(ranking[b].account) == selection::usage_rank(y));
        if x is Some && y is Some {
            selection::law_only_the_long_run_limit_ranks(x->0, y->0);
            selection::law_use_of_the_long_run_limit_ranks(x->0, y->0);
        }
    }
}

proof fn lemma_candidate_is_ranked(
    registry: RegistryView,
    request: RequestView,
    usage: spec_fn(int) -> UsageRank,
    now: int,
    i: int,
) -> (k: int)
    requires
        registry.well_formed(),
        registry.listed.len() <= usize::MAX,
        request.listed == registry.listed,
        registry.listed.contains(i),
        request.may_choose(registry.handles[i].record.id),
        registry.handles[i].accepts(now),
    ensures
        ({
            let ranking = choices(registry, request, usage, now);
            &&& 0 <= k < ranking.len()
            &&& ranking[k].account == i
            &&& registry.handles[i].score_at(now) == Some(ranking[k].score)
        }),
{
    let handle = registry.handles[i];
    let c = CandidateView { account: i, id: handle.record.id, score: handle.cleared(now).score() };
    let found = selection::candidates(registry.handles, request.listed, request, now);
    let ranking = choices(registry, request, usage, now);
    law_candidates(registry, request, now, c);
    lemma_candidates_len(registry.handles, request.listed, request, now);
    law_ranking_keeps_the_candidates(found, usage_ranks(request, found, usage), c);
    choose|k: int| 0 <= k < ranking.len() && ranking[k] == c
}

/// A request goes to the best account that it can go to: of all accounts that may be chosen, take new
/// requests and are logged in, none scores higher than the one that is chosen before any refusal.
pub proof fn law_best_score_is_chosen(
    registry: RegistryView,
    request: RequestView,
    auth: spec_fn(int) -> AuthOutcome,
    usage: spec_fn(int) -> UsageRank,
    now: int,
    other: int,
)
    requires
        registry.well_formed(),
        registry.listed.len() <= usize::MAX,
        request.listed == registry.listed,
        request.requested is Some || request.excluded.len() == 0,
        registry.listed.contains(other),
        request.requested is None || request.requested == Some(registry.handles[other].record.id),
        !request.excluded.contains(registry.handles[other].record.id),
        registry.handles[other].accepts(now),
        auth(other) is Resolved,
    ensures
        match routed(registry, request, auth, usage, now) {
            Ok(chosen) => chosen.lease.score >= registry.handles[other].score_at(now)->0,
            Err(RouteErrorView::AccountAuthFailed { account_id }) => exists|i: int|
                {
                    &&& #[trigger] registry.listed.contains(i)
                    &&& registry.handles[i].record.id == account_id
                    &&& auth(i) is TokenFailed
                    &&& registry.handles[i].score_at(now) is Some
                    &&& registry.handles[i].score_at(now)->0
                        >= registry.handles[other].score_at(now)->0
                },
            Err(_) => false,
        },
{
    selection::law_who_may_be_chosen(request, registry.handles[other].record.id);
    let k = lemma_candidate_is_ranked(registry, request, usage, now, other);
    let ranking = choices(registry, request, usage, now);
    law_best_login_is_chosen(registry, request, auth, usage, now, k);
    if let Ok(chosen) = routed(registry, request, auth, usage, now) {
        let j = choose|j: int| 0 <= j <= k && #[trigger] ranking[j] == chosen.lease;
        law_order_before_a_refusal(registry, request, usage, now, k, j);
    }
    if let Err(RouteErrorView::AccountAuthFailed { account_id }) = routed(
        registry,
        request,
        auth,
        usage,
        now,
    ) {
        let j = choose|j: int|
            {
                &&& 0 <= j <= k
                &&& (#[trigger] ranking[j]).id == account_id
                &&& auth(ranking[j].account) is TokenFailed
            };
        law_order_before_a_refusal(registry, request, usage, now, k, j);
        lemma_ranked_is_candidate(registry, request, usage, now, j);
        assert(registry.listed.contains(ranking[j].account));
    }
}

proof fn lemma_ranked_is_candidate(
    registry: RegistryView,
    request: RequestView,
    usage: spec_fn(int) -> UsageRank,
    now: int,
    k: int,
)
    requires
        registry.well_formed(),
        registry.listed.len() <= usize::MAX,
        request.listed == registry.listed,
        0 <= k < choices(registry, request, usage, now).len(),
    ensures
        ({
            let c = choices(registry, request, usage, now)[k];
            &&& registry.listed.contains(c.account)
            &&& registry.handles[c.account].record.id == c.id
            &&& registry.handles[c.account].score_at(now) == Some(c.score)
        }),
{
    let found = selection::candidates(registry.handles, request.listed, request, now);
    let ranking = choices(registry, request, usage, now);
    lemma_candidates_len(registry.handles, request.listed, request, now);
    assert(ranking.contains(ranking[k]));
    law_ranking_keeps_the_candidates(found, usage_ranks(request, found, usage), ranking[k]);
    law_candidates(registry, request, now, ranking[k]);
}

/// After a refusal a request goes to the account whose long-run limit starts afresh soonest: of all
/// accounts that may be chosen, take new requests and are logged in, none is known to start afresh
/// sooner than the one that is chosen.
pub proof fn law_soonest_long_run_reset_is_chosen(
    registry: RegistryView,
    request: RequestView,
    auth: spec_fn(int) -> AuthOutcome,
    snapshots: spec_fn(int) -> Option<AccountUsageSnapshot>,
    now: int,
    other: int,
)
    requires
        registry.well_formed(),
        registry.listed.len() <= usize::MAX,
        request.listed == registry.listed,
        request.requested is None,
        request.excluded.len() > 0,
        registry.listed.contains(other),
        !request.excluded.contains(registry.handles[other].record.id),
        registry.handles[other].accepts(now),
        auth(other) is Resolved,
        snapshots(other) is Some,
        snapshots(other)->0.secondary_resets_at is Some,
        snapshots(other)->0.secondary_resets_at->0 < i64::MAX,
    ensures
        match routed(registry, request, auth, counted(snapshots), now) {
            Ok(chosen) => {
                let usage = snapshots(chosen.lease.account);
                &&& usage is Some
                &&& usage->0.secondary_resets_at is Some
                &&& usage->0.secondary_resets_at->0 <= snapshots(other)->0.secondary_resets_at->0
            },
            Err(RouteErrorView::AccountAuthFailed { .. }) => true,
            Err(_) => false,
        },
{
    let usage = counted(snapshots);
    selection::law_who_may_be_chosen(request, registry.handles[other].record.id);
    let k = lemma_candidate_is_ranked(registry, request, usage, now, other);
    let ranking = choices(registry, request, usage, now);
    law_best_login_is_chosen(registry, request, auth, usage, now, k);
    if let Ok(chosen) = routed(registry, request, auth, usage, now) {
        let j = choose|j: int| 0 <= j <= k && #[trigger] ranking[j] == chosen.lease;
        law_order_after_a_refusal(registry, request, snapshots, now, k, j);
    }
}

/// Selecting an account asks about accounts alone that are listed, that were asked for if any was, that
/// did not turn the request away, have rested, can log in as far as is known, and have less than 95
/// percent of their limit used up. Without a refusal, or with an account that was asked for, it asks
/// about their logins, the highest score first.
pub proof fn law_selecting_an_account(
    registry: &mut AccountRegistry,
    requested: Option<&str>,
    session: Option<&str>,
    excluded: &Vec<String>,
    now: i64,
    r: Option<SelectionStep>,
    a: int,
    b: int,
)
    requires
        call_ensures(
            AccountRegistry::select_account_at,
            (registry, requested, session, excluded, now),
            r,
        ),
        old(registry)@.well_formed(),
        0 < old(registry)@.listed.len() <= usize::MAX,
        r is Some,
    ensures
        final(registry)@.listed == old(registry)@.listed,
        final(registry)@.affinity == old(registry)@.affinity,
        r->0@ is FetchUsage ==> excluded@.len() > 0 && requested is None,
        r->0@ is ResolveAuth ==> excluded@.len() == 0 || requested is Some,
        r->0@ matches StepView::Done(outcome) ==> outcome matches Err(
            RouteErrorView::NoEligibleAccounts { .. },
        ),
        ({
            let tried = match r->0@ {
                StepView::ResolveAuth(wait) => wait.ranking,
                StepView::FetchUsage(wait) => wait.candidates,
                StepView::Done(_) => Seq::empty(),
            };
            0 <= a < tried.len() ==> {
                let handle = old(registry)@.handles[tried[a].account];
                &&& old(registry)@.listed.contains(tried[a].account)
                &&& tried[a].id == handle.record.id
                &&& handle.score_at(now as int) == Some(tried[a].score)
                &&& requested matches Some(id) ==> tried[a].id == id@
                &&& !text::texts(excluded@).contains(tried[a].id)
                &&& handle.cooldown_until <= now
                &&& handle.record.state != accounts::AccountState::Disabled
                &&& handle.record.state != accounts::AccountState::NeedsReauth
                &&& handle.record.used_percent is None || handle.record.used_percent->0 < 95
            }
        }),
        r->0@ matches StepView::ResolveAuth(wait) ==> (0 <= a < b < wait.ranking.len()
            ==> wait.ranking[a].score >= wait.ranking[b].score),
{
    let before = registry@;
    let request = selection::request_for(
        before,
        text::str_in(requested),
        text::str_in(session),
        text::texts(excluded@),
    );
    let found = selection::candidates(before.handles, request.listed, request, now as int);
    let plain = Seq::new(found.len(), |k: int| selection::no_rank());
    let ranking = selection::ranked(found, plain);
    lemma_candidates_len(before.handles, request.listed, request, now as int);
    assert(text::texts(excluded@).len() == excluded@.len());
    if 0 <= a < found.len() {
        law_ranking_keeps_the_candidates(found, plain, ranking[a]);
        assert(found.contains(found[a]));
        assert(ranking.contains(ranking[a]));
        law_candidates(before, request, now as int, found[a]);
        law_candidates(before, request, now as int, ranking[a]);
        law_choosable(before, request, now as int, found[a]);
        law_choosable(before, request, now as int, ranking[a]);
        if a < b < found.len() {
            law_highest_score_comes_first(found, a, b);
        }
    }
    if found.len() > 0 {
        law_ranking_keeps_the_candidates(found, plain, found[0]);
    }
}

/// A candidate is an account that was asked for if any was, that did not turn the request away, has
/// rested, is neither disabled nor has to log in again, and has less than 95 percent of its limit used.
pub proof fn law_choosable(
    registry: RegistryView,
    request: RequestView,
    now: int,
    candidate: CandidateView,
)
    requires
        registry.well_formed(),
        request.listed == registry.listed,
        selection::candidates(registry.handles, request.listed, request, now).contains(candidate),
    ensures
        ({
            let handle = registry.handles[candidate.account];
            &&& request.requested is None || request.requested == Some(candidate.id)
            &&& !request.excluded.contains(candidate.id)
            &&& handle.cooldown_until <= now
            &&& handle.record.state != accounts::AccountState::Disabled
            &&& handle.record.state != accounts::AccountState::NeedsReauth
            &&& handle.record.used_percent is None || handle.record.used_percent->0 < 95
        }),
{
    law_candidates(registry, request, now, candidate);
    accounts::law_when_requests_are_accepted(registry.handles[candidate.account], now);
}

} // verus!
