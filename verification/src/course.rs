//! The course of a whole request: the accounts that it is sent to, one after the other.
//!
//! The loop that sends a request is in the program, `proxy_responses` in `app/proxy.rs`, and is not
//! verified. It is written to take the steps that `course` describes, each with a function of the
//! library whose contract speaks of the same spec functions, but no proof ties the two.

use vstd::prelude::*;

use crate::accounts::RouteErrorView;
use crate::proxy;
use crate::proxy::ProxyRequestView;
use crate::registry::RegistryView;
use crate::routing;
use crate::selection;
use crate::selection::AuthOutcome;
use crate::selection::SelectedView;
use crate::selection::UsageRank;

verus! {

/// What comes of sending a request to the account that was chosen for it.
pub enum Reply {
    /// It was not sent: its headers could not be built.
    Unsent,
    /// It was sent, and no answer came.
    Lost,
    /// The upstream answered with a status.
    Answered(u16),
}

/// What a request meets each time that an account is chosen for it: the accounts as they are then,
/// what the questions about them are answered, the time, and what comes of sending the request.
pub struct Round {
    pub accounts: RegistryView,
    pub auth: spec_fn(int) -> AuthOutcome,
    pub usage: spec_fn(int) -> UsageRank,
    pub now: int,
    pub reply: Reply,
}

impl Round {
    /// The accounts are in order, and their ids are among `ids`.
    pub open spec fn within(self, ids: Set<Seq<char>>) -> bool {
        &&& self.accounts.well_formed()
        &&& self.accounts.listed.len() <= usize::MAX
        &&& forall|i: int| #[trigger]
            self.accounts.listed.contains(i) ==> ids.contains(self.accounts.handles[i].record.id)
    }

    /// What the choice of an account for a request comes to.
    pub open spec fn choice(self, request: ProxyRequestView) -> Result<
        SelectedView,
        RouteErrorView,
    > {
        let (after, step) = selection::begun(
            self.accounts,
            proxy::choice_for(request, self.accounts),
            self.now,
        );
        routing::run(after, step, self.auth, self.usage).1
    }
}

/// A call of the upstream on behalf of an account, and the status of the answer, if one came.
pub struct Call {
    pub id: Seq<char>,
    pub status: Option<u16>,
}

/// How a request ends.
pub enum Ending {
    /// No account was found for it.
    Unrouted(RouteErrorView),
    /// It could not be sent.
    Unsent,
    /// No answer came.
    Lost,
    /// The client learns of an answer with this status.
    Answered(u16),
}

/// The calls that are made for a request, and how it ends, if it does.
pub struct Course {
    pub calls: Seq<Call>,
    pub ending: Option<Ending>,
}

/// The course of a request through at most `budget` rounds, from round `n` on.
pub open spec fn course(
    request: ProxyRequestView,
    rounds: spec_fn(nat) -> Round,
    n: nat,
    budget: nat,
) -> Course
    decreases budget,
{
    if budget == 0 {
        Course { calls: Seq::empty(), ending: None }
    } else {
        let round = rounds(n);
        match round.choice(request) {
            Err(err) => Course { calls: Seq::empty(), ending: Some(Ending::Unrouted(err)) },
            Ok(chosen) => {
                let id = chosen.lease.id;
                match round.reply {
                    Reply::Unsent => Course { calls: Seq::empty(), ending: Some(Ending::Unsent) },
                    Reply::Lost => Course {
                        calls: seq![Call { id, status: None }],
                        ending: Some(Ending::Lost),
                    },
                    Reply::Answered(status) => {
                        let call = Call { id, status: Some(status) };
                        if status == proxy::TOO_MANY_REQUESTS {
                            let rest = course(
                                proxy::followed_up(request, chosen.lease, status),
                                rounds,
                                n + 1,
                                (budget - 1) as nat,
                            );
                            Course { calls: seq![call] + rest.calls, ending: rest.ending }
                        } else {
                            Course { calls: seq![call], ending: Some(Ending::Answered(status)) }
                        }
                    },
                }
            },
        }
    }
}

/// The ids of the accounts that calls were made for.
pub open spec fn called(calls: Seq<Call>) -> Seq<Seq<char>> {
    Seq::new(calls.len(), |k: int| calls[k].id)
}

proof fn lemma_choice(round: Round, request: ProxyRequestView, ids: Set<Seq<char>>)
    requires
        round.within(ids),
    ensures
        round.choice(request) matches Ok(chosen) ==> ids.contains(chosen.lease.id)
            && !request.excluded.contains(chosen.lease.id),
{
    let choice = proxy::choice_for(request, round.accounts);
    routing::law_choice(round.accounts, choice, round.auth, round.usage, round.now);
    routing::law_chosen_account(round.accounts, choice, round.auth, round.usage, round.now);
}

proof fn lemma_course(
    request: ProxyRequestView,
    rounds: spec_fn(nat) -> Round,
    n: nat,
    budget: nat,
    ids: Set<Seq<char>>,
)
    requires
        forall|m: nat| (#[trigger] rounds(m)).within(ids),
    ensures
        ({
            let c = course(request, rounds, n, budget);
            &&& forall|k: int|
                0 <= k < c.calls.len() ==> ids.contains((#[trigger] c.calls[k]).id)
                    && !request.excluded.contains(c.calls[k].id)
            &&& forall|j: int, k: int|
                0 <= j < k < c.calls.len() ==> (#[trigger] c.calls[j]).id != (
                #[trigger] c.calls[k]).id
            &&& forall|k: int|
                0 <= k < c.calls.len() - 1 ==> (#[trigger] c.calls[k]).status == Some(
                    proxy::TOO_MANY_REQUESTS,
                )
            &&& c.ending is None ==> c.calls.len() == budget
        }),
    decreases budget,
{
    if budget > 0 {
        lemma_choice(rounds(n), request, ids);
        if let Ok(chosen) = rounds(n).choice(request) {
            if rounds(n).reply == Reply::Answered(proxy::TOO_MANY_REQUESTS) {
                let next = proxy::followed_up(request, chosen.lease, proxy::TOO_MANY_REQUESTS);
                let rest = course(next, rounds, n + 1, (budget - 1) as nat);
                lemma_course(next, rounds, n + 1, (budget - 1) as nat, ids);
                let c = course(request, rounds, n, budget);
                assert(next.excluded.last() == chosen.lease.id);
                assert(next.excluded.contains(chosen.lease.id));
                assert forall|id: Seq<char>| request.excluded.contains(
                    id,
                ) implies #[trigger] next.excluded.contains(id) by {
                    let m = choose|m: int|
                        0 <= m < request.excluded.len() && request.excluded[m] == id;
                    assert(next.excluded[m] == id);
                }
                assert forall|k: int| 1 <= k < c.calls.len() implies #[trigger] c.calls[k]
                    == rest.calls[k - 1] by {}
            }
        }
    }
}

/// Each account is called at most once for a request, and none that turned it away before.
pub proof fn law_each_account_is_called_once(
    request: ProxyRequestView,
    rounds: spec_fn(nat) -> Round,
    n: nat,
    budget: nat,
    ids: Set<Seq<char>>,
)
    requires
        forall|m: nat| (#[trigger] rounds(m)).within(ids),
    ensures
        ({
            let c = course(request, rounds, n, budget);
            &&& called(c.calls).no_duplicates()
            &&& forall|k: int|
                0 <= k < c.calls.len() ==> !request.excluded.contains((#[trigger] c.calls[k]).id)
        }),
{
    lemma_course(request, rounds, n, budget, ids);
}

/// A request is only sent on to another account where the one before it was at its usage limit: every
/// call but the last was answered so.
pub proof fn law_only_limits_are_retried(
    request: ProxyRequestView,
    rounds: spec_fn(nat) -> Round,
    n: nat,
    budget: nat,
    ids: Set<Seq<char>>,
    k: int,
)
    requires
        forall|m: nat| (#[trigger] rounds(m)).within(ids),
        0 <= k < course(request, rounds, n, budget).calls.len() - 1,
    ensures
        course(request, rounds, n, budget).calls[k].status == Some(proxy::TOO_MANY_REQUESTS),
{
    lemma_course(request, rounds, n, budget, ids);
}

/// A request ends: where all accounts that it meets have one of the given ids, it ends within one
/// round more than there are ids, and makes no more calls than there are ids.
pub proof fn law_request_ends(
    request: ProxyRequestView,
    rounds: spec_fn(nat) -> Round,
    n: nat,
    budget: nat,
    ids: Set<Seq<char>>,
)
    requires
        ids.finite(),
        forall|m: nat| (#[trigger] rounds(m)).within(ids),
        ids.len() < budget,
    ensures
        course(request, rounds, n, budget).ending is Some,
        course(request, rounds, n, budget).calls.len() <= ids.len(),
{
    lemma_course(request, rounds, n, budget, ids);
    let ids_called = called(course(request, rounds, n, budget).calls);
    ids_called.unique_seq_to_set();
    assert forall|id: Seq<char>| #[trigger] ids_called.to_set().contains(id) implies ids.contains(
        id,
    ) by {
        let k = choose|k: int| 0 <= k < ids_called.len() && ids_called[k] == id;
        assert(ids.contains(course(request, rounds, n, budget).calls[k].id));
    }
    vstd::set_lib::lemma_len_subset(ids_called.to_set(), ids);
}

/// A request that has ended goes no further: with more rounds its course is the same.
pub proof fn law_ended_request_goes_no_further(
    request: ProxyRequestView,
    rounds: spec_fn(nat) -> Round,
    n: nat,
    budget: nat,
    more: nat,
)
    requires
        course(request, rounds, n, budget).ending is Some,
        budget <= more,
    ensures
        course(request, rounds, n, more) == course(request, rounds, n, budget),
    decreases budget,
{
    if let Ok(chosen) = rounds(n).choice(request) {
        if rounds(n).reply == Reply::Answered(proxy::TOO_MANY_REQUESTS) {
            law_ended_request_goes_no_further(
                proxy::followed_up(request, chosen.lease, proxy::TOO_MANY_REQUESTS),
                rounds,
                n + 1,
                (budget - 1) as nat,
                (more - 1) as nat,
            );
        }
    }
}

} // verus!
