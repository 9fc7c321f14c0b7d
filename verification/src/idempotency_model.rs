//! Whole calls through the idempotency decorator, alone and side by side.
//!
//! A single call is run against a model in which the provider knows a set of
//! processed requests, the guard is free, and the inner service is a
//! function of the request. Calls side by side form a fleet: they share one
//! guard and take turns in any order, a turn being an event reported to one
//! call, or one call abandoned by its caller.

use crate::error::Error;
use crate::guard::{after_acquire, after_release, grants};
use crate::idempotency::{
    IdempotencyAction,
    IdempotencyCall,
    IdempotencyEvent,
    IdempotencyRequest,
    IdempotencyResponse,
};
use vstd::prelude::*;

verus! {

/// What the model gives back for `action`: the provider answers a check
/// from `processed`, the guard is granted, and the inner service answers
/// with `inner` of the request.
pub open spec fn reply<R, Res, C>(
    processed: Set<R>,
    inner: spec_fn(R) -> Result<Res, C>,
    action: IdempotencyAction<R, Res, C>,
) -> IdempotencyEvent<Res, C>
    recommends
        !(action is Release),
        !(action is Return),
{
    match action {
        IdempotencyAction::AskProvider(IdempotencyRequest::Check(request)) => IdempotencyEvent::Provider(
            Ok(
                if processed.contains(request) {
                    IdempotencyResponse::Found
                } else {
                    IdempotencyResponse::NotFound
                },
            ),
        ),
        IdempotencyAction::CallInner(request) => IdempotencyEvent::Inner(inner(request)),
        _ => IdempotencyEvent::Acquired,
    }
}

impl<R> IdempotencyCall<R> {
    /// How many answers this call can still take before it has returned.
    pub open spec fn pending(self) -> nat {
        match self {
            IdempotencyCall::AwaitCheck { .. } => 3,
            IdempotencyCall::AwaitGuard { .. } => 2,
            IdempotencyCall::AwaitInner => 1,
            IdempotencyCall::Done => 0,
        }
    }

    /// The actions of a call in this state that has asked for `action` and
    /// runs to its end against the model: `action` first, its `Return` or
    /// `Release` last.
    pub open spec fn completes<Res, C>(
        self,
        action: IdempotencyAction<R, Res, C>,
        processed: Set<R>,
        inner: spec_fn(R) -> Result<Res, C>,
    ) -> Seq<IdempotencyAction<R, Res, C>>
        decreases self.pending(),
    {
        let (next, then) = self.next(reply(processed, inner, action));
        if action is Return || action is Release || next.pending() >= self.pending() {
            seq![action]
        } else {
            seq![action] + next.completes(then, processed, inner)
        }
    }
}

/// Idempotency rejection: a call whose check the provider answers with
/// `Found` returns `AlreadyProcessed` straight after the check. It neither
/// asks for the guard nor reaches the inner service. `asked` is the copy of
/// the request that the provider is asked about.
pub proof fn lemma_processed_request_is_rejected<R, Res, C>(
    request: R,
    asked: R,
    processed: Set<R>,
    inner: spec_fn(R) -> Result<Res, C>,
)
    requires
        processed.contains(asked),
    ensures
        (IdempotencyCall::AwaitCheck { request }).completes(
            IdempotencyAction::AskProvider(IdempotencyRequest::Check(asked)),
            processed,
            inner,
        ) == seq![
            IdempotencyAction::<R, Res, C>::AskProvider(IdempotencyRequest::Check(asked)),
            IdempotencyAction::<R, Res, C>::Return(Err(Error::AlreadyProcessed)),
        ],
{
    reveal_with_fuel(IdempotencyCall::completes, 3);
}

/// A call whose check the provider answers with `NotFound` takes the guard,
/// calls the inner service with the request itself, and gives the guard
/// back with the inner service's answer: its response unchanged, or its
/// failure as a service error.
pub proof fn lemma_new_request_is_invoked<R, Res, C>(
    request: R,
    asked: R,
    processed: Set<R>,
    inner: spec_fn(R) -> Result<Res, C>,
)
    requires
        !processed.contains(asked),
    ensures
        (IdempotencyCall::AwaitCheck { request }).completes(
            IdempotencyAction::AskProvider(IdempotencyRequest::Check(asked)),
            processed,
            inner,
        ) == seq![
            IdempotencyAction::<R, Res, C>::AskProvider(IdempotencyRequest::Check(asked)),
            IdempotencyAction::<R, Res, C>::Acquire,
            IdempotencyAction::<R, Res, C>::CallInner(request),
            IdempotencyAction::<R, Res, C>::Release(
                match inner(request) {
                    Ok(response) => Ok(response),
                    Err(cause) => Err(Error::ServiceError(cause)),
                },
            ),
        ],
{
    reveal_with_fuel(IdempotencyCall::completes, 5);
}

/// Calls side by side, sharing the guard of one inner service.
pub struct Fleet<R> {
    /// Where each call stands. A call is known by its place in this list.
    pub calls: Seq<IdempotencyCall<R>>,
    /// The call that holds the guard, if any.
    pub holder: Option<u64>,
    /// How often each call has reached the inner service.
    pub invoked: Seq<nat>,
    /// How often the guard has been granted.
    pub granted: nat,
}

/// What happens to a fleet in one turn.
pub enum Turn<Res, C> {
    /// An event is reported to a call.
    Report { call: u64, event: IdempotencyEvent<Res, C> },
    /// A call is abandoned before it has returned: nobody waits for its
    /// result any more, and what it was waiting for is dropped.
    Abandon { call: u64 },
}

/// The sum of the numbers in `counts`.
pub open spec fn total(counts: Seq<nat>) -> nat
    decreases counts.len(),
{
    if counts.len() == 0 {
        0
    } else {
        total(counts.drop_last()) + counts.last()
    }
}

impl<R> Fleet<R> {
    /// The fleet of one freshly opened call for each of `requests`, with the
    /// guard free.
    pub open spec fn launch(requests: Seq<R>) -> Self {
        Fleet {
            calls: Seq::new(
                requests.len(),
                |i: int| IdempotencyCall::AwaitCheck { request: requests[i] },
            ),
            holder: None,
            invoked: Seq::new(requests.len(), |i: int| 0nat),
            granted: 0,
        }
    }

    /// Whether `turn` can happen. An event can be reported to a call that
    /// exists and awaits it, and the guard is only reported as granted when
    /// it is granted. A call can be abandoned until it has returned.
    pub open spec fn admits<Res, C>(self, turn: Turn<Res, C>) -> bool {
        match turn {
            Turn::Report { call, event } => {
                &&& call < self.calls.len()
                &&& self.calls[call as int].awaits(event)
                &&& event is Acquired ==> grants(self.holder)
            },
            Turn::Abandon { call } => {
                &&& call < self.calls.len()
                &&& !(self.calls[call as int] is Done)
            },
        }
    }

    /// The fleet after `turn`. A call that is reported an event takes its
    /// step, the guard changes hands as the step asks, and a call of the
    /// inner service is counted. A call that is abandoned is over, and
    /// gives the guard back if it holds it. A turn that cannot happen
    /// changes nothing.
    pub open spec fn take<Res, C>(self, turn: Turn<Res, C>) -> Self {
        if self.admits(turn) {
            match turn {
                Turn::Report { call, event } => {
                    let (next, action) = self.calls[call as int].next(event);
                    Fleet {
                        calls: self.calls.update(call as int, next),
                        holder: if event is Acquired {
                            after_acquire(self.holder, call)
                        } else if action is Release {
                            after_release(self.holder, call)
                        } else {
                            self.holder
                        },
                        invoked: if action is CallInner {
                            self.invoked.update(call as int, self.invoked[call as int] + 1)
                        } else {
                            self.invoked
                        },
                        granted: if event is Acquired {
                            self.granted + 1
                        } else {
                            self.granted
                        },
                    }
                },
                Turn::Abandon { call } => Fleet {
                    calls: self.calls.update(call as int, IdempotencyCall::Done),
                    holder: after_release(self.holder, call),
                    invoked: self.invoked,
                    granted: self.granted,
                },
            }
        } else {
            self
        }
    }

    /// The fleet after the turns of `schedule`, in order.
    pub open spec fn run<Res, C>(self, schedule: Seq<Turn<Res, C>>) -> Self
        decreases schedule.len(),
    {
        if schedule.len() == 0 {
            self
        } else {
            self.run(schedule.drop_last()).take(schedule.last())
        }
    }

    /// What holds of every fleet that was launched and run: the guard is
    /// held by exactly the call that is with the inner service, a call has
    /// reached the inner service once if it was granted the guard and never
    /// otherwise, and the inner service has been called as often as the
    /// guard was granted.
    pub open spec fn consistent(self) -> bool {
        &&& self.invoked.len() == self.calls.len()
        &&& total(self.invoked) == self.granted
        &&& self.holder matches Some(holder) ==> holder < self.calls.len()
        &&& forall|i: int|
            0 <= i < self.calls.len() ==> (#[trigger] self.calls[i] is AwaitInner <==> self.holder
                == Some(i as u64) && i <= u64::MAX)
        &&& forall|i: int|
            0 <= i < self.calls.len() ==> (#[trigger] self.calls[i] is AwaitCheck
                || self.calls[i] is AwaitGuard ==> self.invoked[i] == 0)
        &&& forall|i: int|
            0 <= i < self.calls.len() ==> (#[trigger] self.calls[i] is AwaitInner
                ==> self.invoked[i] == 1)
        &&& forall|i: int| 0 <= i < self.calls.len() ==> #[trigger] self.invoked[i] <= 1
    }

    /// Whether every call has returned or was abandoned.
    pub open spec fn all_done(self) -> bool {
        forall|i: int| 0 <= i < self.calls.len() ==> #[trigger] self.calls[i] is Done
    }
}

/// Whether, in `schedule`, the provider reports every request as new and no
/// call is abandoned.
pub open spec fn all_new<Res, C>(schedule: Seq<Turn<Res, C>>) -> bool {
    forall|k: int|
        0 <= k < schedule.len() ==> match #[trigger] schedule[k] {
            Turn::Report { event: IdempotencyEvent::Provider(answer), .. } => answer == Ok::<
                IdempotencyResponse,
                C,
            >(IdempotencyResponse::NotFound),
            Turn::Report { .. } => true,
            Turn::Abandon { .. } => false,
        }
}

/// Replacing one number of a list changes the sum by the difference.
pub proof fn lemma_total_update(counts: Seq<nat>, at: int, count: nat)
    requires
        0 <= at < counts.len(),
    ensures
        total(counts.update(at, count)) + counts[at] == total(counts) + count,
    decreases counts.len(),
{
    let updated = counts.update(at, count);
    if at == counts.len() - 1 {
        assert(updated.drop_last() == counts.drop_last());
    } else {
        assert(updated.drop_last() == counts.drop_last().update(at, count));
        lemma_total_update(counts.drop_last(), at, count);
    }
}

/// A list of `count` in every place sums to `count` times its length.
pub proof fn lemma_total_constant(counts: Seq<nat>, count: nat)
    requires
        forall|i: int| 0 <= i < counts.len() ==> counts[i] == count,
    ensures
        total(counts) == count * counts.len(),
    decreases counts.len(),
{
    if counts.len() > 0 {
        lemma_total_constant(counts.drop_last(), count);
        assert(count * counts.len() == count * (counts.len() - 1) + count) by (nonlinear_arith);
    }
}

/// A launched fleet stays consistent, whatever its calls are reported, in
/// whatever order, and whichever of them are abandoned. In particular the
/// inner service is called exactly as often as the guard is granted.
pub proof fn lemma_fleet_is_consistent<R, Res, C>(requests: Seq<R>, schedule: Seq<Turn<Res, C>>)
    ensures
        Fleet::launch(requests).run(schedule).consistent(),
        Fleet::launch(requests).run(schedule).calls.len() == requests.len(),
    decreases schedule.len(),
{
    if schedule.len() == 0 {
        lemma_total_constant(Fleet::launch(requests).invoked, 0);
    } else {
        lemma_fleet_is_consistent(requests, schedule.drop_last());
        let before = Fleet::launch(requests).run(schedule.drop_last());
        if before.admits(schedule.last()) {
            match schedule.last() {
                Turn::Report { call, event } => {
                    lemma_total_update(before.invoked, call as int, before.invoked[call as int] + 1);
                },
                Turn::Abandon { call } => {},
            }
        }
    }
}

/// Mutual exclusion: in a fleet, whatever happens and in whatever order, no
/// two calls are with the inner service at the same time.
pub proof fn lemma_one_call_at_a_time<R, Res, C>(
    requests: Seq<R>,
    schedule: Seq<Turn<Res, C>>,
    one: int,
    other: int,
)
    requires
        0 <= one < requests.len(),
        0 <= other < requests.len(),
        Fleet::launch(requests).run(schedule).calls[one] is AwaitInner,
        Fleet::launch(requests).run(schedule).calls[other] is AwaitInner,
    ensures
        one == other,
{
    lemma_fleet_is_consistent(requests, schedule);
}

/// The guard is never left behind: it is held only while the call that was
/// granted it is with the inner service. Once that call has been answered,
/// with a response or with a failure, or has been abandoned, the guard is
/// free for the calls that wait.
pub proof fn lemma_guard_follows_the_inner_call<R, Res, C>(
    requests: Seq<R>,
    schedule: Seq<Turn<Res, C>>,
)
    ensures
        ({
            let fleet = Fleet::launch(requests).run(schedule);
            match fleet.holder {
                Some(holder) => holder < requests.len() && fleet.calls[holder as int] is AwaitInner,
                None => forall|i: int|
                    0 <= i < requests.len() ==> !(#[trigger] fleet.calls[i] is AwaitInner),
            }
        }),
{
    lemma_fleet_is_consistent(requests, schedule);
}

/// While the provider reports every request as new and no call is
/// abandoned, a call that has returned has reached the inner service exactly
/// once.
pub proof fn lemma_returned_call_was_invoked<R, Res, C>(
    requests: Seq<R>,
    schedule: Seq<Turn<Res, C>>,
    at: int,
)
    requires
        all_new(schedule),
        0 <= at < requests.len(),
        Fleet::launch(requests).run(schedule).calls[at] is Done,
    ensures
        Fleet::launch(requests).run(schedule).invoked[at] == 1,
    decreases schedule.len(),
{
    if schedule.len() > 0 {
        let earlier = schedule.drop_last();
        assert forall|k: int| 0 <= k < earlier.len() implies #[trigger] earlier[k]
            == schedule[k] by {}
        lemma_fleet_is_consistent(requests, earlier);
        let before = Fleet::launch(requests).run(earlier);
        if before.calls[at] is Done {
            lemma_returned_call_was_invoked(requests, earlier, at);
        }
    }
}

/// Calls are serialised, not deduplicated: once every call of a fleet has
/// returned, the provider having reported every request as new and no call
/// having been abandoned, the inner service has been called once for each
/// call, and the guard was granted as often. This holds whether or not the
/// requests are the same.
pub proof fn lemma_every_new_call_is_invoked<R, Res, C>(
    requests: Seq<R>,
    schedule: Seq<Turn<Res, C>>,
)
    requires
        all_new(schedule),
        Fleet::launch(requests).run(schedule).all_done(),
    ensures
        forall|i: int|
            0 <= i < requests.len() ==> #[trigger] Fleet::launch(requests).run(schedule).invoked[i]
                == 1,
        total(Fleet::launch(requests).run(schedule).invoked) == requests.len(),
        Fleet::launch(requests).run(schedule).granted == requests.len(),
{
    let end = Fleet::launch(requests).run(schedule);
    lemma_fleet_is_consistent(requests, schedule);
    assert forall|i: int| 0 <= i < requests.len() implies #[trigger] end.invoked[i] == 1 by {
        lemma_returned_call_was_invoked(requests, schedule, i);
    }
    lemma_total_constant(end.invoked, 1);
}

/// The turns that take the first `count` calls of a fleet from check to
/// return, one call after the other: each request is reported as new, each
/// call is granted the guard, and call `i` is answered `outcomes[i]` by the
/// inner service.
pub open spec fn one_by_one<Res, C>(outcomes: Seq<Result<Res, C>>, count: nat) -> Seq<Turn<Res, C>>
    decreases count,
{
    if count == 0 {
        Seq::empty()
    } else {
        let call = (count - 1) as u64;
        one_by_one(outcomes, (count - 1) as nat).push(
            Turn::Report {
                call,
                event: IdempotencyEvent::Provider(Ok(IdempotencyResponse::NotFound)),
            },
        ).push(Turn::Report { call, event: IdempotencyEvent::Acquired }).push(
            Turn::Report { call, event: IdempotencyEvent::Inner(outcomes[count - 1]) },
        )
    }
}

/// Running a schedule with one more turn is running the schedule and then
/// taking the turn.
pub proof fn lemma_run_push<R, Res, C>(
    fleet: Fleet<R>,
    schedule: Seq<Turn<Res, C>>,
    turn: Turn<Res, C>,
)
    ensures
        fleet.run(schedule.push(turn)) == fleet.run(schedule).take(turn),
{
    assert(schedule.push(turn).drop_last() == schedule);
}

/// No call blocks the calls behind it: a fleet whose calls are served one
/// after the other runs until every call has returned, whether the inner
/// service answers with responses or with failures.
pub proof fn lemma_fleet_can_finish<R, Res, C>(requests: Seq<R>, outcomes: Seq<Result<Res, C>>)
    requires
        outcomes.len() == requests.len(),
        requests.len() <= u64::MAX,
    ensures
        all_new(one_by_one(outcomes, requests.len())),
        Fleet::launch(requests).run(one_by_one(outcomes, requests.len())).all_done(),
{
    lemma_served_one_by_one(requests, outcomes, requests.len());
}

/// After the first `count` calls of a fleet have been served one after the
/// other, they have returned, the others have not begun, and the guard is
/// free.
pub proof fn lemma_served_one_by_one<R, Res, C>(
    requests: Seq<R>,
    outcomes: Seq<Result<Res, C>>,
    count: nat,
)
    requires
        outcomes.len() == requests.len(),
        requests.len() <= u64::MAX,
        count <= requests.len(),
    ensures
        all_new(one_by_one(outcomes, count)),
        ({
            let fleet = Fleet::launch(requests).run(one_by_one(outcomes, count));
            &&& fleet.calls.len() == requests.len()
            &&& fleet.holder is None
            &&& forall|i: int| 0 <= i < count ==> #[trigger] fleet.calls[i] is Done
            &&& forall|i: int|
                count <= i < requests.len() ==> #[trigger] fleet.calls[i] == (
                IdempotencyCall::AwaitCheck { request: requests[i] })
        }),
    decreases count,
{
    if count > 0 {
        let before = (count - 1) as nat;
        lemma_served_one_by_one(requests, outcomes, before);
        let call = before as u64;
        let start = Fleet::launch(requests);
        let earlier = one_by_one(outcomes, before);
        let check = Turn::<Res, C>::Report {
            call,
            event: IdempotencyEvent::Provider(Ok(IdempotencyResponse::NotFound)),
        };
        let grant = Turn::<Res, C>::Report { call, event: IdempotencyEvent::Acquired };
        let answer = Turn::<Res, C>::Report {
            call,
            event: IdempotencyEvent::Inner(outcomes[count - 1]),
        };
        lemma_run_push(start, earlier, check);
        lemma_run_push(start, earlier.push(check), grant);
        lemma_run_push(start, earlier.push(check).push(grant), answer);
        let checked = start.run(earlier).take(check);
        let granted = checked.take(grant);
        let answered = granted.take(answer);
        assert(start.run(earlier).admits(check));
        assert(checked.admits(grant));
        assert(granted.admits(answer));
        assert(answered == start.run(one_by_one(outcomes, count)));
    }
}

} // verus!
