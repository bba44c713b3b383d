use vstd::prelude::*;

use crate::oneshot::{run, run_accepted, Action, Event, Oneshot, Outcome, Progress, Readiness};

verus! {

/// A run asks for one action per event.
pub proof fn lemma_run_len<S, R, F, T, E>(machine: Oneshot<S, R, F>, events: Seq<Event<F, T, E>>)
    ensures
        run(machine, events).1.len() == events.len(),
    decreases events.len(),
{
    if events.len() > 0 {
        lemma_run_len(machine.transition(events[0]).0, events.drop_first());
    }
}

/// Whether `event` is what the caller observes when it does `action`: the
/// service's readiness after `PollReadiness`, the future the service
/// returned after `Call`, the future's progress after `PollFuture`. Nothing
/// follows a `Return` within the same poll.
pub open spec fn responds<R, F, T, E>(action: Action<R, T, E>, event: Event<F, T, E>) -> bool {
    match action {
        Action::PollReadiness => event is Readiness,
        Action::Call(_) => event is ServiceCalled,
        Action::PollFuture => event is Progress,
        Action::Return(_) => false,
    }
}

/// The order in which the actions of one poll come.
pub open spec fn action_rank<R, T, E>(action: Action<R, T, E>) -> nat {
    match action {
        Action::PollReadiness => 0,
        Action::Call(_) => 1,
        Action::PollFuture => 2,
        Action::Return(_) => 3,
    }
}

/// Whether each of `events` after the first answers the action that the
/// previous event asked for: the events of one poll, as the caller reports
/// them.
pub open spec fn answers_actions<S, R, F, T, E>(
    machine: Oneshot<S, R, F>,
    events: Seq<Event<F, T, E>>,
) -> bool {
    forall|i: int|
        0 <= i < events.len() - 1 ==> responds(#[trigger] run(machine, events).1[i], events[i + 1])
}

proof fn lemma_ranks_increase<S, R, F, T, E>(machine: Oneshot<S, R, F>, events: Seq<Event<F, T, E>>)
    requires
        run_accepted(machine, events),
        answers_actions(machine, events),
    ensures
        forall|i: int, j: int|
            0 <= i < j < events.len() ==> action_rank(#[trigger] run(machine, events).1[i])
                < action_rank(#[trigger] run(machine, events).1[j]),
    decreases events.len(),
{
    lemma_run_len(machine, events);
    if events.len() > 1 {
        let (next, first) = machine.transition(events[0]);
        let tail = events.drop_first();
        let actions = run(machine, events).1;
        let rest = run(next, tail).1;
        lemma_run_len(next, tail);
        assert(actions == seq![first] + rest);
        assert forall|i: int| 0 <= i < tail.len() - 1 implies responds(
            #[trigger] run(next, tail).1[i],
            tail[i + 1],
        ) by {
            assert(actions[i + 1] == rest[i]);
            assert(responds(actions[i + 1], events[i + 2]));
        }
        lemma_ranks_increase(next, tail);
        assert(responds(actions[0], events[1]));
        assert(run_accepted(next, tail));
        assert(next.accepts(tail[0]));
        assert(rest[0] == next.transition(tail[0]).1);
        assert(action_rank(first) < action_rank(rest[0]));
        assert forall|i: int, j: int| 0 <= i < j < events.len() implies action_rank(
            #[trigger] actions[i],
        ) < action_rank(#[trigger] actions[j]) by {
            assert(actions[j] == rest[j - 1]);
            if i > 0 {
                assert(actions[i] == rest[i - 1]);
            } else if j > 1 {
                assert(action_rank(rest[0]) < action_rank(rest[j - 1]));
            }
        }
    }
}

/// One poll does a bounded amount of work: from the `Poll` that begins it,
/// whatever the service and its future report, it asks at most once for the
/// service's readiness, hands over the request at most once and polls the
/// service's future at most once, and it ends with its first `Return`. So a
/// poll takes at most four events.
pub proof fn lemma_single_poll_bounded<S, R, F, T, E>(
    machine: Oneshot<S, R, F>,
    events: Seq<Event<F, T, E>>,
)
    requires
        events.len() > 0,
        events[0] is Poll,
        run_accepted(machine, events),
        answers_actions(machine, events),
    ensures
        events.len() <= 4,
        forall|i: int, j: int|
            0 <= i < events.len() && 0 <= j < events.len() && #[trigger] run(machine, events).1[i]
                is PollReadiness && #[trigger] run(machine, events).1[j] is PollReadiness ==> i == j,
        forall|i: int, j: int|
            0 <= i < events.len() && 0 <= j < events.len() && #[trigger] run(machine, events).1[i]
                is Call && #[trigger] run(machine, events).1[j] is Call ==> i == j,
        forall|i: int, j: int|
            0 <= i < events.len() && 0 <= j < events.len() && #[trigger] run(machine, events).1[i]
                is PollFuture && #[trigger] run(machine, events).1[j] is PollFuture ==> i == j,
        forall|i: int|
            0 <= i < events.len() - 1 ==> !(#[trigger] run(machine, events).1[i] is Return),
{
    lemma_run_len(machine, events);
    lemma_ranks_increase(machine, events);
    let actions = run(machine, events).1;
    assert forall|i: int| 0 <= i < events.len() - 1 implies !(#[trigger] actions[i] is Return) by {
        assert(responds(actions[i], events[i + 1]));
    }
    if events.len() > 4 {
        assert(action_rank(actions[0]) < action_rank(actions[1]));
        assert(action_rank(actions[1]) < action_rank(actions[2]));
        assert(action_rank(actions[2]) < action_rank(actions[3]));
        assert(action_rank(actions[3]) < action_rank(actions[4]));
    }
    assert forall|i: int, j: int|
        0 <= i < events.len() && 0 <= j < events.len() && #[trigger] actions[i] is PollReadiness
            && #[trigger] actions[j] is PollReadiness implies i == j by {
        if i < j {
            assert(action_rank(actions[i]) < action_rank(actions[j]));
        } else if j < i {
            assert(action_rank(actions[j]) < action_rank(actions[i]));
        }
    }
    assert forall|i: int, j: int|
        0 <= i < events.len() && 0 <= j < events.len() && #[trigger] actions[i] is Call
            && #[trigger] actions[j] is Call implies i == j by {
        if i < j {
            assert(action_rank(actions[i]) < action_rank(actions[j]));
        } else if j < i {
            assert(action_rank(actions[j]) < action_rank(actions[i]));
        }
    }
    assert forall|i: int, j: int|
        0 <= i < events.len() && 0 <= j < events.len() && #[trigger] actions[i] is PollFuture
            && #[trigger] actions[j] is PollFuture implies i == j by {
        if i < j {
            assert(action_rank(actions[i]) < action_rank(actions[j]));
        } else if j < i {
            assert(action_rank(actions[j]) < action_rank(actions[i]));
        }
    }
}

/// The state a machine is in after the first `k` of `events`.
pub open spec fn state_at<S, R, F, T, E>(
    machine: Oneshot<S, R, F>,
    events: Seq<Event<F, T, E>>,
    k: nat,
) -> Oneshot<S, R, F>
    decreases k,
{
    if k == 0 || events.len() == 0 {
        machine
    } else {
        state_at(machine.transition(events[0]).0, events.drop_first(), (k - 1) as nat)
    }
}

/// Each event of a run is taken by the state the previous events led to:
/// it is accepted there, asks for the action that the transition gives,
/// and leads to the next state.
pub proof fn lemma_state_at<S, R, F, T, E>(
    machine: Oneshot<S, R, F>,
    events: Seq<Event<F, T, E>>,
    k: nat,
)
    requires
        k < events.len(),
    ensures
        run(machine, events).1[k as int] == state_at(machine, events, k).transition(
            events[k as int],
        ).1,
        state_at(machine, events, (k + 1) as nat) == state_at(machine, events, k).transition(
            events[k as int],
        ).0,
        run_accepted(machine, events) ==> state_at(machine, events, k).accepts(events[k as int]),
    decreases k,
{
    let (next, first) = machine.transition(events[0]);
    let tail = events.drop_first();
    lemma_run_len(next, tail);
    assert(run(machine, events).1 == seq![first] + run(next, tail).1);
    assert(state_at(machine, events, (k + 1) as nat) == state_at(next, tail, k));
    if k > 0 {
        lemma_state_at(next, tail, (k - 1) as nat);
        assert(tail[k - 1] == events[k as int]);
        assert(state_at(machine, events, k) == state_at(next, tail, (k - 1) as nat));
        assert(run(machine, events).1[k as int] == run(next, tail).1[k - 1]);
        assert(run_accepted(machine, events) ==> run_accepted(next, tail));
    } else {
        assert(state_at(next, tail, 0) == next);
    }
}

/// Whether, among the first `k` events, the request `req` was handed to the
/// service and, after that, the service was reported to have returned `fut`.
pub open spec fn future_from_call<S, R, F, T, E>(
    machine: Oneshot<S, R, F>,
    events: Seq<Event<F, T, E>>,
    k: int,
    req: R,
    fut: F,
) -> bool {
    exists|j: int, i: int|
        0 <= j < i < k && #[trigger] run(machine, events).1[j] == Action::<R, T, E>::Call(req)
            && #[trigger] events[i] == Event::<F, T, E>::ServiceCalled(fut)
}

/// Whether, before its `k`-th event, the machine holds a future that the
/// service returned after it was handed `req`.
pub open spec fn polls_future_from_call<S, R, F, T, E>(
    machine: Oneshot<S, R, F>,
    events: Seq<Event<F, T, E>>,
    k: int,
    req: R,
) -> bool {
    match state_at(machine, events, k as nat) {
        Oneshot::Called { fut } => future_from_call(machine, events, k, req, fut),
        _ => false,
    }
}

/// What the machine, started with request `req`, has done before its `k`-th
/// event, as far as the request and the service's future go.
pub open spec fn history_fits<S, R, F, T, E>(
    machine: Oneshot<S, R, F>,
    events: Seq<Event<F, T, E>>,
    k: int,
    req: R,
) -> bool {
    match state_at(machine, events, k as nat) {
        Oneshot::NotReady { req: Some(r), .. } => r == req && forall|i: int|
            0 <= i < k ==> !(#[trigger] run(machine, events).1[i] is Call),
        Oneshot::NotReady { req: None, .. } => exists|j: int|
            0 <= j < k && #[trigger] run(machine, events).1[j] == Action::<R, T, E>::Call(req),
        Oneshot::Called { fut } => future_from_call(machine, events, k, req, fut),
        Oneshot::Done => true,
    }
}

proof fn lemma_history<S, R, F, T, E>(svc: S, req: R, events: Seq<Event<F, T, E>>, k: nat)
    requires
        run_accepted(Oneshot::<S, R, F>::NotReady { svc, req: Some(req) }, events),
        k <= events.len(),
    ensures
        history_fits(Oneshot::<S, R, F>::NotReady { svc, req: Some(req) }, events, k as int, req),
    decreases k,
{
    let m = Oneshot::<S, R, F>::NotReady { svc, req: Some(req) };
    let actions = run(m, events).1;
    lemma_run_len(m, events);
    if k > 0 {
        let p = (k - 1) as nat;
        lemma_history(svc, req, events, p);
        lemma_state_at(m, events, p);
        let before = state_at(m, events, p);
        let after = state_at(m, events, k);
        match before {
            Oneshot::NotReady { req: Some(r), .. } => {
                match after {
                    Oneshot::NotReady { req: Some(r2), .. } => {
                        assert forall|i: int| 0 <= i < k implies !(#[trigger] actions[i] is Call) by {
                            if i == p {
                            }
                        }
                    },
                    Oneshot::NotReady { req: None, .. } => {
                        assert(actions[p as int] == Action::<R, T, E>::Call(req));
                    },
                    _ => {},
                }
            },
            Oneshot::NotReady { req: None, .. } => {
                let j = choose|j: int|
                    0 <= j < p && #[trigger] actions[j] == Action::<R, T, E>::Call(req);
                match after {
                    Oneshot::Called { fut } => {
                        assert(events[p as int] == Event::<F, T, E>::ServiceCalled(fut));
                        assert(actions[j] == Action::<R, T, E>::Call(req));
                        assert(future_from_call(m, events, k as int, req, fut));
                    },
                    Oneshot::NotReady { req: None, .. } => {
                        assert(actions[j] == Action::<R, T, E>::Call(req));
                    },
                    _ => {},
                }
            },
            Oneshot::Called { fut } => {
                let (j, i) = choose|j: int, i: int|
                    0 <= j < i < p && #[trigger] actions[j] == Action::<R, T, E>::Call(req)
                        && #[trigger] events[i] == Event::<F, T, E>::ServiceCalled(fut);
                if after is Called {
                    assert(actions[j] == Action::<R, T, E>::Call(req));
                    assert(events[i] == Event::<F, T, E>::ServiceCalled(fut));
                }
            },
            Oneshot::Done => {},
        }
    }
}

/// Whether the `k`-th action of a run that began with request `req`, where
/// it delivers a result, delivers the one the run explains: the error the
/// service reported while the request was still to be handed over, or what
/// the future that the service returned for the request finished with.
pub open spec fn ready_result_explained<S, R, F, T, E>(
    machine: Oneshot<S, R, F>,
    events: Seq<Event<F, T, E>>,
    k: int,
    req: R,
) -> bool {
    match run(machine, events).1[k] {
        Action::Return(Outcome::Ready(result)) => match events[k] {
            Event::Readiness(Readiness::Failed(e)) => result == Err::<T, E>(e) && state_at(
                machine,
                events,
                k as nat,
            ) is NotReady,
            Event::Progress(Progress::Finished(t)) => result == Ok::<T, E>(t) && polls_future_from_call(
                machine,
                events,
                k,
                req,
            ),
            Event::Progress(Progress::Failed(e)) => result == Err::<T, E>(e) && polls_future_from_call(
                machine,
                events,
                k,
                req,
            ),
            _ => false,
        },
        _ => true,
    }
}

/// Driving a request to its result yields what handing it once to a ready
/// service yields: every result that a run from a fresh machine delivers is
/// either the error the service reported when asked for readiness, before
/// the request was handed over, or the result (value or error) of the
/// future that the service returned after it was handed `req`.
pub proof fn lemma_results_come_from_readiness_or_future<S, R, F, T, E>(
    svc: S,
    req: R,
    events: Seq<Event<F, T, E>>,
)
    requires
        run_accepted(Oneshot::<S, R, F>::NotReady { svc, req: Some(req) }, events),
    ensures
        forall|k: int|
            0 <= k < events.len() ==> #[trigger] ready_result_explained(
                Oneshot::<S, R, F>::NotReady { svc, req: Some(req) },
                events,
                k,
                req,
            ),
{
    let m = Oneshot::<S, R, F>::NotReady { svc, req: Some(req) };
    assert forall|k: int| 0 <= k < events.len() implies #[trigger] ready_result_explained(
        m,
        events,
        k,
        req,
    ) by {
        lemma_state_at(m, events, k as nat);
        lemma_history(svc, req, events, k as nat);
    }
}

} // verus!
