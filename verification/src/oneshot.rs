use vstd::prelude::*;

verus! {

/// One request on its way through a service, seen as a state machine.
///
/// The machine starts out holding the service and the request. Each poll
/// first waits until the service is ready, then hands it the request once,
/// keeps the future the service returned, and polls that future until it
/// finishes. The polling itself is done by the caller: it reports what it
/// observed as an [`Event`] and is told what to do next by an [`Action`].
pub enum Oneshot<S, R, F> {
    /// The service has not yet been handed the request.
    NotReady { svc: S, req: Option<R> },
    /// The service has been handed the request; its future is in flight.
    Called { fut: F },
    /// The response has been delivered.
    Done,
}

/// What a service answered when asked whether it can take a request.
pub enum Readiness<E> {
    Pending,
    Ready,
    Failed(E),
}

/// What the service's future answered when polled.
pub enum Progress<T, E> {
    Pending,
    Finished(T),
    Failed(E),
}

/// What one poll of the whole machine yields.
pub enum Outcome<T, E> {
    Pending,
    Ready(Result<T, E>),
}

/// What the caller observed and reports to the machine.
pub enum Event<F, T, E> {
    /// A new poll begins.
    Poll,
    /// The service was asked whether it is ready.
    Readiness(Readiness<E>),
    /// The service was handed the request and returned this future.
    ServiceCalled(F),
    /// The service's future was polled.
    Progress(Progress<T, E>),
}

/// What the machine asks the caller to do next.
pub enum Action<R, T, E> {
    /// Ask the service whether it is ready.
    PollReadiness,
    /// Hand this request to the service, and report the future it returns.
    Call(R),
    /// Poll the service's future.
    PollFuture,
    /// End the current poll with this outcome.
    Return(Outcome<T, E>),
}

impl<S, R, F> Oneshot<S, R, F> {
    /// How far the machine has come: 0 before the call, 1 while the
    /// service's future runs, 2 once the response was delivered.
    pub open spec fn stage(self) -> nat {
        match self {
            Oneshot::NotReady { .. } => 0,
            Oneshot::Called { .. } => 1,
            Oneshot::Done => 2,
        }
    }

    /// Whether the machine can take `event` in its present state. A poll of a
    /// finished machine, and a ready service when the request is already
    /// gone, are refused; so is every event that the protocol never produces
    /// in that state.
    pub open spec fn accepts<T, E>(self, event: Event<F, T, E>) -> bool {
        match self {
            Oneshot::NotReady { req, .. } => match event {
                Event::Poll => true,
                Event::Readiness(Readiness::Ready) => req is Some,
                Event::Readiness(_) => true,
                Event::ServiceCalled(_) => req is None,
                Event::Progress(_) => false,
            },
            Oneshot::Called { .. } => match event {
                Event::Poll => true,
                Event::Progress(_) => true,
                _ => false,
            },
            Oneshot::Done => false,
        }
    }

    /// The next state and the action for an accepted event.
    pub open spec fn transition<T, E>(self, event: Event<F, T, E>) -> (Self, Action<R, T, E>) {
        match self {
            Oneshot::NotReady { svc, req } => match event {
                Event::Poll => (Oneshot::NotReady { svc, req }, Action::PollReadiness),
                Event::Readiness(Readiness::Pending) => (
                    Oneshot::NotReady { svc, req },
                    Action::Return(Outcome::Pending),
                ),
                Event::Readiness(Readiness::Failed(e)) => (
                    Oneshot::NotReady { svc, req },
                    Action::Return(Outcome::Ready(Err(e))),
                ),
                Event::Readiness(Readiness::Ready) => (
                    Oneshot::NotReady { svc, req: None },
                    Action::Call(req->0),
                ),
                Event::ServiceCalled(fut) => (Oneshot::Called { fut }, Action::PollFuture),
                Event::Progress(_) => (Oneshot::NotReady { svc, req }, Action::PollReadiness),
            },
            Oneshot::Called { fut } => match event {
                Event::Progress(Progress::Pending) => (
                    Oneshot::Called { fut },
                    Action::Return(Outcome::Pending),
                ),
                Event::Progress(Progress::Failed(e)) => (
                    Oneshot::Called { fut },
                    Action::Return(Outcome::Ready(Err(e))),
                ),
                Event::Progress(Progress::Finished(t)) => (
                    Oneshot::Done,
                    Action::Return(Outcome::Ready(Ok(t))),
                ),
                _ => (Oneshot::Called { fut }, Action::PollFuture),
            },
            Oneshot::Done => (Oneshot::Done, Action::Return(Outcome::Pending)),
        }
    }

    /// A machine that will hand `req` to `svc`.
    pub fn new(svc: S, req: R) -> (machine: Self)
        ensures
            machine == (Oneshot::<S, R, F>::NotReady { svc, req: Some(req) }),
    {
        Oneshot::NotReady { svc, req: Some(req) }
    }

    /// Whether the response was already delivered; polling such a machine
    /// again is a misuse.
    pub fn is_done(&self) -> (done: bool)
        ensures
            done == (*self is Done),
    {
        match self {
            Oneshot::Done => true,
            _ => false,
        }
    }

    /// Whether the machine can take `event` now.
    pub fn can_accept<T, E>(&self, event: &Event<F, T, E>) -> (ok: bool)
        ensures
            ok == self.accepts(*event),
    {
        match self {
            Oneshot::NotReady { req, .. } => match event {
                Event::Poll => true,
                Event::Readiness(Readiness::Ready) => req.is_some(),
                Event::Readiness(_) => true,
                Event::ServiceCalled(_) => req.is_none(),
                Event::Progress(_) => false,
            },
            Oneshot::Called { .. } => match event {
                Event::Poll => true,
                Event::Progress(_) => true,
                _ => false,
            },
            Oneshot::Done => false,
        }
    }

    /// Takes `event` and says what to do next.
    pub fn step<T, E>(&mut self, event: Event<F, T, E>) -> (action: Action<R, T, E>)
        requires
            old(self).accepts(event),
        ensures
            (*final(self), action) == old(self).transition(event),
    {
        let mut state = Oneshot::Done;
        std::mem::swap(&mut state, self);
        match state {
            Oneshot::NotReady { svc, req } => match event {
                Event::Poll => {
                    *self = Oneshot::NotReady { svc, req };
                    Action::PollReadiness
                },
                Event::Readiness(Readiness::Pending) => {
                    *self = Oneshot::NotReady { svc, req };
                    Action::Return(Outcome::Pending)
                },
                Event::Readiness(Readiness::Failed(e)) => {
                    *self = Oneshot::NotReady { svc, req };
                    Action::Return(Outcome::Ready(Err(e)))
                },
                Event::Readiness(Readiness::Ready) => {
                    let mut req = req;
                    let taken = req.take();
                    *self = Oneshot::NotReady { svc, req };
                    match taken {
                        Some(r) => Action::Call(r),
                        None => Action::PollReadiness,
                    }
                },
                Event::ServiceCalled(fut) => {
                    *self = Oneshot::Called { fut };
                    Action::PollFuture
                },
                Event::Progress(_) => {
                    *self = Oneshot::NotReady { svc, req };
                    Action::PollReadiness
                },
            },
            Oneshot::Called { fut } => match event {
                Event::Progress(Progress::Pending) => {
                    *self = Oneshot::Called { fut };
                    Action::Return(Outcome::Pending)
                },
                Event::Progress(Progress::Failed(e)) => {
                    *self = Oneshot::Called { fut };
                    Action::Return(Outcome::Ready(Err(e)))
                },
                Event::Progress(Progress::Finished(t)) => Action::Return(Outcome::Ready(Ok(t))),
                _ => {
                    *self = Oneshot::Called { fut };
                    Action::PollFuture
                },
            },
            Oneshot::Done => Action::Return(Outcome::Pending),
        }
    }
}


/// The state reached, and the actions asked for, when `events` are taken one
/// after the other starting from `machine`.
pub open spec fn run<S, R, F, T, E>(
    machine: Oneshot<S, R, F>,
    events: Seq<Event<F, T, E>>,
) -> (Oneshot<S, R, F>, Seq<Action<R, T, E>>)
    decreases events.len(),
{
    if events.len() == 0 {
        (machine, Seq::empty())
    } else {
        let (next, action) = machine.transition(events[0]);
        let (last, rest) = run(next, events.drop_first());
        (last, seq![action] + rest)
    }
}

/// Whether each of `events` is accepted by the state it reaches.
pub open spec fn run_accepted<S, R, F, T, E>(
    machine: Oneshot<S, R, F>,
    events: Seq<Event<F, T, E>>,
) -> bool
    decreases events.len(),
{
    events.len() == 0 || (machine.accepts(events[0]) && run_accepted(
        machine.transition(events[0]).0,
        events.drop_first(),
    ))
}

/// How many of `actions` hand a request to the service.
pub open spec fn call_count<R, T, E>(actions: Seq<Action<R, T, E>>) -> nat
    decreases actions.len(),
{
    if actions.len() == 0 {
        0
    } else {
        (if actions[0] is Call { 1nat } else { 0nat }) + call_count(actions.drop_first())
    }
}

/// How many requests a machine in this state may still hand out.
pub open spec fn calls_left<S, R, F>(machine: Oneshot<S, R, F>) -> nat {
    match machine {
        Oneshot::NotReady { req: Some(_), .. } => 1,
        _ => 0,
    }
}

proof fn lemma_calls_bounded<S, R, F, T, E>(
    machine: Oneshot<S, R, F>,
    events: Seq<Event<F, T, E>>,
)
    requires
        run_accepted(machine, events),
    ensures
        call_count(run(machine, events).1) <= calls_left(machine),
        forall|i: int|
            0 <= i < run(machine, events).1.len() && #[trigger] run(machine, events).1[i] is Call
                ==> (machine matches Oneshot::NotReady { req: Some(r), .. } && run(
                machine,
                events,
            ).1[i]->Call_0 == r),
    decreases events.len(),
{
    if events.len() > 0 {
        let (next, action) = machine.transition(events[0]);
        lemma_calls_bounded(next, events.drop_first());
        let actions = run(machine, events).1;
        let rest = run(next, events.drop_first()).1;
        assert(actions == seq![action] + rest);
        assert(actions.drop_first() =~= rest);
        assert forall|i: int| 0 <= i < actions.len() && #[trigger] actions[i] is Call implies
            (machine matches Oneshot::NotReady { req: Some(r), .. } && actions[i]->Call_0 == r) by {
            if i > 0 {
                assert(actions[i] == rest[i - 1]);
            }
        }
    }
}

/// A request is handed to the service at most once, and it is the request
/// that the machine was made with: from a fresh machine, whatever the
/// service and its future report, at most one action is a call, and every
/// call carries `req`.
pub proof fn lemma_request_handed_over_once<S, R, F, T, E>(
    svc: S,
    req: R,
    events: Seq<Event<F, T, E>>,
)
    requires
        run_accepted(Oneshot::<S, R, F>::NotReady { svc, req: Some(req) }, events),
    ensures
        call_count(run(Oneshot::<S, R, F>::NotReady { svc, req: Some(req) }, events).1) <= 1,
        forall|i: int|
            0 <= i < run(Oneshot::<S, R, F>::NotReady { svc, req: Some(req) }, events).1.len()
                && #[trigger] run(
                Oneshot::<S, R, F>::NotReady { svc, req: Some(req) },
                events,
            ).1[i] is Call ==> run(
                Oneshot::<S, R, F>::NotReady { svc, req: Some(req) },
                events,
            ).1[i]->Call_0 == req,
{
    lemma_calls_bounded(Oneshot::<S, R, F>::NotReady { svc, req: Some(req) }, events);
}

/// Whether `action` delivers the response.
pub open spec fn delivers<R, T, E>(action: Action<R, T, E>) -> bool {
    action matches Action::Return(Outcome::Ready(Ok(_)))
}

/// The response is delivered at most once, and only as the very last
/// action: once a machine has delivered it, it takes no further event.
pub proof fn lemma_response_delivered_last<S, R, F, T, E>(
    machine: Oneshot<S, R, F>,
    events: Seq<Event<F, T, E>>,
)
    requires
        run_accepted(machine, events),
    ensures
        forall|i: int|
            0 <= i < run(machine, events).1.len() && #[trigger] delivers(run(machine, events).1[i])
                ==> i == run(machine, events).1.len() - 1 && run(machine, events).0 is Done,
    decreases events.len(),
{
    if events.len() > 0 {
        let (next, action) = machine.transition(events[0]);
        lemma_response_delivered_last(next, events.drop_first());
        let actions = run(machine, events).1;
        let rest = run(next, events.drop_first()).1;
        assert(actions == seq![action] + rest);
        let later = events.drop_first();
        assert(run_accepted(next, later));
        assert forall|i: int| 0 <= i < actions.len() && #[trigger] delivers(actions[i]) implies
            i == actions.len() - 1 && run(machine, events).0 is Done by {
            if i == 0 {
                assert(next is Done);
                assert(later.len() == 0) by {
                    if later.len() > 0 {
                        assert(!next.accepts(later[0]));
                    }
                }
                assert(run(next, later).0 == next);
            } else {
                assert(actions[i] == rest[i - 1]);
            }
        }
    }
}

/// The machine never goes back: no accepted event lowers its stage.
pub proof fn lemma_stage_never_decreases<S, R, F, T, E>(
    machine: Oneshot<S, R, F>,
    event: Event<F, T, E>,
)
    requires
        machine.accepts(event),
    ensures
        machine.transition(event).0.stage() >= machine.stage(),
{
}

/// A service or future that is not ready yet, or that failed, leaves the
/// machine as it was: the poll ends, pending or with the error, and the
/// request and the future are kept.
pub proof fn lemma_pending_or_failure_keeps_state<S, R, F, T, E>(
    machine: Oneshot<S, R, F>,
    event: Event<F, T, E>,
)
    requires
        machine.accepts(event),
        event matches Event::Readiness(r) ==> !(r is Ready),
        event matches Event::Progress(p) ==> !(p is Finished),
        event is Readiness || event is Progress,
    ensures
        machine.transition(event).0 == machine,
        (machine.transition(event).1 matches Action::Return(o) && (o is Pending <==> (
        event matches Event::Readiness(Readiness::Pending) || event matches Event::Progress(
            Progress::Pending,
        )))),
{
}

/// When the service is ready at once and its future finishes at once, a
/// single poll does all the work: it asks for readiness, hands over the
/// request, polls the future the service returned, and delivers that
/// future's response, leaving the machine done.
pub proof fn lemma_single_poll_when_ready<S, R, F, T, E>(svc: S, req: R, fut: F, response: T)
    ensures
        run_accepted(
            Oneshot::<S, R, F>::NotReady { svc, req: Some(req) },
            seq![
                Event::<F, T, E>::Poll,
                Event::Readiness(Readiness::Ready),
                Event::ServiceCalled(fut),
                Event::Progress(Progress::Finished(response)),
            ],
        ),
        run(
            Oneshot::<S, R, F>::NotReady { svc, req: Some(req) },
            seq![
                Event::<F, T, E>::Poll,
                Event::Readiness(Readiness::Ready),
                Event::ServiceCalled(fut),
                Event::Progress(Progress::Finished(response)),
            ],
        ) == (
            Oneshot::<S, R, F>::Done,
            seq![
                Action::<R, T, E>::PollReadiness,
                Action::Call(req),
                Action::PollFuture,
                Action::Return(Outcome::Ready(Ok(response))),
            ],
        ),
{
    let m0 = Oneshot::<S, R, F>::NotReady { svc, req: Some(req) };
    let e0 = seq![
        Event::<F, T, E>::Poll,
        Event::Readiness(Readiness::Ready),
        Event::ServiceCalled(fut),
        Event::Progress(Progress::Finished(response)),
    ];
    let e1 = e0.drop_first();
    let e2 = e1.drop_first();
    let e3 = e2.drop_first();
    let e4 = e3.drop_first();
    assert(e1 =~= seq![
        Event::<F, T, E>::Readiness(Readiness::Ready),
        Event::ServiceCalled(fut),
        Event::Progress(Progress::Finished(response)),
    ]);
    assert(e2 =~= seq![Event::<F, T, E>::ServiceCalled(fut), Event::Progress(Progress::Finished(response))]);
    assert(e3 =~= seq![Event::<F, T, E>::Progress(Progress::Finished(response))]);
    assert(e4 =~= Seq::<Event<F, T, E>>::empty());
    let m1 = m0.transition(e0[0]).0;
    let m2 = m1.transition(e1[0]).0;
    let m3 = m2.transition(e2[0]).0;
    let m4 = m3.transition(e3[0]).0;
    assert(run_accepted(m4, e4));
    assert(run_accepted(m3, e3));
    assert(run_accepted(m2, e2));
    assert(run_accepted(m1, e1));
    assert(run(m4, e4) == (m4, Seq::<Action<R, T, E>>::empty()));
    assert(run(m3, e3).1 =~= seq![Action::<R, T, E>::Return(Outcome::Ready(Ok(response)))]);
    assert(run(m2, e2).1 =~= seq![
        Action::<R, T, E>::PollFuture,
        Action::Return(Outcome::Ready(Ok(response))),
    ]);
    assert(run(m1, e1).1 =~= seq![
        Action::<R, T, E>::Call(req),
        Action::PollFuture,
        Action::Return(Outcome::Ready(Ok(response))),
    ]);
    assert(run(m0, e0).1 =~= seq![
        Action::<R, T, E>::PollReadiness,
        Action::Call(req),
        Action::PollFuture,
        Action::Return(Outcome::Ready(Ok(response))),
    ]);
}

/// A machine that has delivered its response takes no further event: a
/// poll of it is refused (the caller reports the misuse as "future polled
/// after completion"), so neither the service nor the finished future is
/// asked for anything again.
pub proof fn lemma_done_takes_no_event<S, R, F, T, E>(event: Event<F, T, E>)
    ensures
        !Oneshot::<S, R, F>::Done.accepts(event),
        forall|events: Seq<Event<F, T, E>>|
            run_accepted(Oneshot::<S, R, F>::Done, events) ==> #[trigger] events.len() == 0,
{
    assert forall|events: Seq<Event<F, T, E>>|
        run_accepted(Oneshot::<S, R, F>::Done, events) implies #[trigger] events.len() == 0 by {
        if events.len() > 0 {
            assert(!Oneshot::<S, R, F>::Done.accepts(events[0]));
        }
    }
}

/// The machine never refuses what the caller observed in answer to the
/// action it asked for: after `PollFuture` it takes the future's progress,
/// whatever it is (not finished yet, finished, failed); after `Call` it
/// takes whatever future the service returned; after `PollReadiness` it
/// takes a service that is not ready or failed, and, while it still holds
/// the request, a ready one. After a poll that ended pending or with an
/// error it takes the next poll; after the response was delivered it
/// refuses any further poll.
pub proof fn lemma_answers_are_accepted<S, R, F, T, E>(
    machine: Oneshot<S, R, F>,
    event: Event<F, T, E>,
)
    requires
        machine.accepts(event),
    ensures
        machine.transition(event).1 is PollFuture ==> forall|p: Progress<T, E>|
            #[trigger] machine.transition(event).0.accepts(Event::<F, T, E>::Progress(p)),
        machine.transition(event).1 is Call ==> forall|f: F|
            #[trigger] machine.transition(event).0.accepts(Event::<F, T, E>::ServiceCalled(f)),
        machine.transition(event).1 is PollReadiness ==> machine.transition(event).0.accepts(
            Event::<F, T, E>::Readiness(Readiness::Pending),
        ) && forall|e: E|
            #[trigger] machine.transition(event).0.accepts(
                Event::<F, T, E>::Readiness(Readiness::Failed(e)),
            ),
        machine.transition(event).1 is PollReadiness && calls_left(machine) == 1
            ==> machine.transition(event).0.accepts(Event::<F, T, E>::Readiness(Readiness::Ready)),
        machine.transition(event).1 matches Action::Return(Outcome::Pending)
            ==> machine.transition(event).0.accepts(Event::<F, T, E>::Poll),
        machine.transition(event).1 matches Action::Return(Outcome::Ready(Err(_)))
            ==> machine.transition(event).0.accepts(Event::<F, T, E>::Poll),
        machine.transition(event).1 matches Action::Return(Outcome::Ready(Ok(_)))
            ==> !machine.transition(event).0.accepts(Event::<F, T, E>::Poll),
{
}

/// A poll of a machine that holds the service's future polls that future
/// and leaves it in place.
pub proof fn lemma_poll_of_called_polls_future<S, R, F, T, E>(fut: F)
    ensures
        called_with::<S, R, F>(fut).accepts(Event::<F, T, E>::Poll),
        called_with::<S, R, F>(fut).transition(Event::<F, T, E>::Poll) == (
            called_with::<S, R, F>(fut),
            Action::<R, T, E>::PollFuture,
        ),
{
}

/// The machine that holds the service's future `fut`.
pub open spec fn called_with<S, R, F>(fut: F) -> Oneshot<S, R, F> {
    Oneshot::Called { fut }
}

/// A service's future that is not finished on one poll is polled again on
/// the next, and its response is then delivered: from a fresh machine, the
/// first poll hands the request over and ends pending, the second delivers
/// what the future finished with.
pub proof fn lemma_pending_future_delivers_later<S, R, F, T, E>(
    svc: S,
    req: R,
    fut: F,
    response: T,
)
    ensures
        run_accepted(
            Oneshot::<S, R, F>::NotReady { svc, req: Some(req) },
            seq![
                Event::<F, T, E>::Poll,
                Event::Readiness(Readiness::Ready),
                Event::ServiceCalled(fut),
                Event::Progress(Progress::Pending),
                Event::Poll,
                Event::Progress(Progress::Finished(response)),
            ],
        ),
        run(
            Oneshot::<S, R, F>::NotReady { svc, req: Some(req) },
            seq![
                Event::<F, T, E>::Poll,
                Event::Readiness(Readiness::Ready),
                Event::ServiceCalled(fut),
                Event::Progress(Progress::Pending),
                Event::Poll,
                Event::Progress(Progress::Finished(response)),
            ],
        ) == (
            Oneshot::<S, R, F>::Done,
            seq![
                Action::<R, T, E>::PollReadiness,
                Action::Call(req),
                Action::PollFuture,
                Action::Return(Outcome::Pending),
                Action::PollFuture,
                Action::Return(Outcome::Ready(Ok(response))),
            ],
        ),
{
    let m0 = Oneshot::<S, R, F>::NotReady { svc, req: Some(req) };
    let m2 = Oneshot::<S, R, F>::NotReady { svc, req: None };
    let m3 = Oneshot::<S, R, F>::Called { fut };
    let e0 = seq![
        Event::<F, T, E>::Poll,
        Event::Readiness(Readiness::Ready),
        Event::ServiceCalled(fut),
        Event::Progress(Progress::Pending),
        Event::Poll,
        Event::Progress(Progress::Finished(response)),
    ];
    let e1 = e0.drop_first();
    let e2 = e1.drop_first();
    let e3 = e2.drop_first();
    let e4 = e3.drop_first();
    let e5 = e4.drop_first();
    let e6 = e5.drop_first();
    assert(e1 =~= e0.subrange(1, 6));
    assert(e2 =~= e0.subrange(2, 6));
    assert(e3 =~= e0.subrange(3, 6));
    assert(e4 =~= e0.subrange(4, 6));
    assert(e5 =~= e0.subrange(5, 6));
    assert(e6 =~= Seq::<Event<F, T, E>>::empty());
    let done = Oneshot::<S, R, F>::Done;
    assert(run_accepted(done, e6));
    assert(run(done, e6) == (done, Seq::<Action<R, T, E>>::empty()));
    assert(run_accepted(m3, e5));
    assert(run(m3, e5).1 =~= seq![Action::<R, T, E>::Return(Outcome::Ready(Ok(response)))]);
    assert(run_accepted(m3, e4));
    assert(run(m3, e4).1 =~= seq![
        Action::<R, T, E>::PollFuture,
        Action::Return(Outcome::Ready(Ok(response))),
    ]);
    assert(run_accepted(m3, e3));
    assert(run(m3, e3).1 =~= seq![
        Action::<R, T, E>::Return(Outcome::Pending),
        Action::PollFuture,
        Action::Return(Outcome::Ready(Ok(response))),
    ]);
    assert(run_accepted(m2, e2));
    assert(run(m2, e2).1 =~= seq![
        Action::<R, T, E>::PollFuture,
        Action::Return(Outcome::Pending),
        Action::PollFuture,
        Action::Return(Outcome::Ready(Ok(response))),
    ]);
    assert(run_accepted(m0, e1));
    assert(run(m0, e1).1 =~= seq![
        Action::<R, T, E>::Call(req),
        Action::PollFuture,
        Action::Return(Outcome::Pending),
        Action::PollFuture,
        Action::Return(Outcome::Ready(Ok(response))),
    ]);
    assert(run(m0, e0).1 =~= seq![
        Action::<R, T, E>::PollReadiness,
        Action::Call(req),
        Action::PollFuture,
        Action::Return(Outcome::Pending),
        Action::PollFuture,
        Action::Return(Outcome::Ready(Ok(response))),
    ]);
}

} // verus!
