use bevy_webserver::{Action, Event, Oneshot, Outcome, Progress, Readiness, TowerToHyperService};

type Machine = Oneshot<&'static str, u32, char>;
type Ev = Event<char, String, i32>;

fn fresh() -> Machine {
    Oneshot::new("svc", 7)
}

#[test]
fn a_poll_first_asks_for_readiness() {
    let mut m = fresh();
    assert!(matches!(m.step(Ev::Poll), Action::PollReadiness));
    assert!(matches!(m, Oneshot::NotReady { svc: "svc", req: Some(7) }));
}

#[test]
fn a_service_not_ready_ends_the_poll_pending_and_keeps_the_request() {
    let mut m = fresh();
    m.step(Ev::Poll);
    assert!(matches!(m.step(Ev::Readiness(Readiness::Pending)), Action::Return(Outcome::Pending)));
    assert!(matches!(m, Oneshot::NotReady { req: Some(7), .. }));
}

#[test]
fn a_failing_service_ends_the_poll_with_its_error() {
    let mut m = fresh();
    m.step(Ev::Poll);
    match m.step(Ev::Readiness(Readiness::Failed(-3))) {
        Action::Return(Outcome::Ready(Err(e))) => assert_eq!(e, -3),
        _ => panic!("expected the error"),
    }
    assert!(matches!(m, Oneshot::NotReady { req: Some(7), .. }));
}

#[test]
fn a_ready_service_is_handed_the_request_once() {
    let mut m = fresh();
    m.step(Ev::Poll);
    match m.step(Ev::Readiness(Readiness::Ready)) {
        Action::Call(r) => assert_eq!(r, 7),
        _ => panic!("expected a call"),
    }
    assert!(matches!(m, Oneshot::NotReady { req: None, .. }));
    assert!(!m.can_accept(&Ev::Readiness(Readiness::Ready)));
}

#[test]
fn the_returned_future_is_polled_and_its_response_delivered() {
    let mut m = fresh();
    m.step(Ev::Poll);
    m.step(Ev::Readiness(Readiness::Ready));
    assert!(matches!(m.step(Ev::ServiceCalled('f')), Action::PollFuture));
    assert!(matches!(m, Oneshot::Called { fut: 'f' }));
    assert!(matches!(m.step(Ev::Progress(Progress::Pending)), Action::Return(Outcome::Pending)));
    assert!(matches!(m.step(Ev::Poll), Action::PollFuture));
    match m.step(Ev::Progress(Progress::Finished("hello".to_string()))) {
        Action::Return(Outcome::Ready(Ok(s))) => assert_eq!(s, "hello"),
        _ => panic!("expected the response"),
    }
    assert!(m.is_done());
}

#[test]
fn a_failing_future_ends_the_poll_but_is_kept() {
    let mut m = fresh();
    m.step(Ev::Poll);
    m.step(Ev::Readiness(Readiness::Ready));
    m.step(Ev::ServiceCalled('f'));
    match m.step(Ev::Progress(Progress::Failed(9))) {
        Action::Return(Outcome::Ready(Err(e))) => assert_eq!(e, 9),
        _ => panic!("expected the error"),
    }
    assert!(matches!(m, Oneshot::Called { fut: 'f' }));
    assert!(!m.is_done());
}

#[test]
fn a_finished_machine_accepts_no_further_poll() {
    let mut m = fresh();
    m.step(Ev::Poll);
    m.step(Ev::Readiness(Readiness::Ready));
    m.step(Ev::ServiceCalled('f'));
    m.step(Ev::Progress(Progress::Finished(String::new())));
    assert!(!m.can_accept(&Ev::Poll));
    assert!(!m.can_accept(&Ev::Progress(Progress::Pending)));
}

#[test]
fn events_out_of_protocol_are_refused() {
    let m = fresh();
    assert!(m.can_accept(&Ev::Poll));
    assert!(m.can_accept(&Ev::Readiness(Readiness::Ready)));
    assert!(!m.can_accept(&Ev::ServiceCalled('f')));
    assert!(!m.can_accept(&Ev::Progress(Progress::Pending)));
    let called: Machine = Oneshot::Called { fut: 'f' };
    assert!(!called.can_accept(&Ev::Readiness(Readiness::Pending)));
    assert!(called.can_accept(&Ev::Poll));
}

#[test]
fn the_service_copy_gets_the_request() {
    let service = TowerToHyperService { service: 41u8 };
    let m: Oneshot<u8, &str, ()> = service.oneshot("GET /");
    assert!(matches!(m, Oneshot::NotReady { svc: 41, req: Some("GET /") }));
    assert!(!m.is_done());
}

#[test]
fn one_poll_does_everything_when_all_is_ready() {
    let mut m = fresh();
    let mut event = Ev::Poll;
    let mut actions = Vec::new();
    loop {
        assert!(m.can_accept(&event));
        match m.step(event) {
            Action::PollReadiness => {
                actions.push("readiness");
                event = Ev::Readiness(Readiness::Ready);
            }
            Action::Call(r) => {
                assert_eq!(r, 7);
                actions.push("call");
                event = Ev::ServiceCalled('f');
            }
            Action::PollFuture => {
                actions.push("future");
                event = Ev::Progress(Progress::Finished("body".to_string()));
            }
            Action::Return(outcome) => {
                match outcome {
                    Outcome::Ready(Ok(s)) => assert_eq!(s, "body"),
                    _ => panic!("expected the response"),
                }
                break;
            }
        }
    }
    assert_eq!(actions, vec!["readiness", "call", "future"]);
    assert!(m.is_done());
}

#[test]
fn the_first_result_is_the_readiness_error_then_the_future_result() {
    let mut m = fresh();
    m.step(Ev::Poll);
    match m.step(Ev::Readiness(Readiness::Failed(1))) {
        Action::Return(Outcome::Ready(Err(e))) => assert_eq!(e, 1),
        _ => panic!("expected the readiness error"),
    }
    m.step(Ev::Poll);
    assert!(matches!(m.step(Ev::Readiness(Readiness::Ready)), Action::Call(7)));
    m.step(Ev::ServiceCalled('g'));
    match m.step(Ev::Progress(Progress::Failed(2))) {
        Action::Return(Outcome::Ready(Err(e))) => assert_eq!(e, 2),
        _ => panic!("expected the future's error"),
    }
    assert!(matches!(m, Oneshot::Called { fut: 'g' }));
}

#[test]
fn a_poll_of_a_called_machine_polls_the_future_once() {
    let mut m: Machine = Oneshot::Called { fut: 'f' };
    assert!(matches!(m.step(Ev::Poll), Action::PollFuture));
    assert!(matches!(m.step(Ev::Progress(Progress::Pending)), Action::Return(Outcome::Pending)));
    assert!(matches!(m, Oneshot::Called { fut: 'f' }));
}

#[test]
fn the_service_held_directly_is_copied_once_for_the_request() {
    let service = String::from("router");
    let m: Oneshot<String, u8, ()> = TowerToHyperService::oneshot_for(&service, 3);
    match m {
        Oneshot::NotReady { svc, req } => {
            assert_eq!(svc, "router");
            assert_eq!(req, Some(3));
        }
        _ => panic!("expected a fresh machine"),
    }
}
