use async_rdma::{
    Dispatch, Event, EventListener, Phase, PollOutcome, Step, WorkCompletion, WorkRequestId,
};

#[test]
fn a_completion_reaches_the_one_who_registered() {
    let mut listener = EventListener::new();
    let mut first = listener.register_as(WorkRequestId(5)).unwrap();
    let mut second = listener.register_as(WorkRequestId(6)).unwrap();
    let wc = WorkCompletion::new(WorkRequestId(6), 0, 16);
    assert_eq!(listener.complete(wc), Dispatch::Delivered);
    assert_eq!(second.try_recv().ok(), Some(wc));
    assert!(first.try_recv().is_err());
    let failed = WorkCompletion::new(WorkRequestId(5), 12, 0);
    assert_eq!(listener.complete(failed), Dispatch::Delivered);
    assert_eq!(first.try_recv().ok(), Some(failed));
    assert!(second.try_recv().is_err());
}

#[test]
fn an_identifier_in_flight_is_not_given_twice() {
    let mut listener = EventListener::new();
    let mut first = listener.register_as(WorkRequestId(5)).unwrap();
    assert!(listener.register_as(WorkRequestId(5)).is_none());
    let wc = WorkCompletion::new(WorkRequestId(5), 0, 1);
    assert_eq!(listener.complete(wc), Dispatch::Delivered);
    assert_eq!(first.try_recv().ok(), Some(wc));
    assert!(listener.register_as(WorkRequestId(5)).is_some());
}

#[test]
fn a_completion_is_delivered_once() {
    let mut listener = EventListener::new();
    let mut rx = listener.register_as(WorkRequestId(5)).unwrap();
    let wc = WorkCompletion::new(WorkRequestId(5), 0, 1);
    assert_eq!(listener.complete(wc), Dispatch::Delivered);
    assert_eq!(listener.complete(wc), Dispatch::Unknown);
    assert_eq!(rx.try_recv().ok(), Some(wc));
    assert!(rx.try_recv().is_err());
}

#[test]
fn a_completion_that_nobody_waits_for_is_dropped() {
    let mut listener = EventListener::new();
    let wc = WorkCompletion::new(WorkRequestId(5), 0, 1);
    assert_eq!(listener.complete(wc), Dispatch::Unknown);
    let rx = listener.register_as(WorkRequestId(5)).unwrap();
    drop(rx);
    assert_eq!(listener.complete(wc), Dispatch::Discarded);
    assert_eq!(listener.complete(wc), Dispatch::Unknown);
}

#[test]
fn drawn_identifiers_are_all_different() {
    let mut listener = EventListener::new();
    let mut held = Vec::new();
    for _ in 0..100 {
        held.push(listener.register().unwrap());
    }
    for i in 0..held.len() {
        for j in 0..i {
            assert_ne!(held[i].0, held[j].0);
        }
    }
    for (id, rx) in held.iter_mut() {
        let wc = WorkCompletion::new(*id, 0, 4);
        assert_eq!(listener.complete(wc), Dispatch::Delivered);
        assert_eq!(rx.try_recv().ok(), Some(wc));
    }
}

#[test]
fn take_removes_the_registration() {
    let mut listener = EventListener::new();
    let mut rx = listener.register_as(WorkRequestId(5)).unwrap();
    let waiter = listener.take(WorkRequestId(5)).unwrap();
    assert!(listener.take(WorkRequestId(5)).is_none());
    let wc = WorkCompletion::new(WorkRequestId(5), 0, 1);
    assert_eq!(EventListener::deliver(&waiter, wc), Dispatch::Delivered);
    assert_eq!(rx.try_recv().ok(), Some(wc));
    assert_eq!(EventListener::delivered(true), Dispatch::Delivered);
    assert_eq!(EventListener::delivered(false), Dispatch::Discarded);
}

#[test]
fn the_dispatcher_arms_waits_and_drains() {
    let mut listener = EventListener::new();
    let mut rx = listener.register_as(WorkRequestId(5)).unwrap();
    let wc = WorkCompletion::new(WorkRequestId(5), 0, 16);
    assert_eq!(listener.phase(), Phase::Arm);
    assert_eq!(listener.step(Event::Armed), Step::Advanced);
    assert_eq!(listener.phase(), Phase::Wait);
    assert_eq!(listener.step(Event::Readable), Step::Advanced);
    assert_eq!(listener.phase(), Phase::Drain);
    assert_eq!(
        listener.step(Event::Polled(PollOutcome::Completion(wc))),
        Step::Dispatched(Dispatch::Delivered)
    );
    assert_eq!(rx.try_recv().ok(), Some(wc));
    assert_eq!(listener.phase(), Phase::Drain);
    assert_eq!(
        listener.step(Event::Polled(PollOutcome::Completion(wc))),
        Step::Dispatched(Dispatch::Unknown)
    );
    assert_eq!(
        listener.step(Event::Polled(PollOutcome::Error)),
        Step::PollFailed
    );
    assert_eq!(listener.phase(), Phase::Drain);
    assert_eq!(
        listener.step(Event::Polled(PollOutcome::Empty)),
        Step::Advanced
    );
    assert_eq!(listener.phase(), Phase::Arm);
}

#[test]
fn the_dispatcher_ignores_what_it_does_not_await() {
    let mut listener = EventListener::new();
    let mut rx = listener.register_as(WorkRequestId(5)).unwrap();
    let wc = WorkCompletion::new(WorkRequestId(5), 0, 16);
    for event in [
        Event::Readable,
        Event::Polled(PollOutcome::Empty),
        Event::Polled(PollOutcome::Completion(wc)),
        Event::Polled(PollOutcome::Error),
    ] {
        assert_eq!(listener.step(event), Step::Ignored);
        assert_eq!(listener.phase(), Phase::Arm);
    }
    assert!(rx.try_recv().is_err());
    assert_eq!(listener.step(Event::Armed), Step::Advanced);
    assert_eq!(listener.step(Event::Armed), Step::Ignored);
    assert_eq!(
        listener.step(Event::Polled(PollOutcome::Empty)),
        Step::Ignored
    );
    assert_eq!(listener.phase(), Phase::Wait);
    assert_eq!(listener.complete(wc), Dispatch::Delivered);
}

#[test]
fn a_registration_succeeds_while_nothing_is_in_flight() {
    for _ in 0..50 {
        let mut listener = EventListener::new();
        let (id, mut rx) = listener.register().unwrap();
        let wc = WorkCompletion::new(id, 0, 1);
        assert_eq!(listener.complete(wc), Dispatch::Delivered);
        assert_eq!(rx.try_recv().ok(), Some(wc));
        let (again, _rx) = listener.register().unwrap();
        assert_eq!(
            listener.complete(WorkCompletion::new(again, 0, 1)),
            Dispatch::Delivered
        );
    }
}
