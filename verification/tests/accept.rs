use server::accept::{AcceptLoop, LoopAction, LoopEvent, LoopState};
use server::readiness::{
    listener_registration, ControlOp, Registration, EDGE_TRIGGERED, LISTENER_INTEREST, ONE_SHOT,
    READ_READY,
};
use server::shutdown::Stage;

#[test]
fn interest_is_read_ready_edge_triggered_one_shot() {
    let expected =
        (epoll::Events::EPOLLET | epoll::Events::EPOLLIN | epoll::Events::EPOLLONESHOT).bits();
    let r = listener_registration(ControlOp::Add, 5, 1);
    assert_eq!(r, Registration { op: ControlOp::Add, descriptor: 5, events: 0xC000_0001, data: 1 });
    assert_eq!(r.events, expected);
    assert_eq!(LISTENER_INTEREST, expected);
    assert_eq!(READ_READY, epoll::Events::EPOLLIN.bits());
    assert_eq!(ONE_SHOT, epoll::Events::EPOLLONESHOT.bits());
    assert_eq!(EDGE_TRIGGERED, epoll::Events::EPOLLET.bits());
}

#[test]
fn registration_matches_the_event_epoll_builds() {
    let mut events = epoll::Events::empty();
    events.insert(epoll::Events::EPOLLET);
    events.insert(epoll::Events::EPOLLIN);
    events.insert(epoll::Events::EPOLLONESHOT);
    let event = epoll::Event::new(events, 77);
    let r = listener_registration(ControlOp::Modify, 3, 77);
    let (bits, data) = (event.events, event.data);
    assert_eq!((r.events, r.data), (bits, data));
    assert_eq!(r.op, ControlOp::Modify);
    assert_eq!(r.descriptor, 3);
}

#[test]
fn first_registration_adds_and_later_ones_modify() {
    let mut l = AcceptLoop::new(9, 1);
    assert_eq!(l.state, LoopState::Listening);
    assert!(!l.registered && !l.armed);
    let first = l.register();
    assert_eq!(first.op, ControlOp::Add);
    assert_eq!(first.descriptor, 9);
    assert_eq!(first.data, 1);
    assert!(l.registered && l.armed);
    match l.step(LoopEvent::WouldBlock) {
        LoopAction::RearmAndWait(r) => {
            assert_eq!(r.op, ControlOp::Modify);
            assert_eq!(r.events, LISTENER_INTEREST);
            assert_eq!(r.descriptor, 9);
        }
        other => panic!("unexpected action {:?}", other),
    }
}

#[test]
fn would_block_without_registration_adds() {
    let mut l = AcceptLoop::new(4, 2);
    let action = l.step(LoopEvent::WouldBlock);
    assert_eq!(
        action,
        LoopAction::RearmAndWait(Registration {
            op: ControlOp::Add,
            descriptor: 4,
            events: LISTENER_INTEREST,
            data: 2
        })
    );
    assert_eq!(l.state, LoopState::AwaitingReadiness);
    assert!(l.registered && l.armed);
}

#[test]
fn accepts_until_it_would_block_then_waits() {
    let mut l = AcceptLoop::new(3, 1);
    l.register();
    assert_eq!(l.step(LoopEvent::Iteration(Stage::Running)), LoopAction::Accept);
    assert_eq!(l.step(LoopEvent::Accepted), LoopAction::Dispatch);
    assert_eq!(l.state, LoopState::Listening);
    assert_eq!(l.step(LoopEvent::Iteration(Stage::Running)), LoopAction::Accept);
    assert_eq!(l.step(LoopEvent::Accepted), LoopAction::Dispatch);
    assert_eq!(l.step(LoopEvent::Iteration(Stage::Running)), LoopAction::Accept);
    assert!(matches!(l.step(LoopEvent::WouldBlock), LoopAction::RearmAndWait(_)));
    assert_eq!(l.state, LoopState::AwaitingReadiness);
    assert!(l.armed);
    assert_eq!(l.step(LoopEvent::Ready), LoopAction::Resume);
    assert_eq!(l.state, LoopState::Listening);
    assert!(!l.armed);
}

#[test]
fn readiness_wakes_once_per_arming() {
    let mut l = AcceptLoop::new(3, 1);
    l.register();
    assert!(matches!(l.step(LoopEvent::WouldBlock), LoopAction::RearmAndWait(_)));
    assert_eq!(l.step(LoopEvent::Ready), LoopAction::Resume);
    let after_wake = l;
    assert_eq!(l.step(LoopEvent::Ready), LoopAction::Ignore);
    assert_eq!(l, after_wake);
    assert!(matches!(l.step(LoopEvent::WouldBlock), LoopAction::RearmAndWait(_)));
    assert!(l.armed);
    assert_eq!(l.step(LoopEvent::Ready), LoopAction::Resume);
}

#[test]
fn waiting_loop_ignores_everything_but_readiness() {
    let mut l = AcceptLoop::new(3, 1);
    l.step(LoopEvent::WouldBlock);
    let waiting = l;
    for event in [
        LoopEvent::Iteration(Stage::Running),
        LoopEvent::Iteration(Stage::Draining),
        LoopEvent::Iteration(Stage::Terminating),
        LoopEvent::Accepted,
        LoopEvent::WouldBlock,
        LoopEvent::AcceptFailed,
        LoopEvent::Drained,
    ] {
        assert_eq!(l.step(event), LoopAction::Ignore);
        assert_eq!(l, waiting);
    }
}

#[test]
fn hard_accept_error_stops_the_loop() {
    let mut l = AcceptLoop::new(3, 1);
    assert_eq!(l.step(LoopEvent::Iteration(Stage::Running)), LoopAction::Accept);
    assert_eq!(l.step(LoopEvent::AcceptFailed), LoopAction::Fail);
    assert_eq!(l.state, LoopState::Stopped);
    assert_eq!(l.step(LoopEvent::Iteration(Stage::Running)), LoopAction::Ignore);
}

#[test]
fn draining_stage_stops_admission_and_tears_down() {
    let mut l = AcceptLoop::new(3, 1);
    assert_eq!(l.step(LoopEvent::Iteration(Stage::Draining)), LoopAction::Teardown);
    assert_eq!(l.state, LoopState::Draining);
    assert_eq!(l.step(LoopEvent::Accepted), LoopAction::Ignore);
    assert_eq!(l.step(LoopEvent::Iteration(Stage::Running)), LoopAction::Ignore);
    assert_eq!(l.step(LoopEvent::Drained), LoopAction::Finish);
    assert_eq!(l.state, LoopState::Stopped);
    assert_eq!(l.step(LoopEvent::Drained), LoopAction::Ignore);
}

#[test]
fn second_interrupt_while_draining_exits() {
    let mut l = AcceptLoop::new(3, 1);
    assert_eq!(l.step(LoopEvent::Iteration(Stage::Draining)), LoopAction::Teardown);
    assert_eq!(l.step(LoopEvent::Iteration(Stage::Terminating)), LoopAction::Exit);
    assert_eq!(l.state, LoopState::Stopped);
}

#[test]
fn terminating_stage_exits_from_listening() {
    let mut l = AcceptLoop::new(3, 1);
    assert_eq!(l.step(LoopEvent::Iteration(Stage::Terminating)), LoopAction::Exit);
    assert_eq!(l.state, LoopState::Stopped);
}
