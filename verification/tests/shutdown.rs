use server::accept::{AcceptLoop, LoopAction, LoopEvent};
use server::shutdown::{observed_signals, ShutdownState, SignalAction, Stage};

#[test]
fn first_interrupt_drains_and_second_exits() {
    let mut state = ShutdownState::new();
    assert_eq!(state.count, 0);
    assert_eq!(state.stage(), Stage::Running);
    assert_eq!(state.interrupt(), SignalAction::StopAccepting);
    assert_eq!(state.count, 1);
    assert_eq!(state.stage(), Stage::Draining);
    assert_eq!(state.interrupt(), SignalAction::ExitNow);
    assert_eq!(state.count, 2);
    assert_eq!(state.stage(), Stage::Terminating);
    assert_eq!(state.interrupt(), SignalAction::ExitNow);
    assert_eq!(state.count, 2);
}

#[test]
fn only_the_interrupt_signal_is_observed() {
    assert_eq!(observed_signals(), vec![signal_hook::consts::SIGINT]);
    assert_eq!(observed_signals(), vec![2]);
}

#[test]
fn interrupt_signal_counts_and_others_do_not() {
    let mut state = ShutdownState::new();
    assert_eq!(state.on_signal(signal_hook::consts::SIGTERM), None);
    assert_eq!(state, ShutdownState { count: 0 });
    assert_eq!(state.on_signal(signal_hook::consts::SIGINT), Some(SignalAction::StopAccepting));
    assert_eq!(state, ShutdownState { count: 1 });
    assert_eq!(state.on_signal(0), None);
    assert_eq!(state, ShutdownState { count: 1 });
    assert_eq!(state.on_signal(2), Some(SignalAction::ExitNow));
}

#[test]
fn large_counts_stand_for_terminating() {
    let mut state = ShutdownState { count: usize::MAX };
    assert_eq!(state.stage(), Stage::Terminating);
    assert_eq!(state.interrupt(), SignalAction::ExitNow);
    assert_eq!(state.count, 2);
}

#[test]
fn loop_stops_admitting_on_the_iteration_after_the_first_interrupt() {
    let mut state = ShutdownState::new();
    let mut l = AcceptLoop::new(3, 1);
    assert_eq!(l.step(LoopEvent::Iteration(state.stage())), LoopAction::Accept);
    assert_eq!(l.step(LoopEvent::Accepted), LoopAction::Dispatch);
    state.interrupt();
    assert_eq!(l.step(LoopEvent::Iteration(state.stage())), LoopAction::Teardown);
    state.interrupt();
    assert_eq!(l.step(LoopEvent::Iteration(state.stage())), LoopAction::Exit);
}
