//! The accept loop as a state machine. The caller does the work outside
//! (the non-blocking accept, the readiness wait, the teardown of the pool)
//! and hands back what came of it; the loop says what to do next.

use vstd::prelude::*;
use crate::readiness::{listener_registration, ControlOp, Registration, LISTENER_INTEREST};
use crate::shutdown::{action_after_interrupt, count_after_interrupt, stage_of, SignalAction, Stage};

verus! {

/// Where the loop stands.
#[derive(Debug, Clone, Copy, PartialEq, Eq, Structural)]
pub enum LoopState {
    /// Accepting connections for as long as some are pending.
    Listening,
    /// Armed, and blocked until the listening socket is ready.
    AwaitingReadiness,
    /// Admitting nothing new while the pool finishes its work.
    Draining,
    /// Done.
    Stopped,
}

/// What the caller hands back.
#[derive(Debug, Clone, Copy, PartialEq, Eq, Structural)]
pub enum LoopEvent {
    /// An iteration begins, and this stage of shutdown was read.
    Iteration(Stage),
    /// The accept gave a connection.
    Accepted,
    /// The accept would block: no connection is pending.
    WouldBlock,
    /// The accept failed in any other way.
    AcceptFailed,
    /// The readiness wait returned with an event.
    Ready,
    /// The teardown of the pool returned.
    Drained,
}

/// What the caller is to do next.
#[derive(Debug, Clone, Copy, PartialEq, Eq, Structural)]
pub enum LoopAction {
    /// Try a non-blocking accept and hand back what it gave.
    Accept,
    /// Submit the accepted connection to the pool as one job, then begin the
    /// next iteration.
    Dispatch,
    /// Hand the registration to the multiplexer, then wait for readiness
    /// without a timeout.
    RearmAndWait(Registration),
    /// Begin the next iteration.
    Resume,
    /// Tear the pool down, which blocks until the dispatched jobs are done.
    Teardown,
    /// Leave the loop: it has stopped in good order.
    Finish,
    /// End the process at once.
    Exit,
    /// Give up with the accept's error.
    Fail,
    /// The event does not belong here; nothing changes.
    Ignore,
}

/// The accept loop with the registration of its listening socket.
#[derive(Debug, Clone, Copy, PartialEq, Eq, Structural)]
pub struct AcceptLoop {
    pub state: LoopState,
    /// The listening socket.
    pub descriptor: i32,
    /// What comes back with each readiness event.
    pub token: u64,
    /// Whether the socket has been added to the multiplexer.
    pub registered: bool,
    /// Whether the one-shot registration can still deliver an event.
    pub armed: bool,
}

/// The registration that arms the listening socket of a loop: the first one
/// adds the socket, every later one modifies what is there.
pub open spec fn arming(l: AcceptLoop) -> Registration {
    Registration {
        op: if l.registered {
            ControlOp::Modify
        } else {
            ControlOp::Add
        },
        descriptor: l.descriptor,
        events: LISTENER_INTEREST,
        data: l.token,
    }
}

/// The loop after an event.
pub open spec fn state_after(l: AcceptLoop, event: LoopEvent) -> AcceptLoop {
    match (l.state, event) {
        (LoopState::Listening, LoopEvent::Iteration(Stage::Draining)) => AcceptLoop {
            state: LoopState::Draining,
            ..l
        },
        (LoopState::Listening, LoopEvent::Iteration(Stage::Terminating)) => AcceptLoop {
            state: LoopState::Stopped,
            ..l
        },
        (LoopState::Listening, LoopEvent::WouldBlock) => AcceptLoop {
            state: LoopState::AwaitingReadiness,
            registered: true,
            armed: true,
            ..l
        },
        (LoopState::Listening, LoopEvent::AcceptFailed) => AcceptLoop {
            state: LoopState::Stopped,
            ..l
        },
        (LoopState::AwaitingReadiness, LoopEvent::Ready) => AcceptLoop {
            state: LoopState::Listening,
            armed: false,
            ..l
        },
        (LoopState::Draining, LoopEvent::Iteration(Stage::Terminating)) => AcceptLoop {
            state: LoopState::Stopped,
            ..l
        },
        (LoopState::Draining, LoopEvent::Drained) => AcceptLoop { state: LoopState::Stopped, ..l },
        _ => l,
    }
}

/// What the caller is to do after an event.
pub open spec fn action_after(l: AcceptLoop, event: LoopEvent) -> LoopAction {
    match (l.state, event) {
        (LoopState::Listening, LoopEvent::Iteration(Stage::Running)) => LoopAction::Accept,
        (LoopState::Listening, LoopEvent::Iteration(Stage::Draining)) => LoopAction::Teardown,
        (LoopState::Listening, LoopEvent::Iteration(Stage::Terminating)) => LoopAction::Exit,
        (LoopState::Listening, LoopEvent::Accepted) => LoopAction::Dispatch,
        (LoopState::Listening, LoopEvent::WouldBlock) => LoopAction::RearmAndWait(arming(l)),
        (LoopState::Listening, LoopEvent::AcceptFailed) => LoopAction::Fail,
        (LoopState::AwaitingReadiness, LoopEvent::Ready) => LoopAction::Resume,
        (LoopState::Draining, LoopEvent::Iteration(Stage::Terminating)) => LoopAction::Exit,
        (LoopState::Draining, LoopEvent::Drained) => LoopAction::Finish,
        _ => LoopAction::Ignore,
    }
}

impl AcceptLoop {
    /// The invariant: the loop waits for readiness only while its
    /// registration is armed, and what is armed has been registered.
    pub open spec fn wf(&self) -> bool {
        &&& self.state == LoopState::AwaitingReadiness ==> self.armed
        &&& self.armed ==> self.registered
    }

    /// A loop that listens on `descriptor`, which is not registered yet.
    pub fn new(descriptor: i32, token: u64) -> (l: AcceptLoop)
        ensures
            l == (AcceptLoop {
                state: LoopState::Listening,
                descriptor,
                token,
                registered: false,
                armed: false,
            }),
            l.wf(),
    {
        AcceptLoop {
            state: LoopState::Listening,
            descriptor,
            token,
            registered: false,
            armed: false,
        }
    }

    /// Registers the listening socket before the first iteration: hands out
    /// the registration to give to the multiplexer, after which the socket
    /// is registered and armed.
    pub fn register(&mut self) -> (r: Registration)
        requires
            old(self).wf(),
        ensures
            r == arming(*old(self)),
            *final(self) == (AcceptLoop { registered: true, armed: true, ..*old(self) }),
            final(self).wf(),
    {
        let op = if self.registered {
            ControlOp::Modify
        } else {
            ControlOp::Add
        };
        self.registered = true;
        self.armed = true;
        listener_registration(op, self.descriptor, self.token)
    }

    /// Takes an event and says what to do next.
    pub fn step(&mut self, event: LoopEvent) -> (action: LoopAction)
        requires
            old(self).wf(),
        ensures
            *final(self) == state_after(*old(self), event),
            action == action_after(*old(self), event),
            final(self).wf(),
    {
        match (self.state, event) {
            (LoopState::Listening, LoopEvent::Iteration(Stage::Running)) => LoopAction::Accept,
            (LoopState::Listening, LoopEvent::Iteration(Stage::Draining)) => {
                self.state = LoopState::Draining;
                LoopAction::Teardown
            },
            (LoopState::Listening, LoopEvent::Iteration(Stage::Terminating)) => {
                self.state = LoopState::Stopped;
                LoopAction::Exit
            },
            (LoopState::Listening, LoopEvent::Accepted) => LoopAction::Dispatch,
            (LoopState::Listening, LoopEvent::WouldBlock) => {
                let registration = self.register();
                self.state = LoopState::AwaitingReadiness;
                LoopAction::RearmAndWait(registration)
            },
            (LoopState::Listening, LoopEvent::AcceptFailed) => {
                self.state = LoopState::Stopped;
                LoopAction::Fail
            },
            (LoopState::AwaitingReadiness, LoopEvent::Ready) => {
                self.state = LoopState::Listening;
                self.armed = false;
                LoopAction::Resume
            },
            (LoopState::Draining, LoopEvent::Iteration(Stage::Terminating)) => {
                self.state = LoopState::Stopped;
                LoopAction::Exit
            },
            (LoopState::Draining, LoopEvent::Drained) => {
                self.state = LoopState::Stopped;
                LoopAction::Finish
            },
            _ => LoopAction::Ignore,
        }
    }
}

/// The loop never blocks without arming first: the one step into the wait is
/// the accept that would block, it hands out the registration to arm with,
/// and it leaves the registration armed. The socket is added once, when it is
/// not registered yet, and modified ever after.
pub proof fn rearm_before_wait(l: AcceptLoop, event: LoopEvent)
    requires
        l.wf(),
    ensures
        action_after(l, event) is RearmAndWait <==> l.state == LoopState::Listening && event
            == LoopEvent::WouldBlock,
        state_after(l, event).state == LoopState::AwaitingReadiness && l.state
            != LoopState::AwaitingReadiness ==> action_after(l, event) == LoopAction::RearmAndWait(
            arming(l),
        ) && state_after(l, event).armed,
        arming(l).op == ControlOp::Add <==> !l.registered,
        state_after(l, event).registered || !l.registered,
        state_after(l, event).wf(),
{
}

/// One wake per arming: a readiness event is taken only by a loop that waits
/// with an armed registration, taking it disarms the registration, and a
/// second event without another arming in between is ignored.
pub proof fn one_wake_per_arm(l: AcceptLoop)
    requires
        l.wf(),
    ensures
        action_after(l, LoopEvent::Ready) == LoopAction::Resume ==> l.armed,
        action_after(l, LoopEvent::Ready) == LoopAction::Resume ==> !state_after(
            l,
            LoopEvent::Ready,
        ).armed,
        action_after(l, LoopEvent::Ready) != LoopAction::Resume ==> action_after(
            l,
            LoopEvent::Ready,
        ) == LoopAction::Ignore && state_after(l, LoopEvent::Ready) == l,
        action_after(state_after(l, LoopEvent::Ready), LoopEvent::Ready) == LoopAction::Ignore,
        state_after(state_after(l, LoopEvent::Ready), LoopEvent::Ready) == state_after(
            l,
            LoopEvent::Ready,
        ),
{
}

/// Once the loop has read that shutdown is under way, it admits nothing
/// more: a listening loop that reads the draining stage asks for the pool's
/// teardown instead of an accept, and from then on no event makes it accept
/// or dispatch again. Reading the terminating stage ends the process, from
/// listening as from draining.
pub proof fn no_admission_after_drain(l: AcceptLoop, event: LoopEvent)
    requires
        l.wf(),
    ensures
        l.state == LoopState::Listening ==> action_after(l, LoopEvent::Iteration(Stage::Draining))
            == LoopAction::Teardown && state_after(l, LoopEvent::Iteration(Stage::Draining)).state
            == LoopState::Draining,
        l.state == LoopState::Listening || l.state == LoopState::Draining ==> action_after(
            l,
            LoopEvent::Iteration(Stage::Terminating),
        ) == LoopAction::Exit,
        l.state == LoopState::Draining || l.state == LoopState::Stopped ==> {
            &&& action_after(l, event) != LoopAction::Accept
            &&& action_after(l, event) != LoopAction::Dispatch
            &&& !(action_after(l, event) is RearmAndWait)
            &&& (state_after(l, event).state == LoopState::Draining || state_after(l, event).state
                == LoopState::Stopped)
        },
{
}

/// The two stages of shutdown, end to end. Before any interrupt a listening
/// loop accepts. The first interrupt leaves the process running, and the
/// loop, reading the count on its next iteration, asks for the pool's
/// teardown instead of an accept. The second interrupt ends the process, and
/// so does the loop if it comes to read the count after it.
pub proof fn two_stage_shutdown_stops_the_loop(l: AcceptLoop)
    requires
        l.wf(),
        l.state == LoopState::Listening,
    ensures
        action_after(l, LoopEvent::Iteration(stage_of(0))) == LoopAction::Accept,
        action_after_interrupt(0) == SignalAction::StopAccepting,
        action_after(l, LoopEvent::Iteration(stage_of(count_after_interrupt(0))))
            == LoopAction::Teardown,
        state_after(l, LoopEvent::Iteration(stage_of(count_after_interrupt(0)))).state
            == LoopState::Draining,
        action_after_interrupt(count_after_interrupt(0)) == SignalAction::ExitNow,
        action_after(
            state_after(l, LoopEvent::Iteration(stage_of(count_after_interrupt(0)))),
            LoopEvent::Iteration(stage_of(count_after_interrupt(count_after_interrupt(0)))),
        ) == LoopAction::Exit,
{
}

} // verus!
