//! The two-stage shutdown signal: the first interrupt asks the accept loop to
//! stop admitting connections, the second ends the process at once.

use vstd::prelude::*;

verus! {

/// How far shutdown has come.
#[derive(Debug, Clone, Copy, PartialEq, Eq, Structural)]
pub enum Stage {
    /// No interrupt yet.
    Running,
    /// One interrupt: admit nothing new, finish what was dispatched.
    Draining,
    /// A second interrupt: end the process.
    Terminating,
}

/// What the thread that observes the signal does after an interrupt.
#[derive(Debug, Clone, Copy, PartialEq, Eq, Structural)]
pub enum SignalAction {
    /// Go on observing; the accept loop will stop on its next iteration.
    StopAccepting,
    /// End the process without waiting for work in flight.
    ExitNow,
}

/// The count of interrupts that the signal observer writes and the accept
/// loop reads.
#[derive(Debug, Clone, Copy, PartialEq, Eq, Structural)]
pub struct ShutdownState {
    pub count: usize,
}

/// The number of the interrupt signal.
pub open spec fn interrupt_signal() -> i32 {
    2
}

/// The stage that a count of interrupts stands for.
pub open spec fn stage_of(count: usize) -> Stage {
    if count == 0 {
        Stage::Running
    } else if count == 1 {
        Stage::Draining
    } else {
        Stage::Terminating
    }
}

/// The count after one more interrupt: it goes from 0 to 1 and from 1 to 2,
/// where it stays.
pub open spec fn count_after_interrupt(count: usize) -> usize {
    if count == 0 {
        1
    } else {
        2
    }
}

/// What follows an interrupt that arrives at a count.
pub open spec fn action_after_interrupt(count: usize) -> SignalAction {
    if count == 0 {
        SignalAction::StopAccepting
    } else {
        SignalAction::ExitNow
    }
}

/// Hands out `signal_hook::consts::SIGINT`, the number of the interrupt
/// signal, which is 2.
#[verifier::external_body]
fn sigint() -> (signal: i32)
    ensures
        signal == interrupt_signal(),
{
    signal_hook::consts::SIGINT
}

impl ShutdownState {
    /// The state before any interrupt.
    pub fn new() -> (state: ShutdownState)
        ensures
            state.count == 0,
    {
        ShutdownState { count: 0 }
    }

    /// The stage that the accept loop reads.
    pub fn stage(&self) -> (stage: Stage)
        ensures
            stage == stage_of(self.count),
    {
        if self.count == 0 {
            Stage::Running
        } else if self.count == 1 {
            Stage::Draining
        } else {
            Stage::Terminating
        }
    }

    /// Takes note of an interrupt.
    pub fn interrupt(&mut self) -> (action: SignalAction)
        ensures
            final(self).count == count_after_interrupt(old(self).count),
            action == action_after_interrupt(old(self).count),
    {
        if self.count == 0 {
            self.count = 1;
            SignalAction::StopAccepting
        } else {
            self.count = 2;
            SignalAction::ExitNow
        }
    }

    /// Takes note of a signal that was observed: an interrupt counts, any
    /// other signal changes nothing and asks for nothing.
    pub fn on_signal(&mut self, signal: i32) -> (action: Option<SignalAction>)
        ensures
            signal == interrupt_signal() ==> final(self).count == count_after_interrupt(
                old(self).count,
            ) && action == Some(action_after_interrupt(old(self).count)),
            signal != interrupt_signal() ==> *final(self) == *old(self) && action is None,
    {
        if signal == sigint() {
            Some(self.interrupt())
        } else {
            None
        }
    }
}

/// The signals to observe: the interrupt alone.
pub fn observed_signals() -> (signals: Vec<i32>)
    ensures
        signals@ == seq![interrupt_signal()],
{
    let mut signals: Vec<i32> = Vec::new();
    signals.push(sigint());
    signals
}

/// The count of interrupts only grows, and stays at 2 once it is there.
pub proof fn interrupts_only_advance(count: usize)
    ensures
        count_after_interrupt(count) >= 1,
        count <= 2 ==> count <= count_after_interrupt(count) <= 2,
        stage_of(count_after_interrupt(count)) != Stage::Running,
{
}

/// The first interrupt asks the accept loop to stop and leaves the process
/// running; the second, and every later one, ends the process.
pub proof fn two_stage_shutdown()
    ensures
        stage_of(0) == Stage::Running,
        action_after_interrupt(0) == SignalAction::StopAccepting,
        stage_of(count_after_interrupt(0)) == Stage::Draining,
        forall|count: usize| count != 0 ==> action_after_interrupt(count) == SignalAction::ExitNow,
        stage_of(count_after_interrupt(count_after_interrupt(0))) == Stage::Terminating,
{
}

} // verus!
