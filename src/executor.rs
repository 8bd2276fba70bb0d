//! The message loop of the background executor: it schedules tasks until it
//! is told to stop, and accepts none after that.

use vstd::prelude::*;

verus! {

/// A message on the executor's submission queue.
pub enum RuntimeMessage<T> {
    /// A task to schedule.
    Task(T),
    /// Stop: finish the scheduled work and exit.
    Stop,
}

/// Whether the executor's loop still takes tasks.
#[derive(PartialEq, Eq, Structural, Clone, Copy, Debug)]
pub enum LoopState {
    Running,
    Stopped,
}

/// What the loop does with one message.
pub enum LoopAction<T> {
    /// Schedule the task on the executor thread.
    Schedule(T),
    /// Refuse the task: the loop has stopped.
    Refuse(T),
    /// Leave the loop, then wait for the scheduled work and exit.
    Exit,
}

/// The state after a message; `is_stop` tells a stop from a task.
pub open spec fn next_state(state: LoopState, is_stop: bool) -> LoopState {
    if is_stop {
        LoopState::Stopped
    } else {
        state
    }
}

/// Whether a task that arrives in this state is scheduled.
pub open spec fn schedules(state: LoopState) -> bool {
    state == LoopState::Running
}

/// Whether a message is the stop signal.
pub open spec fn is_stop<T>(msg: RuntimeMessage<T>) -> bool {
    msg is Stop
}

/// Takes one message: a task is scheduled while running and refused once
/// stopped; the stop signal stops the loop.
pub fn on_message<T>(state: LoopState, msg: RuntimeMessage<T>) -> (r: (LoopState, LoopAction<T>))
    ensures
        r.0 == next_state(state, is_stop(msg)),
        match msg {
            RuntimeMessage::Task(t) => if schedules(state) {
                r.1 == LoopAction::Schedule(t)
            } else {
                r.1 == LoopAction::Refuse(t)
            },
            RuntimeMessage::Stop => r.1 is Exit,
        },
{
    match msg {
        RuntimeMessage::Task(t) => match state {
            LoopState::Running => (LoopState::Running, LoopAction::Schedule(t)),
            LoopState::Stopped => (LoopState::Stopped, LoopAction::Refuse(t)),
        },
        RuntimeMessage::Stop => (LoopState::Stopped, LoopAction::Exit),
    }
}

} // verus!
