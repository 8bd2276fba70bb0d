//! What happens to a spawned task once it has run: the decision taken on the
//! executor side after the race against cancellation, and the one taken on
//! the host thread when a result arrives.

use vstd::prelude::*;
use vstd::string::StringExecFns;

verus! {

/// How the race between a task and its cancellation signal ended.
pub enum RaceOutcome<T> {
    /// The task returned a value.
    Finished(T),
    /// The task panicked; the panic's message.
    Panicked(String),
    /// The cancellation signal fired (or its sender went away) first.
    CancelFired,
}

/// What the executor side does with a task that has ended.
pub enum TaskAction<T> {
    /// Hand the value to the host thread for the result handler.
    Deliver(T),
    /// Hand a diagnostic to the host thread's panic sink.
    ReportPanic(String),
    /// Dispatch nothing.
    Quiet,
}

/// The action for a race outcome. `cancel_seen` is whether the cancellation
/// signal was found set right after the task finished; `wants_result` is
/// whether a result handler was given.
pub open spec fn settled<T>(race: RaceOutcome<T>, cancel_seen: bool, wants_result: bool) -> TaskAction<T> {
    match race {
        RaceOutcome::Finished(v) => if wants_result && !cancel_seen {
            TaskAction::Deliver(v)
        } else {
            TaskAction::Quiet
        },
        RaceOutcome::Panicked(m) => TaskAction::ReportPanic(m),
        RaceOutcome::CancelFired => TaskAction::Quiet,
    }
}

/// Decides what to dispatch for a task that has ended.
pub fn settle<T>(race: RaceOutcome<T>, cancel_seen: bool, wants_result: bool) -> (r: TaskAction<T>)
    ensures
        r == settled(race, cancel_seen, wants_result),
{
    match race {
        RaceOutcome::Finished(v) => {
            if wants_result && !cancel_seen {
                TaskAction::Deliver(v)
            } else {
                TaskAction::Quiet
            }
        },
        RaceOutcome::Panicked(m) => TaskAction::ReportPanic(m),
        RaceOutcome::CancelFired => TaskAction::Quiet,
    }
}

/// The action once the task's slot was taken out of the registry, before
/// anything is handed to the host: `removed` tells whether the slot was
/// still there (the task was not cancelled). A result whose slot is gone is
/// not delivered.
pub open spec fn claimed<T>(action: TaskAction<T>, removed: bool) -> TaskAction<T> {
    match action {
        TaskAction::Deliver(v) => if removed {
            TaskAction::Deliver(v)
        } else {
            TaskAction::Quiet
        },
        _ => action,
    }
}

/// Decides, on the executor side, whether a result is still delivered
/// after the attempt to take the task's slot out of the registry.
pub fn claim<T>(action: TaskAction<T>, removed: bool) -> (r: TaskAction<T>)
    ensures
        r == claimed(action, removed),
{
    match action {
        TaskAction::Deliver(v) => {
            if removed {
                TaskAction::Deliver(v)
            } else {
                TaskAction::Quiet
            }
        },
        other => other,
    }
}

/// What the host thread hands to the result handler when a call arrives:
/// the payload while the object is alive, nothing once it is dead.
pub open spec fn arrived<P>(alive: bool, payload: P) -> Option<P> {
    if alive {
        Some(payload)
    } else {
        None
    }
}

/// Decides on the host thread, with the object's liveness read at arrival,
/// whether the queued call runs.
pub fn arrival<P>(alive: bool, payload: P) -> (r: Option<P>)
    ensures
        r == arrived(alive, payload),
{
    if alive {
        Some(payload)
    } else {
        None
    }
}

/// The text that stands between a panic's message and its stack trace.
pub open spec fn trace_separator() -> Seq<char> {
    seq!['\r', '\n', 'b', 'a', 'c', 'k', 't', 'r', 'a', 'c', 'e', ':', '\r', '\n']
}

/// The message given for a panic whose payload is not text.
pub open spec fn unknown_panic() -> Seq<char> {
    seq!['u', 'n', 'k', 'n', 'o', 'w', 'n']
}

/// The panic message of a payload: its text when it has one, else "unknown".
pub fn panic_message(payload: Option<String>) -> (r: String)
    ensures
        r@ == match payload {
            Some(s) => s@,
            None => unknown_panic(),
        },
{
    match payload {
        Some(s) => s,
        None => {
            let r = String::from_str("unknown");
            proof {
                reveal_strlit("unknown");
            }
            r
        },
    }
}

/// Joins a panic message and a stack trace into the diagnostic text.
pub fn diagnostic(message: &str, trace: &str) -> (r: String)
    ensures
        r@ == message@ + trace_separator() + trace@,
{
    let r = String::from_str(message);
    let r = r.concat("\r\nbacktrace:\r\n");
    proof {
        reveal_strlit("\r\nbacktrace:\r\n");
        assert("\r\nbacktrace:\r\n"@ =~= trace_separator());
    }
    r.concat(trace)
}

/// Relies on `backtrace::Backtrace::new` and its `Debug` form: the stack of
/// the calling thread as text. It depends on the machine, so nothing is
/// promised of the text.
#[verifier::external_body]
fn capture_trace() -> (r: String) {
    format!("{:?}", backtrace::Backtrace::new())
}

/// The diagnostic for a panic with this message: the message, the
/// separator, then the stack trace captured here.
pub fn panic_report(message: &str) -> (r: String)
    ensures
        exists|trace: Seq<char>| r@ == message@ + trace_separator() + trace,
{
    let trace = capture_trace();
    diagnostic(message, trace.as_str())
}

} // verus!
