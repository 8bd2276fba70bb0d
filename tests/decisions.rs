use pbreactor::executor::{on_message, LoopAction, LoopState, RuntimeMessage};
use pbreactor::task::{
    arrival, claim, diagnostic, panic_message, panic_report, settle, RaceOutcome, TaskAction,
};

#[test]
fn finished_with_handler_is_delivered() {
    assert!(matches!(
        settle(RaceOutcome::Finished(5u32), false, true),
        TaskAction::Deliver(5)
    ));
}

#[test]
fn finished_after_cancel_is_quiet() {
    assert!(matches!(
        settle(RaceOutcome::Finished(5u32), true, true),
        TaskAction::Quiet
    ));
}

#[test]
fn finished_without_handler_is_quiet() {
    assert!(matches!(
        settle(RaceOutcome::Finished(5u32), false, false),
        TaskAction::Quiet
    ));
}

#[test]
fn panic_is_reported() {
    match settle(RaceOutcome::<u32>::Panicked("boom".to_string()), true, true) {
        TaskAction::ReportPanic(m) => assert_eq!(m, "boom"),
        _ => panic!("expected a panic report"),
    }
}

#[test]
fn cancel_fired_is_quiet() {
    assert!(matches!(
        settle(RaceOutcome::<u32>::CancelFired, false, true),
        TaskAction::Quiet
    ));
}

#[test]
fn claimed_result_is_delivered() {
    assert!(matches!(claim(TaskAction::Deliver(4u8), true), TaskAction::Deliver(4)));
}

#[test]
fn unclaimed_result_is_suppressed() {
    assert!(matches!(claim(TaskAction::Deliver(4u8), false), TaskAction::Quiet));
}

#[test]
fn claim_keeps_other_actions() {
    match claim(TaskAction::<u8>::ReportPanic("p".to_string()), false) {
        TaskAction::ReportPanic(m) => assert_eq!(m, "p"),
        _ => panic!("expected a panic report"),
    }
    assert!(matches!(claim(TaskAction::<u8>::Quiet, true), TaskAction::Quiet));
}

#[test]
fn host_runs_call_only_while_alive() {
    assert_eq!(arrival(true, 7u8), Some(7));
    assert_eq!(arrival(false, 7u8), None);
}

#[test]
fn cancelled_finished_task_is_not_delivered() {
    let mut m = pbreactor::registry::CancelManager::new();
    let (id, _rx) = m.new_cancel_id();
    m.cancel(id);
    let removed = m.remove(id);
    let action = claim(settle(RaceOutcome::Finished(1u8), false, true), removed);
    assert!(matches!(action, TaskAction::Quiet));
}

#[test]
fn panic_message_text_or_unknown() {
    assert_eq!(panic_message(Some("oops".to_string())), "oops");
    assert_eq!(panic_message(None), "unknown");
}

#[test]
fn diagnostic_layout() {
    assert_eq!(diagnostic("oops", "T"), "oops\r\nbacktrace:\r\nT");
    assert_eq!(diagnostic("", ""), "\r\nbacktrace:\r\n");
}

#[test]
fn panic_report_starts_with_message() {
    let r = panic_report("bad thing");
    assert!(r.starts_with("bad thing\r\nbacktrace:\r\n"));
}

#[test]
fn executor_schedules_while_running() {
    let (s, a) = on_message(LoopState::Running, RuntimeMessage::Task(1u8));
    assert_eq!(s, LoopState::Running);
    assert!(matches!(a, LoopAction::Schedule(1)));
}

#[test]
fn executor_stops_on_stop() {
    let (s, a) = on_message(LoopState::Running, RuntimeMessage::<u8>::Stop);
    assert_eq!(s, LoopState::Stopped);
    assert!(matches!(a, LoopAction::Exit));
}

#[test]
fn executor_refuses_after_stop() {
    let (s, a) = on_message(LoopState::Running, RuntimeMessage::<u8>::Stop);
    let (s, a2) = on_message(s, RuntimeMessage::Task(9u8));
    assert!(matches!(a, LoopAction::Exit));
    assert_eq!(s, LoopState::Stopped);
    assert!(matches!(a2, LoopAction::Refuse(9)));
}

#[test]
fn task_after_panic_still_scheduled() {
    let r = settle(RaceOutcome::<u8>::Panicked("p".to_string()), false, true);
    assert!(matches!(r, TaskAction::ReportPanic(_)));
    let (s, a) = on_message(LoopState::Running, RuntimeMessage::Task(2u8));
    assert_eq!(s, LoopState::Running);
    assert!(matches!(a, LoopAction::Schedule(2)));
}
