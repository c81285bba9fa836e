use coerce_rt::lifecycle::{ActorStatus, LoopAction, LoopEvent, LoopState};

fn drive(s: &mut LoopState, evs: &[LoopEvent]) -> Vec<LoopAction> {
    evs.iter()
        .map(|e| {
            assert!(s.accepts(*e));
            s.handle(*e)
        })
        .collect()
}

#[test]
fn new_loop_is_starting() {
    let s = LoopState::new(true);
    assert_eq!(s.status(), ActorStatus::Starting);
    assert!(s.start_pending);
    assert!(!s.in_flight);
    assert!(!LoopState::new(false).start_pending);
}

#[test]
fn start_signal_fires_before_first_dispatch() {
    let mut s = LoopState::new(true);
    let acts = drive(&mut s, &[LoopEvent::Started, LoopEvent::Envelope]);
    assert_eq!(acts, vec![LoopAction::SignalStarted, LoopAction::Dispatch]);
    assert_eq!(s.status(), ActorStatus::Running);
    assert!(s.in_flight);
}

#[test]
fn no_signal_without_start_channel() {
    let mut s = LoopState::new(false);
    assert_eq!(s.handle(LoopEvent::Started), LoopAction::Continue);
    assert_eq!(s.handle(LoopEvent::Envelope), LoopAction::Dispatch);
}

#[test]
fn no_envelope_is_taken_before_startup() {
    let mut s = LoopState::new(true);
    assert!(!s.accepts(LoopEvent::Envelope));
    assert!(s.accepts(LoopEvent::Stop));
    assert_eq!(s.handle(LoopEvent::Started), LoopAction::SignalStarted);
    assert!(s.accepts(LoopEvent::Envelope));
}

#[test]
fn handlers_run_one_at_a_time() {
    let mut s = LoopState::new(false);
    let acts = drive(
        &mut s,
        &[
            LoopEvent::Started,
            LoopEvent::Envelope,
        ],
    );
    assert_eq!(acts, vec![LoopAction::Continue, LoopAction::Dispatch]);
    assert!(s.in_flight);
    assert!(!s.accepts(LoopEvent::Envelope));
    let acts = drive(&mut s, &[LoopEvent::HandlerDone, LoopEvent::Envelope, LoopEvent::HandlerDone]);
    assert_eq!(acts, vec![LoopAction::Continue, LoopAction::Dispatch, LoopAction::Continue]);
    assert!(!s.in_flight);
}

#[test]
fn stop_runs_shutdown_then_exits() {
    let mut s = LoopState::new(false);
    let acts = drive(
        &mut s,
        &[LoopEvent::Started, LoopEvent::Stop, LoopEvent::Envelope, LoopEvent::ShutdownDone],
    );
    assert_eq!(
        acts,
        vec![LoopAction::Continue, LoopAction::Shutdown, LoopAction::Drop, LoopAction::Exit]
    );
    assert!(s.is_stopped());
    assert_eq!(s.handle(LoopEvent::Envelope), LoopAction::Drop);
    assert_eq!(s.handle(LoopEvent::Started), LoopAction::Continue);
    assert!(s.is_stopped());
}

#[test]
fn stop_waits_for_handler_in_flight() {
    let mut s = LoopState::new(false);
    let acts = drive(
        &mut s,
        &[
            LoopEvent::Started,
            LoopEvent::Envelope,
            LoopEvent::Stop,
            LoopEvent::ShutdownDone,
            LoopEvent::HandlerDone,
            LoopEvent::ShutdownDone,
        ],
    );
    assert_eq!(
        acts,
        vec![
            LoopAction::Continue,
            LoopAction::Dispatch,
            LoopAction::Continue,
            LoopAction::Continue,
            LoopAction::Shutdown,
            LoopAction::Exit,
        ]
    );
    assert_eq!(s.status(), ActorStatus::Stopped);
}

#[test]
fn handler_fault_ends_the_task() {
    let mut s = LoopState::new(false);
    let acts = drive(&mut s, &[LoopEvent::Started, LoopEvent::Envelope, LoopEvent::HandlerFault]);
    assert_eq!(acts, vec![LoopAction::Continue, LoopAction::Dispatch, LoopAction::Exit]);
    assert!(s.is_stopped());
    assert!(!s.in_flight);
}

#[test]
fn startup_fault_exits_without_signal() {
    let mut s = LoopState::new(true);
    assert_eq!(s.handle(LoopEvent::HandlerFault), LoopAction::Exit);
    assert!(s.is_stopped());
    assert!(!s.start_pending);
}

#[test]
fn closed_mailbox_shuts_down() {
    let mut s = LoopState::new(false);
    let acts = drive(&mut s, &[LoopEvent::Started, LoopEvent::MailboxClosed, LoopEvent::ShutdownDone]);
    assert_eq!(acts, vec![LoopAction::Continue, LoopAction::Shutdown, LoopAction::Exit]);
    assert!(s.is_stopped());
}

#[test]
fn stop_during_startup_never_dispatches() {
    let mut s = LoopState::new(true);
    let acts = drive(
        &mut s,
        &[LoopEvent::Stop, LoopEvent::Started, LoopEvent::Envelope, LoopEvent::ShutdownDone],
    );
    assert_eq!(
        acts,
        vec![LoopAction::Shutdown, LoopAction::Continue, LoopAction::Drop, LoopAction::Exit]
    );
}
