use keyring::serve::{
    before_read, reply_for, report, LoopAction, LoopEvent, ReadStep, ReloadState, ReplyKind, RequestOutcome,
    SignalEvent,
};

const NOTHING: LoopAction = LoopAction { swap_agent: false, start_reload: false, shut_down: false };

#[test]
fn reload_signals_coalesce_while_a_candidate_builds() {
    let mut state = ReloadState::new();
    let a = state.on_event(LoopEvent::Signal(SignalEvent::Reload));
    assert_eq!(a, LoopAction { start_reload: true, ..NOTHING });
    assert_eq!(state.on_event(LoopEvent::Signal(SignalEvent::Reload)), NOTHING);
    assert_eq!(state.on_event(LoopEvent::Signal(SignalEvent::Reload)), NOTHING);
    assert!(state.running && state.pending);
    // The first build fails: keep the agent, re-read once more.
    let a = state.on_event(LoopEvent::ReloadFinished(false));
    assert_eq!(a, LoopAction { start_reload: true, ..NOTHING });
    assert!(state.running && !state.pending);
    // The second build succeeds: swap, nothing more to do.
    let a = state.on_event(LoopEvent::ReloadFinished(true));
    assert_eq!(a, LoopAction { swap_agent: true, ..NOTHING });
    assert!(!state.running && !state.pending);
}

#[test]
fn shutdown_ends_the_loop_without_touching_reloads() {
    let mut state = ReloadState::new();
    state.on_event(LoopEvent::Signal(SignalEvent::Reload));
    let before = state;
    let a = state.on_event(LoopEvent::Signal(SignalEvent::Shutdown));
    assert_eq!(a, LoopAction { shut_down: true, ..NOTHING });
    assert_eq!(state, before);
}

#[test]
fn client_request_handling() {
    assert_eq!(reply_for(RequestOutcome::Answered), ReplyKind::Response);
    assert_eq!(reply_for(RequestOutcome::ExtensionFailed), ReplyKind::ExtensionFailure);
    assert_eq!(reply_for(RequestOutcome::Failed), ReplyKind::Failure);
    assert_eq!(before_read(true), ReadStep::Close);
    assert_eq!(before_read(false), ReadStep::Read);
    assert!(report(true, false));
    assert!(!report(true, true));
    assert!(!report(false, false));
}

#[test]
fn many_reload_signals_during_a_build_coalesce_into_one() {
    let mut state = ReloadState::new();
    assert!(state.on_event(LoopEvent::Signal(SignalEvent::Reload)).start_reload);
    for _ in 0..5 {
        let action = state.on_event(LoopEvent::Signal(SignalEvent::Reload));
        assert!(!action.start_reload);
    }
    assert!(state.running && state.pending);
    let action = state.on_event(LoopEvent::ReloadFinished(true));
    assert!(action.start_reload && action.swap_agent);
    assert!(state.running && !state.pending);
    let action = state.on_event(LoopEvent::ReloadFinished(false));
    assert!(!action.start_reload && !action.swap_agent);
    assert!(!state.running);
}
