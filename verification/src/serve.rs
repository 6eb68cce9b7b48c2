//! Decisions of the foreground service loop: configuration reloads, shutdown, and the
//! per-client request handling.

use vstd::prelude::*;

verus! {

/// Seconds that handling and answering one decoded request may take; idle reads have no limit.
pub const REQUEST_TIMEOUT_SECS: u64 = 30;

/// Seconds that a shutdown waits for in-flight requests before cancelling the remaining sessions.
pub const SHUTDOWN_TIMEOUT_SECS: u64 = 30;

/// Control signal received by the foreground service.
#[derive(Clone, Copy, Debug, Eq, PartialEq, Structural)]
pub enum SignalEvent {
    Reload,
    Shutdown,
}

/// An event of the service loop that changes its state.
#[derive(Clone, Copy, Debug, Eq, PartialEq, Structural)]
pub enum LoopEvent {
    Signal(SignalEvent),
    /// The candidate agent build finished; `true` when it produced an agent.
    ReloadFinished(bool),
}

/// What the loop does in response to an event.
#[derive(Clone, Copy, Debug, Eq, PartialEq, Structural)]
pub struct LoopAction {
    /// Replace the active agent with the candidate and tell its sessions to drain.
    pub swap_agent: bool,
    /// Start building a candidate agent from the configuration file.
    pub start_reload: bool,
    /// Leave the loop and drain all sessions.
    pub shut_down: bool,
}

/// Reload bookkeeping of the service loop.
#[derive(Clone, Copy, Debug, Eq, PartialEq, Structural)]
pub struct ReloadState {
    /// A candidate agent is being built.
    pub running: bool,
    /// Another re-read was requested while the candidate was being built.
    pub pending: bool,
}

/// The transition table of the service loop.
///
/// A reload signal starts a build unless one is running, in which case it only marks one more
/// re-read as pending. A finished build swaps the agent only when it succeeded, and starts the
/// pending re-read if there is one. A shutdown signal ends the loop.
pub open spec fn loop_next(s: ReloadState, e: LoopEvent) -> (ReloadState, LoopAction) {
    match e {
        LoopEvent::Signal(SignalEvent::Reload) => if s.running {
            (
                ReloadState { running: true, pending: true },
                LoopAction { swap_agent: false, start_reload: false, shut_down: false },
            )
        } else {
            (
                ReloadState { running: true, pending: s.pending },
                LoopAction { swap_agent: false, start_reload: true, shut_down: false },
            )
        },
        LoopEvent::Signal(SignalEvent::Shutdown) => (
            s,
            LoopAction { swap_agent: false, start_reload: false, shut_down: true },
        ),
        LoopEvent::ReloadFinished(ok) => (
            ReloadState { running: s.pending, pending: false },
            LoopAction { swap_agent: ok, start_reload: s.pending, shut_down: false },
        ),
    }
}

impl ReloadState {
    /// No candidate is being built and none is pending.
    pub fn new() -> (s: ReloadState)
        ensures
            !s.running,
            !s.pending,
    {
        ReloadState { running: false, pending: false }
    }

    /// Handles one loop event and says what the loop does next.
    pub fn on_event(&mut self, e: LoopEvent) -> (a: LoopAction)
        ensures
            (*final(self), a) == loop_next(*old(self), e),
    {
        match e {
            LoopEvent::Signal(SignalEvent::Reload) => {
                if self.running {
                    self.pending = true;
                    LoopAction { swap_agent: false, start_reload: false, shut_down: false }
                } else {
                    self.running = true;
                    LoopAction { swap_agent: false, start_reload: true, shut_down: false }
                }
            },
            LoopEvent::Signal(SignalEvent::Shutdown) => {
                LoopAction { swap_agent: false, start_reload: false, shut_down: true }
            },
            LoopEvent::ReloadFinished(ok) => {
                let again = self.pending;
                self.running = again;
                self.pending = false;
                LoopAction { swap_agent: ok, start_reload: again, shut_down: false }
            },
        }
    }
}

/// The loop builds at most one candidate at a time: a build starts only when none is running or
/// when the running one just finished; reload signals during a build coalesce into one pending
/// re-read; a finished build replaces the agent only when it succeeded; shutdown neither starts a
/// build nor replaces the agent.
pub proof fn law_reload_one_build_at_a_time(s: ReloadState, e: LoopEvent)
    ensures
        ({
            let (next, a) = loop_next(s, e);
            &&& a.start_reload ==> (!s.running || e is ReloadFinished)
            &&& a.start_reload ==> next.running
            &&& (s.running && e == LoopEvent::Signal(SignalEvent::Reload)) ==> next.running && next.pending && !a.start_reload
            &&& (e matches LoopEvent::ReloadFinished(ok) ==> a.swap_agent == ok && !next.pending)
            &&& (e == LoopEvent::Signal(SignalEvent::Shutdown) ==> a.shut_down && !a.start_reload && !a.swap_agent && next == s)
            &&& (!a.shut_down ==> e != LoopEvent::Signal(SignalEvent::Shutdown))
        }),
{
}

/// The reload state after `k` reload signals arrive in a row, starting from `s`.
pub open spec fn after_reloads(s: ReloadState, k: nat) -> ReloadState
    decreases k,
{
    if k == 0 {
        s
    } else {
        loop_next(after_reloads(s, (k - 1) as nat), LoopEvent::Signal(SignalEvent::Reload)).0
    }
}

proof fn lemma_reloads_while_running(s: ReloadState, k: nat)
    requires
        s.running,
    ensures
        after_reloads(s, k).running,
        k >= 1 ==> after_reloads(s, k) == (ReloadState { running: true, pending: true }),
    decreases k,
{
    if k > 0 {
        lemma_reloads_while_running(s, (k - 1) as nat);
    }
}

/// Any number of reload signals that arrive while a candidate is being built coalesce: none of
/// them starts another build, together they leave exactly one re-read pending, and when the
/// running build finishes exactly one more build starts and nothing stays pending.
pub proof fn law_reload_signals_coalesce(s: ReloadState, k: nat, ok: bool)
    requires
        s.running,
        k >= 1,
    ensures
        forall|j: nat| j < k ==> !(#[trigger] loop_next(after_reloads(s, j), LoopEvent::Signal(SignalEvent::Reload))).1.start_reload,
        after_reloads(s, k) == (ReloadState { running: true, pending: true }),
        ({
            let (next, a) = loop_next(after_reloads(s, k), LoopEvent::ReloadFinished(ok));
            a.start_reload && next.running && !next.pending && a.swap_agent == ok
        }),
{
    lemma_reloads_while_running(s, k);
    assert forall|j: nat| j < k implies !(#[trigger] loop_next(after_reloads(s, j), LoopEvent::Signal(SignalEvent::Reload))).1.start_reload by {
        lemma_reloads_while_running(s, j);
    }
}

/// How handling one decoded request ended.
#[derive(Clone, Copy, Debug, Eq, PartialEq, Structural)]
pub enum RequestOutcome {
    /// The session produced a response.
    Answered,
    /// An extension request failed.
    ExtensionFailed,
    /// Any other failure of the session.
    Failed,
}

/// What is written back to the client.
#[derive(Clone, Copy, Debug, Eq, PartialEq, Structural)]
pub enum ReplyKind {
    /// The session's own response.
    Response,
    /// The protocol's extension-failure message.
    ExtensionFailure,
    /// The protocol's generic failure message.
    Failure,
}

/// The reply for a handled request: failures become protocol failure responses rather than
/// closing the connection.
pub fn reply_for(outcome: RequestOutcome) -> (r: ReplyKind)
    ensures
        r == match outcome {
            RequestOutcome::Answered => ReplyKind::Response,
            RequestOutcome::ExtensionFailed => ReplyKind::ExtensionFailure,
            RequestOutcome::Failed => ReplyKind::Failure,
        },
{
    match outcome {
        RequestOutcome::Answered => ReplyKind::Response,
        RequestOutcome::ExtensionFailed => ReplyKind::ExtensionFailure,
        RequestOutcome::Failed => ReplyKind::Failure,
    }
}

/// What a client session does before reading its next request.
#[derive(Clone, Copy, Debug, Eq, PartialEq, Structural)]
pub enum ReadStep {
    /// Its generation was told to stop, or the client disconnected: close the session.
    Close,
    /// Wait for and handle the next request.
    Read,
}

/// A session stops before reading when its generation was told to drain; otherwise it reads.
pub fn before_read(stopped: bool) -> (r: ReadStep)
    ensures
        r == (if stopped { ReadStep::Close } else { ReadStep::Read }),
{
    if stopped {
        ReadStep::Close
    } else {
        ReadStep::Read
    }
}

/// Whether a finished client task is worth an error log: only a failure that is not the
/// cancellation of a drained task.
pub fn report(failed: bool, cancelled: bool) -> (log: bool)
    ensures
        log == (failed && !cancelled),
{
    failed && !cancelled
}

} // verus!
