//! Decisions of the listener lifecycle: reclaiming a stale Unix socket path before binding.
//!
//! The caller performs each file-system or socket operation that the current phase names and
//! hands its outcome back as an event; the library decides the next phase.

use vstd::prelude::*;

verus! {

/// Seconds that a connection probe of an occupied socket path may take before it counts as
/// inconclusive.
pub const PROBE_TIMEOUT_SECS: u64 = 1;

/// Kind of an I/O error, as far as the decisions below tell them apart.
#[derive(Debug, Clone, Copy, PartialEq, Eq, Structural)]
pub enum IoKind {
    NotFound,
    ConnectionRefused,
    AddrInUse,
    Other,
}

/// What `symlink_metadata` reports of a path: whether it is a socket, and its device and inode.
#[derive(Debug, Clone, Copy, PartialEq, Eq, Structural)]
pub struct PathInfo {
    pub is_socket: bool,
    pub dev: u64,
    pub ino: u64,
}

/// Outcome of a connection attempt to the socket, bounded by a one-second timeout.
#[derive(Debug, Clone, Copy, PartialEq, Eq, Structural)]
pub enum ProbeOutcome {
    /// A listener accepted the connection.
    Connected,
    /// The connection failed with this kind of error.
    Failed(IoKind),
    /// No answer within the timeout.
    TimedOut,
}

/// Phase of reclaiming an occupied socket path.
#[derive(Debug, Clone, Copy, PartialEq, Eq, Structural)]
pub enum Reclaim {
    /// Read the path's metadata (`symlink_metadata`).
    Inspect,
    /// Try to connect to the socket that had device `dev` and inode `ino`.
    Probe { dev: u64, ino: u64 },
    /// Read the path's metadata again and compare it with `dev` and `ino`.
    Recheck { dev: u64, ino: u64 },
    /// Remove the path.
    Remove,
    /// Finished: whether the path is now free for a new bind.
    Done(bool),
    /// Removing the path failed with an error that the caller returns.
    Failed,
}

/// Event handed back after the operation of a phase.
#[derive(Debug, Clone, Copy)]
pub enum ReclaimEvent {
    Metadata(Result<PathInfo, IoKind>),
    Probed(ProbeOutcome),
    Removed(Result<(), IoKind>),
}

/// The transition table of reclaiming a socket path.
///
/// A path is removed only when it was a socket, a connection to it was refused, and it is still
/// the same socket (same device and inode) afterwards. A path that vanished is free; anything
/// inconclusive leaves the path in place and reports it occupied.
pub open spec fn reclaim_next(phase: Reclaim, event: ReclaimEvent) -> Reclaim {
    match (phase, event) {
        (Reclaim::Inspect, ReclaimEvent::Metadata(m)) => match m {
            Ok(info) => if info.is_socket {
                Reclaim::Probe { dev: info.dev, ino: info.ino }
            } else {
                Reclaim::Done(false)
            },
            Err(IoKind::NotFound) => Reclaim::Done(true),
            Err(_) => Reclaim::Done(false),
        },
        (Reclaim::Probe { dev, ino }, ReclaimEvent::Probed(p)) => match p {
            ProbeOutcome::Failed(IoKind::ConnectionRefused) => Reclaim::Recheck { dev, ino },
            ProbeOutcome::Failed(IoKind::NotFound) => Reclaim::Done(true),
            _ => Reclaim::Done(false),
        },
        (Reclaim::Recheck { dev, ino }, ReclaimEvent::Metadata(m)) => match m {
            Ok(info) => if info.is_socket && info.dev == dev && info.ino == ino {
                Reclaim::Remove
            } else {
                Reclaim::Done(false)
            },
            Err(IoKind::NotFound) => Reclaim::Done(true),
            Err(_) => Reclaim::Done(false),
        },
        (Reclaim::Remove, ReclaimEvent::Removed(r)) => match r {
            Ok(()) => Reclaim::Done(true),
            Err(IoKind::NotFound) => Reclaim::Done(true),
            Err(_) => Reclaim::Failed,
        },
        _ => phase,
    }
}

impl Reclaim {
    /// The phase in which reclaiming starts.
    pub fn start() -> (r: Reclaim)
        ensures
            r == Reclaim::Inspect,
    {
        Reclaim::Inspect
    }

    /// Whether no further operation is needed.
    pub fn finished(&self) -> (r: bool)
        ensures
            r == (*self is Done || *self is Failed),
    {
        match self {
            Reclaim::Done(_) | Reclaim::Failed => true,
            _ => false,
        }
    }

    /// Moves to the next phase after the operation of this phase reported `event`; an event
    /// that does not belong to the phase leaves it unchanged.
    pub fn next(self, event: ReclaimEvent) -> (r: Reclaim)
        ensures
            r == reclaim_next(self, event),
    {
        match (self, event) {
            (Reclaim::Inspect, ReclaimEvent::Metadata(m)) => match m {
                Ok(info) => if info.is_socket {
                    Reclaim::Probe { dev: info.dev, ino: info.ino }
                } else {
                    Reclaim::Done(false)
                },
                Err(IoKind::NotFound) => Reclaim::Done(true),
                Err(_) => Reclaim::Done(false),
            },
            (Reclaim::Probe { dev, ino }, ReclaimEvent::Probed(p)) => match p {
                ProbeOutcome::Failed(IoKind::ConnectionRefused) => Reclaim::Recheck { dev, ino },
                ProbeOutcome::Failed(IoKind::NotFound) => Reclaim::Done(true),
                _ => Reclaim::Done(false),
            },
            (Reclaim::Recheck { dev, ino }, ReclaimEvent::Metadata(m)) => match m {
                Ok(info) => if info.is_socket && info.dev == dev && info.ino == ino {
                    Reclaim::Remove
                } else {
                    Reclaim::Done(false)
                },
                Err(IoKind::NotFound) => Reclaim::Done(true),
                Err(_) => Reclaim::Done(false),
            },
            (Reclaim::Remove, ReclaimEvent::Removed(r)) => match r {
                Ok(()) => Reclaim::Done(true),
                Err(IoKind::NotFound) => Reclaim::Done(true),
                Err(_) => Reclaim::Failed,
            },
            (phase, _) => phase,
        }
    }
}

/// The phase reached from the start after the events `events`, in order.
pub open spec fn reclaim_run(events: Seq<ReclaimEvent>) -> Reclaim
    decreases events.len(),
{
    if events.len() == 0 {
        Reclaim::Inspect
    } else {
        reclaim_next(reclaim_run(events.drop_last()), events.last())
    }
}

/// The metadata event `e` reports a socket with device `dev` and inode `ino`.
pub open spec fn reports_socket(e: ReclaimEvent, dev: u64, ino: u64) -> bool {
    e matches ReclaimEvent::Metadata(Ok(info)) && info.is_socket && info.dev == dev && info.ino == ino
}

/// The event `e` reports a refused connection.
pub open spec fn reports_refused(e: ReclaimEvent) -> bool {
    e matches ReclaimEvent::Probed(ProbeOutcome::Failed(IoKind::ConnectionRefused))
}

/// What a phase reached after `events` tells of them.
pub open spec fn run_history(events: Seq<ReclaimEvent>, phase: Reclaim) -> bool {
    match phase {
        Reclaim::Probe { dev, ino } => exists|i: int| 0 <= i < events.len() && #[trigger] reports_socket(events[i], dev, ino),
        Reclaim::Recheck { dev, ino } => exists|i: int, j: int| 0 <= i < j < events.len() && #[trigger] reports_socket(events[i], dev, ino) && #[trigger] reports_refused(events[j]),
        Reclaim::Remove => exists|i: int, j: int, k: int, dev: u64, ino: u64| 0 <= i < j < k < events.len()
            && #[trigger] reports_socket(events[i], dev, ino) && #[trigger] reports_refused(events[j]) && #[trigger] reports_socket(events[k], dev, ino),
        _ => true,
    }
}

proof fn lemma_run_history(events: Seq<ReclaimEvent>)
    ensures
        run_history(events, reclaim_run(events)),
    decreases events.len(),
{
    if events.len() > 0 {
        let prev = events.drop_last();
        lemma_run_history(prev);
        let p = reclaim_run(prev);
        let e = events.last();
        let n = events.len() - 1;
        assert forall|i: int| 0 <= i < prev.len() implies events[i] == prev[i] by {}
        match reclaim_run(events) {
            Reclaim::Probe { dev, ino } => {
                if p is Probe {
                    let i = choose|i: int| 0 <= i < prev.len() && #[trigger] reports_socket(prev[i], dev, ino);
                    assert(reports_socket(events[i], dev, ino));
                } else {
                    assert(reports_socket(events[n], dev, ino));
                }
            },
            Reclaim::Recheck { dev, ino } => {
                if p is Recheck {
                    let (i, j) = choose|i: int, j: int| 0 <= i < j < prev.len() && #[trigger] reports_socket(prev[i], dev, ino) && #[trigger] reports_refused(prev[j]);
                    assert(reports_socket(events[i], dev, ino) && reports_refused(events[j]));
                } else {
                    let i = choose|i: int| 0 <= i < prev.len() && #[trigger] reports_socket(prev[i], dev, ino);
                    assert(reports_socket(events[i], dev, ino) && reports_refused(events[n]));
                }
            },
            Reclaim::Remove => {
                if p is Remove {
                    let (i, j, k, dev, ino) = choose|i: int, j: int, k: int, dev: u64, ino: u64| 0 <= i < j < k < prev.len()
                        && #[trigger] reports_socket(prev[i], dev, ino) && #[trigger] reports_refused(prev[j]) && #[trigger] reports_socket(prev[k], dev, ino);
                    assert(reports_socket(events[i], dev, ino) && reports_refused(events[j]) && reports_socket(events[k], dev, ino));
                } else {
                    let (dev, ino) = match p {
                        Reclaim::Recheck { dev, ino } => (dev, ino),
                        _ => (0u64, 0u64),
                    };
                    let (i, j) = choose|i: int, j: int| 0 <= i < j < prev.len() && #[trigger] reports_socket(prev[i], dev, ino) && #[trigger] reports_refused(prev[j]);
                    assert(reports_socket(events[i], dev, ino) && reports_refused(events[j]) && reports_socket(events[n], dev, ino));
                }
            },
            _ => {},
        }
    }
}

/// A socket path is removed only after its metadata showed a socket, a connection to it was
/// refused, and its metadata afterwards showed the same socket (same device and inode).
pub proof fn law_reclaim_removes_only_unchanged_refused_socket(events: Seq<ReclaimEvent>)
    ensures
        reclaim_run(events) == Reclaim::Remove ==> exists|i: int, j: int, k: int, dev: u64, ino: u64| 0 <= i < j < k < events.len()
            && #[trigger] reports_socket(events[i], dev, ino) && #[trigger] reports_refused(events[j]) && #[trigger] reports_socket(events[k], dev, ino),
{
    lemma_run_history(events);
}

/// A path that is not a socket, a socket with a live listener, and a probe that does not answer
/// all leave the path in place and report it occupied.
pub proof fn law_reclaim_preserves_occupied_paths(info: PathInfo, dev: u64, ino: u64, kind: IoKind)
    ensures
        !info.is_socket ==> reclaim_next(Reclaim::Inspect, ReclaimEvent::Metadata(Ok(info))) == Reclaim::Done(false),
        reclaim_next(Reclaim::Probe { dev, ino }, ReclaimEvent::Probed(ProbeOutcome::Connected)) == Reclaim::Done(false),
        reclaim_next(Reclaim::Probe { dev, ino }, ReclaimEvent::Probed(ProbeOutcome::TimedOut)) == Reclaim::Done(false),
        kind != IoKind::NotFound ==> reclaim_next(Reclaim::Inspect, ReclaimEvent::Metadata(Err(kind))) == Reclaim::Done(false),
        (info.dev != dev || info.ino != ino) ==> reclaim_next(Reclaim::Recheck { dev, ino }, ReclaimEvent::Metadata(Ok(info))) == Reclaim::Done(false),
{
}

/// What to do after the first attempt to bind the listener.
#[derive(Debug, Clone, Copy, PartialEq, Eq, Structural)]
pub enum BindStep {
    /// The bind succeeded, or failed in a way that is returned as is.
    Finish,
    /// The address is in use: try to reclaim the path first.
    Reclaim,
}

/// Decides the step after the first bind attempt: only an address-in-use error leads to
/// reclaiming the path.
pub fn after_first_bind(result: Result<(), IoKind>) -> (s: BindStep)
    ensures
        s == (if result == Err::<(), IoKind>(IoKind::AddrInUse) { BindStep::Reclaim } else { BindStep::Finish }),
{
    match result {
        Err(IoKind::AddrInUse) => BindStep::Reclaim,
        _ => BindStep::Finish,
    }
}

/// After reclaiming, whether to bind once more (the path is free) or to return the first error.
pub fn bind_again(reclaimed: Reclaim) -> (again: bool)
    ensures
        again == (reclaimed == Reclaim::Done(true)),
{
    match reclaimed {
        Reclaim::Done(b) => b,
        _ => false,
    }
}

} // verus!
