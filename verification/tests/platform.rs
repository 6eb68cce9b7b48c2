use keyring::platform::{
    after_first_bind, bind_again, BindStep, IoKind, PathInfo, ProbeOutcome, Reclaim, ReclaimEvent,
};

fn socket(dev: u64, ino: u64) -> ReclaimEvent {
    ReclaimEvent::Metadata(Ok(PathInfo { is_socket: true, dev, ino }))
}

fn run(events: &[ReclaimEvent]) -> Reclaim {
    let mut phase = Reclaim::start();
    for e in events {
        phase = phase.next(*e);
    }
    phase
}

#[test]
fn reclaims_a_stale_socket() {
    assert_eq!(after_first_bind(Err(IoKind::AddrInUse)), BindStep::Reclaim);
    let phase = run(&[socket(1, 42), ReclaimEvent::Probed(ProbeOutcome::Failed(IoKind::ConnectionRefused)), socket(1, 42)]);
    assert_eq!(phase, Reclaim::Remove);
    let done = phase.next(ReclaimEvent::Removed(Ok(())));
    assert!(done.finished());
    assert!(bind_again(done));
    // A path removed concurrently is free as well.
    assert_eq!(Reclaim::Remove.next(ReclaimEvent::Removed(Err(IoKind::NotFound))), Reclaim::Done(true));
    assert_eq!(Reclaim::Remove.next(ReclaimEvent::Removed(Err(IoKind::Other))), Reclaim::Failed);
}

#[test]
fn preserves_an_active_socket() {
    let phase = run(&[socket(1, 42), ReclaimEvent::Probed(ProbeOutcome::Connected)]);
    assert_eq!(phase, Reclaim::Done(false));
    assert!(!bind_again(phase));
    assert_eq!(run(&[socket(1, 42), ReclaimEvent::Probed(ProbeOutcome::TimedOut)]), Reclaim::Done(false));
}

#[test]
fn preserves_a_regular_file() {
    let file = ReclaimEvent::Metadata(Ok(PathInfo { is_socket: false, dev: 1, ino: 7 }));
    assert_eq!(run(&[file]), Reclaim::Done(false));
    assert!(!bind_again(run(&[file])));
}

#[test]
fn preserves_a_symbolic_link() {
    // `symlink_metadata` describes the link itself, which is never a socket.
    let link = ReclaimEvent::Metadata(Ok(PathInfo { is_socket: false, dev: 1, ino: 8 }));
    assert_eq!(run(&[link]), Reclaim::Done(false));
}

#[test]
fn preserves_a_socket_replaced_during_the_probe() {
    let phase = run(&[socket(1, 42), ReclaimEvent::Probed(ProbeOutcome::Failed(IoKind::ConnectionRefused)), socket(1, 43)]);
    assert_eq!(phase, Reclaim::Done(false));
}

#[test]
fn a_vanished_path_is_free() {
    assert_eq!(run(&[ReclaimEvent::Metadata(Err(IoKind::NotFound))]), Reclaim::Done(true));
    assert_eq!(run(&[ReclaimEvent::Metadata(Err(IoKind::Other))]), Reclaim::Done(false));
    assert_eq!(after_first_bind(Ok(())), BindStep::Finish);
    assert_eq!(after_first_bind(Err(IoKind::Other)), BindStep::Finish);
}
