use sioctl::{
    Handle, JoinAction, Lifecycle, LoopAction, LoopEvent, Phase, PollFd, PollLoop, Stage, INTERRUPTED,
    POLL_HUP, POLL_IN,
};

#[test]
fn loop_uses_the_platform_constants() {
    let l = PollLoop::new(2);
    assert_eq!(l.interrupted, libc::EINTR);
    assert_eq!(l.readable, libc::POLLIN);
    assert_eq!(l.hangup, libc::POLLHUP);
    assert_eq!(l.phase, Phase::Waiting);
    assert_eq!(l.shutdown_index(), 2);
    assert_eq!(INTERRUPTED, libc::EINTR);
    assert_eq!(POLL_IN, libc::POLLIN);
    assert_eq!(POLL_HUP, libc::POLLHUP);
}

#[test]
fn shutdown_wins_over_ready_native_descriptors() {
    let mut l = PollLoop::new(2);
    assert_eq!(
        l.step(LoopEvent::WaitReturned { shutdown_revents: libc::POLLIN | libc::POLLHUP }),
        LoopAction::CloseSignalAndStop
    );
}

#[test]
fn wait_set_puts_shutdown_descriptor_last() {
    let l = PollLoop::new(2);
    let native = vec![PollFd { fd: 5, events: libc::POLLIN, revents: 0 }, PollFd { fd: 6, events: libc::POLLOUT, revents: 0 }];
    let set = l.wait_set(native.clone(), 9);
    assert_eq!(set.len(), 3);
    assert_eq!(&set[..2], &native[..]);
    assert_eq!(set[2], PollFd { fd: 9, events: libc::POLLIN, revents: 0 });
}

#[test]
fn interrupted_wait_is_retried() {
    let mut l = PollLoop::new(1);
    for _ in 0..3 {
        assert_eq!(l.step(LoopEvent::WaitFailed { errno: libc::EINTR }), LoopAction::Wait);
        assert_eq!(l.phase, Phase::Waiting);
    }
    assert_eq!(l.step(LoopEvent::WaitReturned { shutdown_revents: 0 }), LoopAction::Dispatch { count: 1 });
}

#[test]
fn other_wait_failure_aborts() {
    let mut l = PollLoop::new(1);
    assert_eq!(l.step(LoopEvent::WaitFailed { errno: libc::EBADF }), LoopAction::Abort { errno: libc::EBADF });
    assert_eq!(l.phase, Phase::Finished);
}

#[test]
fn shutdown_signal_ends_the_loop_without_dispatch() {
    let mut l = PollLoop::new(3);
    assert_eq!(l.step(LoopEvent::WaitReturned { shutdown_revents: libc::POLLHUP }), LoopAction::CloseSignalAndStop);
    assert_eq!(l.phase, Phase::Finished);
    let mut l = PollLoop::new(3);
    assert_eq!(l.step(LoopEvent::WaitReturned { shutdown_revents: libc::POLLIN }), LoopAction::CloseSignalAndStop);
}

#[test]
fn native_hangup_stops_and_other_dispatch_continues() {
    let mut l = PollLoop::new(1);
    assert_eq!(l.step(LoopEvent::WaitReturned { shutdown_revents: 0 }), LoopAction::Dispatch { count: 1 });
    assert_eq!(l.phase, Phase::Dispatching);
    assert_eq!(l.step(LoopEvent::Dispatched { revents: libc::POLLIN as i32 }), LoopAction::Wait);
    assert_eq!(l.phase, Phase::Waiting);
    assert_eq!(l.step(LoopEvent::WaitReturned { shutdown_revents: 0 }), LoopAction::Dispatch { count: 1 });
    assert_eq!(l.step(LoopEvent::Dispatched { revents: libc::POLLHUP as i32 }), LoopAction::Stop);
    assert_eq!(l.phase, Phase::Finished);
}

#[test]
fn opened_session_starts_open() {
    let l = Lifecycle::opened(&Handle(8));
    assert_eq!(l.stage, Stage::Open);
    assert_eq!(l.outcome(), None);
}

#[test]
fn join_outcome_reports_abnormal_end() {
    let mut l = Lifecycle::opened(&Handle(8));
    l.start_watch();
    assert_eq!(l.begin_join(), JoinAction::CloseSignalAndJoin);
    assert_eq!(l.outcome(), None);
    l.finish_join(false);
    assert_eq!(l.outcome(), Some(false));
    assert_eq!(l.begin_join(), JoinAction::Nothing);
}

#[test]
fn second_join_is_a_noop() {
    let mut l = Lifecycle::opened(&Handle(8));
    assert_eq!(l.begin_join(), JoinAction::Nothing);
    l.start_watch();
    assert_eq!(l.stage, Stage::Watching);
    assert_eq!(l.begin_join(), JoinAction::CloseSignalAndJoin);
    assert_eq!(l.stage, Stage::ShuttingDown);
    assert_eq!(l.begin_join(), JoinAction::Nothing);
    l.finish_join(true);
    assert_eq!(l.stage, Stage::Joined { clean: true });
    assert_eq!(l.outcome(), Some(true));
    assert_eq!(l.begin_join(), JoinAction::Nothing);
    assert_eq!(l.stage, Stage::Joined { clean: true });
}
