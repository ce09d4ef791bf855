use vstd::prelude::*;

verus! {

/// Relies on `libc::POLLIN`: the readiness bit for "ready to read", 0x1.
#[verifier::external_body]
fn poll_in() -> (r: i16)
    ensures
        r == 0x1,
{
    libc::POLLIN
}

/// Relies on `libc::POLLHUP`: the readiness bit for "hung up", 0x10.
#[verifier::external_body]
fn poll_hup() -> (r: i16)
    ensures
        r == 0x10,
{
    libc::POLLHUP
}

/// Relies on `libc::EINTR`: the error number of a call interrupted by a
/// signal, 4.
#[verifier::external_body]
fn interrupted_errno() -> (r: i32)
    ensures
        r == 4,
{
    libc::EINTR
}

/// One descriptor of a readiness wait: what to wait for, and what came.
#[derive(Clone, Copy, Debug, PartialEq, Eq, Structural)]
pub struct PollFd {
    pub fd: i32,
    pub events: i16,
    pub revents: i16,
}

/// Where the polling loop stands.
#[derive(Clone, Copy, Debug, PartialEq, Eq, Structural)]
pub enum Phase {
    /// About to block in the readiness wait, or blocked there.
    Waiting,
    /// The wait returned; the native layer is to dispatch its readiness.
    Dispatching,
    /// The loop is over.
    Finished,
}

/// What the loop is told after one step of outside work.
#[derive(Clone, Copy, Debug, PartialEq, Eq, Structural)]
pub enum LoopEvent {
    /// The readiness wait failed with this error number.
    WaitFailed { errno: i32 },
    /// The readiness wait returned; these are the readiness bits of the
    /// shutdown descriptor.
    WaitReturned { shutdown_revents: i16 },
    /// The native layer dispatched its readiness and reported these bits.
    Dispatched { revents: i32 },
}

/// What the loop is to do next.
#[derive(Clone, Copy, Debug, PartialEq, Eq, Structural)]
pub enum LoopAction {
    /// Block in the readiness wait over all descriptors, with no timeout.
    Wait,
    /// Hand the first `count` descriptors, the native ones, to the native
    /// layer for dispatch.
    Dispatch { count: usize },
    /// Close the read end of the shutdown signal and end the loop.
    CloseSignalAndStop,
    /// The native side hung up: end the loop.
    Stop,
    /// The wait failed for good with this error number: end the loop as a failure.
    Abort { errno: i32 },
}

/// The decisions of the loop that pumps native events until it is asked to
/// stop, the native side hangs up, or the wait fails for good.
///
/// The wait covers the native descriptors, then one more: the read end of
/// the shutdown signal, always last, never shown to the native layer.
#[derive(Clone, Copy, Debug)]
pub struct PollLoop {
    /// How many native descriptors lead the wait set.
    pub native_count: usize,
    /// The error number of an interrupted wait.
    pub interrupted: i32,
    /// The readiness bit for "ready to read".
    pub readable: i16,
    /// The readiness bit for "hung up".
    pub hangup: i16,
    pub phase: Phase,
}

/// The readiness bit for "ready to read".
pub const POLL_IN: i16 = 0x1;

/// The readiness bit for "hung up".
pub const POLL_HUP: i16 = 0x10;

/// The error number of a call interrupted by a signal.
pub const INTERRUPTED: i32 = 4;

impl PollLoop {
    /// The loop holds the platform's numbers for an interrupted call and
    /// for the two readiness bits it reads.
    pub open spec fn uses_platform_numbers(self) -> bool {
        &&& self.interrupted == INTERRUPTED
        &&& self.readable == POLL_IN
        &&& self.hangup == POLL_HUP
    }

    /// Whether `event` is one that can follow in the current phase.
    pub open spec fn accepts(self, event: LoopEvent) -> bool {
        match event {
            LoopEvent::WaitFailed { .. } => self.phase is Waiting,
            LoopEvent::WaitReturned { .. } => self.phase is Waiting,
            LoopEvent::Dispatched { .. } => self.phase is Dispatching,
        }
    }

    /// Whether readiness bits `revents` of the shutdown descriptor say the
    /// signal was given: its write end was closed, so it reads as ready or
    /// hung up.
    pub open spec fn signalled(self, revents: i16) -> bool {
        revents & (self.readable | self.hangup) != 0
    }

    /// The action that answers `event`.
    pub open spec fn decide(self, event: LoopEvent) -> LoopAction {
        match event {
            LoopEvent::WaitFailed { errno } => if errno == self.interrupted {
                LoopAction::Wait
            } else {
                LoopAction::Abort { errno }
            },
            LoopEvent::WaitReturned { shutdown_revents } => if self.signalled(shutdown_revents) {
                LoopAction::CloseSignalAndStop
            } else {
                LoopAction::Dispatch { count: self.native_count }
            },
            LoopEvent::Dispatched { revents } => if revents & (self.hangup as i32) != 0 {
                LoopAction::Stop
            } else {
                LoopAction::Wait
            },
        }
    }

    /// The phase that an action leads to.
    pub open spec fn phase_after(action: LoopAction) -> Phase {
        match action {
            LoopAction::Wait => Phase::Waiting,
            LoopAction::Dispatch { .. } => Phase::Dispatching,
            _ => Phase::Finished,
        }
    }

    /// A loop over `native_count` native descriptors, about to wait.
    pub fn new(native_count: usize) -> (r: PollLoop)
        ensures
            r.native_count == native_count,
            r.phase == Phase::Waiting,
            r.uses_platform_numbers(),
    {
        PollLoop {
            native_count,
            interrupted: interrupted_errno(),
            readable: poll_in(),
            hangup: poll_hup(),
            phase: Phase::Waiting,
        }
    }

    /// The descriptors to wait on: the native ones, then the read end of the
    /// shutdown signal, waited on for reading.
    pub fn wait_set(&self, native: Vec<PollFd>, shutdown_fd: i32) -> (r: Vec<PollFd>)
        requires
            native.len() == self.native_count,
        ensures
            r@ == native@.push(PollFd { fd: shutdown_fd, events: self.readable, revents: 0 }),
            r.len() == self.native_count + 1,
    {
        let mut r = native;
        r.push(PollFd { fd: shutdown_fd, events: self.readable, revents: 0 });
        r
    }

    /// The position of the shutdown descriptor in the wait set.
    pub fn shutdown_index(&self) -> (r: usize)
        ensures
            r == self.native_count,
    {
        self.native_count
    }

    /// Takes one step: answers `event` with the next action, and moves to the
    /// phase that action leads to.
    pub fn step(&mut self, event: LoopEvent) -> (r: LoopAction)
        requires
            old(self).accepts(event),
        ensures
            r == old(self).decide(event),
            *final(self) == (PollLoop { phase: PollLoop::phase_after(r), ..*old(self) }),
    {
        let action = match event {
            LoopEvent::WaitFailed { errno } => if errno == self.interrupted {
                LoopAction::Wait
            } else {
                LoopAction::Abort { errno }
            },
            LoopEvent::WaitReturned { shutdown_revents } => if shutdown_revents & (self.readable | self.hangup) != 0 {
                LoopAction::CloseSignalAndStop
            } else {
                LoopAction::Dispatch { count: self.native_count }
            },
            LoopEvent::Dispatched { revents } => if revents & (self.hangup as i32) != 0 {
                LoopAction::Stop
            } else {
                LoopAction::Wait
            },
        };
        self.phase = match action {
            LoopAction::Wait => Phase::Waiting,
            LoopAction::Dispatch { .. } => Phase::Dispatching,
            _ => Phase::Finished,
        };
        action
    }
}

/// An interrupted wait ends nothing and reports nothing: the loop waits
/// again, exactly as it stood, however often the interruption comes.
pub proof fn lemma_interrupted_wait_is_retried(l: PollLoop)
    requires
        l.phase == Phase::Waiting,
        l.uses_platform_numbers(),
    ensures
        l.decide(LoopEvent::WaitFailed { errno: INTERRUPTED }) == LoopAction::Wait,
        (PollLoop {
            phase: PollLoop::phase_after(l.decide(LoopEvent::WaitFailed { errno: INTERRUPTED })),
            ..l
        }) == l,
{
}

/// Once the shutdown signal is given, the wait that it wakes ends the loop:
/// the shutdown descriptor reads as ready or hung up, whatever the native
/// descriptors show, and no native event or dispatch is needed.
pub proof fn lemma_shutdown_ends_wait(l: PollLoop, shutdown_revents: i16)
    requires
        l.phase == Phase::Waiting,
        l.uses_platform_numbers(),
        shutdown_revents & POLL_IN != 0 || shutdown_revents & POLL_HUP != 0,
    ensures
        l.decide(LoopEvent::WaitReturned { shutdown_revents }) == LoopAction::CloseSignalAndStop,
        PollLoop::phase_after(l.decide(LoopEvent::WaitReturned { shutdown_revents })) == Phase::Finished,
{
    assert(shutdown_revents & 0x1 != 0 || shutdown_revents & 0x10 != 0 ==> shutdown_revents & (0x1i16 | 0x10i16) != 0)
        by (bit_vector);
}

/// A wait that returns with the shutdown descriptor quiet hands the native
/// descriptors, and only those, to the native layer.
pub proof fn lemma_quiet_signal_dispatches(l: PollLoop, shutdown_revents: i16)
    requires
        l.phase == Phase::Waiting,
        l.uses_platform_numbers(),
        shutdown_revents & POLL_IN == 0,
        shutdown_revents & POLL_HUP == 0,
    ensures
        l.decide(LoopEvent::WaitReturned { shutdown_revents }) == (LoopAction::Dispatch { count: l.native_count }),
{
    assert(shutdown_revents & 0x1 == 0 && shutdown_revents & 0x10 == 0 ==> shutdown_revents & (0x1i16 | 0x10i16) == 0)
        by (bit_vector);
}

/// After a dispatch, the loop ends exactly when the native side reports a
/// hang-up, and otherwise waits again.
pub proof fn lemma_native_hangup_stops(l: PollLoop, revents: i32)
    requires
        l.phase == Phase::Dispatching,
        l.uses_platform_numbers(),
    ensures
        revents & (POLL_HUP as i32) != 0 ==> l.decide(LoopEvent::Dispatched { revents }) == LoopAction::Stop,
        revents & (POLL_HUP as i32) == 0 ==> l.decide(LoopEvent::Dispatched { revents }) == LoopAction::Wait,
{
}

/// A wait that fails for any reason but an interruption ends the loop as a
/// failure that carries the error number.
pub proof fn lemma_other_wait_failure_aborts(l: PollLoop, errno: i32)
    requires
        l.phase == Phase::Waiting,
        l.uses_platform_numbers(),
        errno != INTERRUPTED,
    ensures
        l.decide(LoopEvent::WaitFailed { errno }) == (LoopAction::Abort { errno }),
{
}

} // verus!
