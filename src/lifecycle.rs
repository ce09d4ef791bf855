use vstd::prelude::*;

use crate::control::Handle;

verus! {

/// Where a session stands, from the native open to the joined watcher.
#[derive(Clone, Copy, Debug, PartialEq, Eq, Structural)]
pub enum Stage {
    /// The native handle is open and the callbacks are registered.
    Open,
    /// A polling task owns the native handle; the shutdown signal is unsent.
    Watching,
    /// The shutdown signal was sent; the polling task is being joined.
    ShuttingDown,
    /// The polling task has ended, cleanly or not.
    Joined { clean: bool },
}

/// What the watcher is to do when asked to shut down.
#[derive(Clone, Copy, Debug, PartialEq, Eq, Structural)]
pub enum JoinAction {
    /// Close the write end of the shutdown signal, then wait for the task.
    CloseSignalAndJoin,
    /// Shutdown already happened: do nothing.
    Nothing,
}

/// The lifecycle of a session and of the watcher that it turns into.
#[derive(Clone, Copy, Debug)]
pub struct Lifecycle {
    pub stage: Stage,
}

impl Lifecycle {
    /// The lifecycle of a session whose native open returned `handle`.
    /// A failed open (a null handle) is fatal and must be caught before.
    pub fn opened(handle: &Handle) -> (r: Lifecycle)
        requires
            handle.0 != 0,
        ensures
            r.stage == Stage::Open,
    {
        Lifecycle { stage: Stage::Open }
    }

    /// The session hands its native handle to a polling task.
    pub fn start_watch(&mut self)
        requires
            old(self).stage == Stage::Open,
        ensures
            final(self).stage == Stage::Watching,
    {
        self.stage = Stage::Watching;
    }

    /// The action that a request to shut down leads to from `stage`.
    pub open spec fn join_action(stage: Stage) -> JoinAction {
        if stage == Stage::Watching {
            JoinAction::CloseSignalAndJoin
        } else {
            JoinAction::Nothing
        }
    }

    /// The stage that a request to shut down leaves behind.
    pub open spec fn stage_after_join(stage: Stage) -> Stage {
        if stage == Stage::Watching {
            Stage::ShuttingDown
        } else {
            stage
        }
    }

    /// Asks the watcher to shut down. Only the first request while watching
    /// closes the signal and joins; every other one does nothing.
    pub fn begin_join(&mut self) -> (r: JoinAction)
        ensures
            r == Lifecycle::join_action(old(self).stage),
            final(self).stage == Lifecycle::stage_after_join(old(self).stage),
    {
        if self.stage == Stage::Watching {
            self.stage = Stage::ShuttingDown;
            JoinAction::CloseSignalAndJoin
        } else {
            JoinAction::Nothing
        }
    }

    /// Records that the polling task has ended, and whether it ended cleanly.
    pub fn finish_join(&mut self, clean: bool)
        requires
            old(self).stage == Stage::ShuttingDown,
        ensures
            final(self).stage == (Stage::Joined { clean }),
    {
        self.stage = Stage::Joined { clean };
    }

    /// How the polling task ended: `None` while it has not been joined,
    /// `Some(true)` after a clean shutdown, `Some(false)` after it ended
    /// abnormally.
    pub fn outcome(&self) -> (r: Option<bool>)
        ensures
            r == (match self.stage {
                Stage::Joined { clean } => Some(clean),
                _ => None,
            }),
    {
        match self.stage {
            Stage::Joined { clean } => Some(clean),
            _ => None,
        }
    }
}

/// Shutting down twice, or dropping after an explicit join, does nothing the
/// second time: whatever the stage, once a request to shut down has been
/// made, and whether or not the task has been joined since, a further
/// request neither closes the signal nor joins again.
pub proof fn lemma_second_join_is_noop(stage: Stage, clean: bool)
    ensures
        Lifecycle::join_action(Lifecycle::stage_after_join(stage)) == JoinAction::Nothing,
        Lifecycle::stage_after_join(Lifecycle::stage_after_join(stage)) == Lifecycle::stage_after_join(stage),
        Lifecycle::join_action(Stage::Joined { clean }) == JoinAction::Nothing,
{
}

} // verus!
