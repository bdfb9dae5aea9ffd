//! The command state of a worker: a task that runs on its own and polls for
//! pause and stop requests. The thread that runs the task lives outside the
//! library; this is the state that the owner and the task share.
use vstd::prelude::*;

verus! {

/// Where a worker is in its life.
#[derive(Clone, Copy, Debug, PartialEq, Eq, Structural)]
pub enum WorkerState {
    Created,
    Running,
    Paused,
    Stopping,
    Stopped,
}

/// What the owner or the task itself asks of a worker.
#[derive(Clone, Copy, Debug, PartialEq, Eq, Structural)]
pub enum Command {
    /// The task has been handed to its thread.
    Start,
    Pause,
    Unpause,
    /// Cooperative termination: the task sees it at its next poll.
    Stop,
    /// The task has returned.
    Exit,
}

/// What the task is to do at a poll point.
#[derive(Clone, Copy, Debug, PartialEq, Eq, Structural)]
pub enum Poll {
    Proceed,
    Wait,
    Finish,
}

/// The state after `c` in state `s`. Pause and unpause act only on a running
/// or paused worker; stop is final, and after it only the task's exit moves on.
pub open spec fn step(s: WorkerState, c: Command) -> WorkerState {
    match c {
        Command::Start => if s == WorkerState::Created {
            WorkerState::Running
        } else {
            s
        },
        Command::Pause => if s == WorkerState::Running {
            WorkerState::Paused
        } else {
            s
        },
        Command::Unpause => if s == WorkerState::Paused {
            WorkerState::Running
        } else {
            s
        },
        Command::Stop => if s == WorkerState::Stopped {
            WorkerState::Stopped
        } else {
            WorkerState::Stopping
        },
        Command::Exit => WorkerState::Stopped,
    }
}

/// A stop has been requested, or the task is gone.
pub open spec fn stop_requested(s: WorkerState) -> bool {
    s == WorkerState::Stopping || s == WorkerState::Stopped
}

pub open spec fn poll_spec(s: WorkerState) -> Poll {
    if stop_requested(s) {
        Poll::Finish
    } else if s == WorkerState::Running {
        Poll::Proceed
    } else {
        Poll::Wait
    }
}

/// The shared command state of one worker.
pub struct WorkerControl {
    pub state: WorkerState,
}

impl WorkerControl {
    pub fn new() -> (r: WorkerControl)
        ensures
            r.state == WorkerState::Created,
    {
        WorkerControl { state: WorkerState::Created }
    }

    /// Applies the command `c`.
    pub fn apply(&mut self, c: Command)
        ensures
            final(self).state == step(old(self).state, c),
    {
        let s = self.state;
        self.state = match c {
            Command::Start => if matches!(s, WorkerState::Created) {
                WorkerState::Running
            } else {
                s
            },
            Command::Pause => if matches!(s, WorkerState::Running) {
                WorkerState::Paused
            } else {
                s
            },
            Command::Unpause => if matches!(s, WorkerState::Paused) {
                WorkerState::Running
            } else {
                s
            },
            Command::Stop => if matches!(s, WorkerState::Stopped) {
                WorkerState::Stopped
            } else {
                WorkerState::Stopping
            },
            Command::Exit => WorkerState::Stopped,
        };
    }

    pub fn start(&mut self)
        ensures
            final(self).state == step(old(self).state, Command::Start),
    {
        self.apply(Command::Start)
    }

    pub fn pause(&mut self)
        ensures
            final(self).state == step(old(self).state, Command::Pause),
    {
        self.apply(Command::Pause)
    }

    pub fn unpause(&mut self)
        ensures
            final(self).state == step(old(self).state, Command::Unpause),
    {
        self.apply(Command::Unpause)
    }

    pub fn stop(&mut self)
        ensures
            final(self).state == step(old(self).state, Command::Stop),
    {
        self.apply(Command::Stop)
    }

    pub fn exit(&mut self)
        ensures
            final(self).state == WorkerState::Stopped,
    {
        self.apply(Command::Exit)
    }

    /// The non-blocking stop check that the task makes.
    pub fn should_stop(&self) -> (r: bool)
        ensures
            r == stop_requested(self.state),
    {
        matches!(self.state, WorkerState::Stopping) || matches!(self.state, WorkerState::Stopped)
    }

    /// What the task does at a poll point: go on, wait while paused (or not
    /// yet started), or finish.
    pub fn poll(&self) -> (r: Poll)
        ensures
            r == poll_spec(self.state),
    {
        if self.should_stop() {
            Poll::Finish
        } else if matches!(self.state, WorkerState::Running) {
            Poll::Proceed
        } else {
            Poll::Wait
        }
    }
}

/// Pausing a running worker and unpausing it again brings it back to where it
/// was: it runs, no stop has been requested, and its task proceeds.
pub proof fn lemma_pause_unpause(s: WorkerState)
    requires
        s == WorkerState::Running,
    ensures
        step(s, Command::Pause) == WorkerState::Paused,
        !stop_requested(step(s, Command::Pause)),
        step(step(s, Command::Pause), Command::Unpause) == s,
        poll_spec(step(step(s, Command::Pause), Command::Unpause)) == Poll::Proceed,
{
}

/// After a stop, the next poll of the task finishes it, whatever pause or
/// unpause came between, and no later command takes the stop back.
pub proof fn lemma_stop_is_final(s: WorkerState, c: Command)
    ensures
        stop_requested(step(s, Command::Stop)),
        poll_spec(step(s, Command::Stop)) == Poll::Finish,
        stop_requested(s) ==> stop_requested(step(s, c)),
{
}

/// Nothing leaves the stopped state.
pub proof fn lemma_stopped_is_terminal(c: Command)
    ensures
        step(WorkerState::Stopped, c) == WorkerState::Stopped,
{
}

} // verus!
