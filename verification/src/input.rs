//! Detector inputs: the stream decoders and the input state machine.

pub mod canon;
pub mod ge;
pub mod mesy;
pub mod test;
pub mod jumiom;


pub mod jumiom_decode;

use vstd::prelude::*;
use crate::text::concat;

verus! {

/// Run state of an input.
#[derive(Debug, Clone, PartialEq, Eq)]
pub enum InputState {
    Idle,
    Running,
    Ended,
    /// Stopped by an error, with its message; only a reset leaves it.
    Error(String),
}

impl InputState {
    /// A copy of the state.
    pub fn duplicate(&self) -> (r: InputState)
        ensures
            r == *self,
    {
        match self {
            InputState::Idle => InputState::Idle,
            InputState::Running => InputState::Running,
            InputState::Ended => InputState::Ended,
            InputState::Error(m) => InputState::Error(m.clone()),
        }
    }
}

/// A command that changes the run state of an input; any other command is
/// handled by the input itself.
#[derive(Debug, Clone, Copy, PartialEq, Eq, Structural)]
pub enum ControlCommand {
    Start,
    Stop,
    Reset,
    Other,
}

/// An operation on the input's hardware or source, which can fail.
#[derive(Debug, Clone, Copy, PartialEq, Eq, Structural)]
pub enum Phase {
    /// Stopping a running input before starting it anew.
    StopForRestart,
    Start,
    Stop,
    Reset,
    /// Handling a command that is not a control command.
    Handle,
}

/// What the rest of the pipeline is told of a state change.
#[derive(Debug, Clone, PartialEq, Eq)]
pub enum Notice {
    /// The run that was going on has ended.
    EndOfRun,
    /// The input is now in this state.
    State(InputState),
}

/// The answer to a command.
#[derive(Debug, Clone, PartialEq, Eq)]
pub enum Reply {
    Done,
    /// The answer the input's own handler gave.
    Forward,
    Error(String),
}

/// What comes after a step: an answer to the command, or an operation to
/// perform whose result is then handed back.
#[derive(Debug, Clone, PartialEq, Eq)]
pub enum Next {
    Reply(Reply),
    Perform(Phase),
}

/// How reading events failed.
#[derive(Debug, Clone, PartialEq, Eq)]
pub enum ReadFailure {
    Failed(String),
    NoMoreData,
}

/// The notices of a change from state `old` to `new`: the end of the run if
/// the input was running, then the new state.
pub open spec fn change_notices(old: InputState, new: InputState) -> Seq<Notice> {
    if old is Running {
        seq![Notice::EndOfRun, Notice::State(new)]
    } else {
        seq![Notice::State(new)]
    }
}

/// The run state of one input and the decisions about it: which commands
/// are answered directly, which need an operation first, and where each
/// outcome leads.
pub struct InputMachine {
    pub state: InputState,
}

/// The answer is an error whose message is `prefix` followed by `e`.
pub open spec fn error_reply(n: Next, prefix: Seq<char>, e: Seq<char>) -> bool {
    n matches Next::Reply(Reply::Error(m)) && m@ == prefix + e
}

/// The state is an error whose message is `prefix` followed by `e`.
pub open spec fn error_state(s: InputState, prefix: Seq<char>, e: Seq<char>) -> bool {
    s matches InputState::Error(m) && m@ == prefix + e
}

/// What a step leads to: notices for the rest of the pipeline, then an
/// answer or an operation.
pub struct Step {
    pub notices: Vec<Notice>,
    pub next: Next,
}

impl InputMachine {
    /// A new input is idle, and says so.
    pub fn new() -> (r: (InputMachine, Vec<Notice>))
        ensures
            r.0.state == InputState::Idle,
            r.1@ == seq![Notice::State(InputState::Idle)],
    {
        let mut v: Vec<Notice> = Vec::new();
        v.push(Notice::State(InputState::Idle));
        (InputMachine { state: InputState::Idle }, v)
    }

    fn set_state(&mut self, new: InputState, notices: &mut Vec<Notice>)
        ensures
            final(self).state == new,
            final(notices)@ == old(notices)@ + change_notices(old(self).state, new),
    {
        let ghost prev = self.state;
        if let InputState::Running = self.state {
            notices.push(Notice::EndOfRun);
        }
        self.state = new.duplicate();
        notices.push(Notice::State(new));
        proof {
            assert(notices@ =~= old(notices)@ + change_notices(prev, final(self).state));
        }
    }

    /// Whether events are read: not in an error state.
    pub fn reads_events(&self) -> (r: bool)
        ensures
            r == !(self.state is Error),
    {
        match self.state {
            InputState::Error(_) => false,
            _ => true,
        }
    }

    /// Whether events read are passed on: only during a run.
    pub fn passes_events(&self) -> (r: bool)
        ensures
            r == (self.state is Running),
    {
        match self.state {
            InputState::Running => true,
            _ => false,
        }
    }

    /// Reading events failed: an error stops the input, the end of the data
    /// ends it.
    pub fn read_failed(&mut self, failure: ReadFailure) -> (notices: Vec<Notice>)
        ensures
            match failure {
                ReadFailure::Failed(e) => error_state(final(self).state, "Error reading events: "@, e@),
                ReadFailure::NoMoreData => final(self).state == InputState::Ended,
            },
            notices@ == change_notices(old(self).state, final(self).state),
    {
        let mut notices: Vec<Notice> = Vec::new();
        match failure {
            ReadFailure::Failed(e) => {
                let msg = concat("Error reading events: ", e.as_str());
                self.set_state(InputState::Error(msg), &mut notices);
            },
            ReadFailure::NoMoreData => {
                self.set_state(InputState::Ended, &mut notices);
            },
        }
        assert(notices@ =~= change_notices(old(self).state, self.state));
        notices
    }

    /// A command arrives.  Start and stop are refused in an error state,
    /// which only a reset leaves; starting a running input stops it first;
    /// stopping an ended input makes it idle; resetting an input that is
    /// not in an error state does nothing; other commands go to the input.
    pub fn command(&mut self, cmd: ControlCommand) -> (step: Step)
        ensures
            match (cmd, old(self).state) {
                (ControlCommand::Start, InputState::Error(e)) => {
                    &&& error_reply(step.next, "Cannot start input in error state. Last error: "@, e@)
                    &&& final(self).state == old(self).state
                    &&& step.notices@.len() == 0
                },
                (ControlCommand::Start, InputState::Running) => {
                    &&& step.next == Next::Perform(Phase::StopForRestart)
                    &&& final(self).state == old(self).state
                    &&& step.notices@.len() == 0
                },
                (ControlCommand::Start, _) => {
                    &&& step.next == Next::Perform(Phase::Start)
                    &&& final(self).state == old(self).state
                    &&& step.notices@.len() == 0
                },
                (ControlCommand::Stop, InputState::Error(e)) => {
                    &&& error_reply(step.next, "Cannot stop input in error state. Last error: "@, e@)
                    &&& final(self).state == old(self).state
                    &&& step.notices@.len() == 0
                },
                (ControlCommand::Stop, InputState::Idle) => {
                    &&& step.next == Next::Reply(Reply::Done)
                    &&& final(self).state == old(self).state
                    &&& step.notices@.len() == 0
                },
                (ControlCommand::Stop, InputState::Ended) => {
                    &&& step.next == Next::Reply(Reply::Done)
                    &&& final(self).state == InputState::Idle
                    &&& step.notices@ == change_notices(old(self).state, InputState::Idle)
                },
                (ControlCommand::Stop, InputState::Running) => {
                    &&& step.next == Next::Perform(Phase::Stop)
                    &&& final(self).state == old(self).state
                    &&& step.notices@.len() == 0
                },
                (ControlCommand::Reset, InputState::Error(_)) => {
                    &&& step.next == Next::Perform(Phase::Reset)
                    &&& final(self).state == old(self).state
                    &&& step.notices@.len() == 0
                },
                (ControlCommand::Reset, _) => {
                    &&& step.next == Next::Reply(Reply::Done)
                    &&& final(self).state == old(self).state
                    &&& step.notices@.len() == 0
                },
                (ControlCommand::Other, _) => {
                    &&& step.next == Next::Perform(Phase::Handle)
                    &&& final(self).state == old(self).state
                    &&& step.notices@.len() == 0
                },
            },
    {
        let mut notices: Vec<Notice> = Vec::new();
        let next = match cmd {
            ControlCommand::Start => match &self.state {
                InputState::Error(e) => Next::Reply(
                    Reply::Error(concat("Cannot start input in error state. Last error: ", e.as_str())),
                ),
                InputState::Running => Next::Perform(Phase::StopForRestart),
                _ => Next::Perform(Phase::Start),
            },
            ControlCommand::Stop => match &self.state {
                InputState::Error(e) => Next::Reply(
                    Reply::Error(concat("Cannot stop input in error state. Last error: ", e.as_str())),
                ),
                InputState::Idle => Next::Reply(Reply::Done),
                InputState::Ended => {
                    self.set_state(InputState::Idle, &mut notices);
                    Next::Reply(Reply::Done)
                },
                InputState::Running => Next::Perform(Phase::Stop),
            },
            ControlCommand::Reset => match &self.state {
                InputState::Error(_) => Next::Perform(Phase::Reset),
                _ => Next::Reply(Reply::Done),
            },
            ControlCommand::Other => Next::Perform(Phase::Handle),
        };
        assert(old(self).state is Ended && cmd == ControlCommand::Stop ==> notices@ =~= change_notices(old(self).state, InputState::Idle));
        Step { notices, next }
    }

    /// The operation `phase` ended with `result` (an error message on
    /// failure).  A failed operation puts the input in an error state and
    /// answers with the error, except a failed command handling, which only
    /// answers.  A successful stop for a restart goes on to the start; the
    /// others end in the state the operation leads to.
    pub fn finished(&mut self, phase: Phase, result: Result<(), String>) -> (step: Step)
        ensures
            match result {
                Err(e) => match phase {
                    Phase::Handle => {
                        &&& error_reply(step.next, "Failed to handle command: "@, e@)
                        &&& final(self).state == old(self).state
                        &&& step.notices@.len() == 0
                    },
                    _ => {
                        let prefix = match phase {
                            Phase::StopForRestart => "Failed to stop input for restart: "@,
                            Phase::Start => "Failed to start input: "@,
                            Phase::Stop => "Failed to stop input: "@,
                            _ => "Failed to reset input: "@,
                        };
                        &&& error_state(final(self).state, prefix, e@)
                        &&& error_reply(step.next, prefix, e@)
                        &&& step.notices@ == change_notices(old(self).state, final(self).state)
                    },
                },
                Ok(()) => match phase {
                    Phase::StopForRestart => {
                        &&& final(self).state == InputState::Idle
                        &&& step.next == Next::Perform(Phase::Start)
                        &&& step.notices@ == change_notices(old(self).state, InputState::Idle)
                    },
                    Phase::Start => {
                        &&& final(self).state == InputState::Running
                        &&& step.next == Next::Reply(Reply::Done)
                        &&& step.notices@ == change_notices(old(self).state, InputState::Running)
                    },
                    Phase::Handle => {
                        &&& final(self).state == old(self).state
                        &&& step.next == Next::Reply(Reply::Forward)
                        &&& step.notices@.len() == 0
                    },
                    _ => {
                        &&& final(self).state == InputState::Idle
                        &&& step.next == Next::Reply(Reply::Done)
                        &&& step.notices@ == change_notices(old(self).state, InputState::Idle)
                    },
                },
            },
    {
        let mut notices: Vec<Notice> = Vec::new();
        let next = match result {
            Err(e) => match phase {
                Phase::Handle => Next::Reply(Reply::Error(concat("Failed to handle command: ", e.as_str()))),
                _ => {
                    let msg = match phase {
                        Phase::StopForRestart => concat("Failed to stop input for restart: ", e.as_str()),
                        Phase::Start => concat("Failed to start input: ", e.as_str()),
                        Phase::Stop => concat("Failed to stop input: ", e.as_str()),
                        _ => concat("Failed to reset input: ", e.as_str()),
                    };
                    let reply = msg.clone();
                    self.set_state(InputState::Error(msg), &mut notices);
                    Next::Reply(Reply::Error(reply))
                },
            },
            Ok(()) => match phase {
                Phase::StopForRestart => {
                    self.set_state(InputState::Idle, &mut notices);
                    Next::Perform(Phase::Start)
                },
                Phase::Start => {
                    self.set_state(InputState::Running, &mut notices);
                    Next::Reply(Reply::Done)
                },
                Phase::Handle => Next::Reply(Reply::Forward),
                _ => {
                    self.set_state(InputState::Idle, &mut notices);
                    Next::Reply(Reply::Done)
                },
            },
        };
        proof {
            assert(seq![] + change_notices(old(self).state, self.state) =~= change_notices(old(self).state, self.state));
        }
        Step { notices, next }
    }
}

} // verus!
