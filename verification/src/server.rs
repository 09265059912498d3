//! The listener of a message server: bind, then poll for connections, looking
//! at the stop signal before every attempt to accept, until told to stop or
//! until accepting fails for good.
//!
//! The state says what the driver has to do next (`task`); the driver does it
//! and reports the outcome as a `ListenerInput`.

use vstd::prelude::*;

verus! {

/// How long the listener sleeps when no connection is waiting, in
/// milliseconds.
pub const POLL_INTERVAL_MS: u64 = 100;

/// Where a listener stands.
#[derive(Clone, Copy, Debug, PartialEq, Eq, Structural)]
pub enum ListenerState {
    /// Not bound yet.
    Starting,
    /// Listening, at the head of the accept loop: the stop signal is looked
    /// at here, and only here.
    Polling,
    /// Listening, about to try to accept one connection.
    Accepting,
    /// Listening, nothing was waiting: about to sleep for one poll interval.
    Waiting,
    /// Listening, a connection was accepted: about to shake hands with it
    /// and to start its reader.
    Serving,
    /// Told to stop. Nothing is accepted any more.
    Stopped,
    /// Binding or accepting failed for good. Nothing is accepted any more.
    Failed,
}

/// What the driver of a listener does next.
#[derive(Clone, Copy, Debug, PartialEq, Eq, Structural)]
pub enum ListenerTask {
    /// Bind the listening socket, without blocking, and report `Bound` or
    /// `BindFailed`.
    Bind,
    /// Look at the stop signal and report `StopChecked`.
    CheckStop,
    /// Try once to accept and report `Accepted`, `WouldBlock` or
    /// `AcceptFailed`.
    Accept,
    /// Sleep for `POLL_INTERVAL_MS` and report `Slept`.
    Sleep,
    /// Shake hands with the accepted connection, start its reader if the
    /// handshake succeeds, and report `Served` either way.
    Serve,
    /// Leave the loop.
    Exit,
    /// Leave the loop with a failure that only a restart mends.
    Abort,
}

/// What the driver of a listener reports to its state machine.
#[derive(Clone, Copy, Debug, PartialEq, Eq, Structural)]
pub enum ListenerInput {
    Bound,
    BindFailed,
    StopChecked { stop_requested: bool },
    Accepted,
    WouldBlock,
    AcceptFailed,
    Slept,
    Served,
}

impl ListenerState {
    /// The state that follows `self` on `input`. An input that does not
    /// belong to the state leaves it as it is.
    pub open spec fn next(self, input: ListenerInput) -> ListenerState {
        match (self, input) {
            (ListenerState::Starting, ListenerInput::Bound) => ListenerState::Polling,
            (ListenerState::Starting, ListenerInput::BindFailed) => ListenerState::Failed,
            (ListenerState::Polling, ListenerInput::StopChecked { stop_requested }) => if stop_requested {
                ListenerState::Stopped
            } else {
                ListenerState::Accepting
            },
            (ListenerState::Accepting, ListenerInput::Accepted) => ListenerState::Serving,
            (ListenerState::Accepting, ListenerInput::WouldBlock) => ListenerState::Waiting,
            (ListenerState::Accepting, ListenerInput::AcceptFailed) => ListenerState::Failed,
            (ListenerState::Waiting, ListenerInput::Slept) => ListenerState::Polling,
            (ListenerState::Serving, ListenerInput::Served) => ListenerState::Polling,
            _ => self,
        }
    }

    /// What the driver does next in state `self`.
    pub open spec fn spec_task(self) -> ListenerTask {
        match self {
            ListenerState::Starting => ListenerTask::Bind,
            ListenerState::Polling => ListenerTask::CheckStop,
            ListenerState::Accepting => ListenerTask::Accept,
            ListenerState::Waiting => ListenerTask::Sleep,
            ListenerState::Serving => ListenerTask::Serve,
            ListenerState::Stopped => ListenerTask::Exit,
            ListenerState::Failed => ListenerTask::Abort,
        }
    }

    /// Whether the listening socket is open in state `self`.
    pub open spec fn spec_is_listening(self) -> bool {
        self == ListenerState::Polling || self == ListenerState::Accepting || self
            == ListenerState::Waiting || self == ListenerState::Serving
    }

    /// The state in which every listener starts.
    pub fn new() -> (state: ListenerState)
        ensures
            state == ListenerState::Starting,
    {
        ListenerState::Starting
    }

    /// What the driver does next in state `self`.
    pub fn task(&self) -> (task: ListenerTask)
        ensures
            task == self.spec_task(),
    {
        match self {
            ListenerState::Starting => ListenerTask::Bind,
            ListenerState::Polling => ListenerTask::CheckStop,
            ListenerState::Accepting => ListenerTask::Accept,
            ListenerState::Waiting => ListenerTask::Sleep,
            ListenerState::Serving => ListenerTask::Serve,
            ListenerState::Stopped => ListenerTask::Exit,
            ListenerState::Failed => ListenerTask::Abort,
        }
    }

    /// Whether the listening socket is open in state `self`.
    pub fn is_listening(&self) -> (listening: bool)
        ensures
            listening == self.spec_is_listening(),
    {
        match self {
            ListenerState::Polling => true,
            ListenerState::Accepting => true,
            ListenerState::Waiting => true,
            ListenerState::Serving => true,
            _ => false,
        }
    }

    /// Takes one input and gives the state that follows.
    pub fn step(self, input: ListenerInput) -> (state: ListenerState)
        ensures
            state == self.next(input),
    {
        match self {
            ListenerState::Starting => match input {
                ListenerInput::Bound => ListenerState::Polling,
                ListenerInput::BindFailed => ListenerState::Failed,
                _ => self,
            },
            ListenerState::Polling => match input {
                ListenerInput::StopChecked { stop_requested } => if stop_requested {
                    ListenerState::Stopped
                } else {
                    ListenerState::Accepting
                },
                _ => self,
            },
            ListenerState::Accepting => match input {
                ListenerInput::Accepted => ListenerState::Serving,
                ListenerInput::WouldBlock => ListenerState::Waiting,
                ListenerInput::AcceptFailed => ListenerState::Failed,
                _ => self,
            },
            ListenerState::Waiting => match input {
                ListenerInput::Slept => ListenerState::Polling,
                _ => self,
            },
            ListenerState::Serving => match input {
                ListenerInput::Served => ListenerState::Polling,
                _ => self,
            },
            ListenerState::Stopped => ListenerState::Stopped,
            ListenerState::Failed => ListenerState::Failed,
        }
    }
}

/// The state of a listener that started in `start` and took `inputs` in
/// order.
pub open spec fn listener_state_after(start: ListenerState, inputs: Seq<ListenerInput>) -> ListenerState
    decreases inputs.len(),
{
    if inputs.len() == 0 {
        start
    } else {
        listener_state_after(start.next(inputs[0]), inputs.drop_first())
    }
}

/// The listener tries to accept only right after it has looked at the stop
/// signal and found none: no step but that one leads into `Accepting`.
pub proof fn lemma_stop_checked_before_accept(state: ListenerState, input: ListenerInput)
    requires
        state != ListenerState::Accepting,
        state.next(input) == ListenerState::Accepting,
    ensures
        state == ListenerState::Polling,
        input == (ListenerInput::StopChecked { stop_requested: false }),
{
}

/// A stop signal that the listener finds ends it at that very step, and a
/// listener that has stopped or failed stays so, whatever comes in.
pub proof fn lemma_listener_ends(inputs: Seq<ListenerInput>)
    ensures
        ListenerState::Polling.next(ListenerInput::StopChecked { stop_requested: true })
            == ListenerState::Stopped,
        listener_state_after(ListenerState::Stopped, inputs) == ListenerState::Stopped,
        listener_state_after(ListenerState::Failed, inputs) == ListenerState::Failed,
    decreases inputs.len(),
{
    if inputs.len() > 0 {
        lemma_listener_ends(inputs.drop_first());
    }
}

} // verus!
