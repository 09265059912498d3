//! The reconnecting client: connect, shake hands, forward messages, and on
//! any end of the connection start over, until told to stop.
//!
//! The state says what the driver has to do next (`task`); the driver does it
//! and reports the outcome as a `ClientInput`.

use vstd::prelude::*;
use crate::connection::{ConnectionInput, ConnectionState};
use crate::event::{follows_protocol, NetworkEvent};

verus! {

/// Where a client stands.
#[derive(Clone, Copy, Debug, PartialEq, Eq, Structural)]
pub enum ClientState {
    /// Between attempts: the stop signal is looked at here, and only here.
    Idle,
    /// Trying to reach the server.
    Connecting,
    /// Connected, the server's handshake not yet received.
    Handshaking,
    /// Handshake done: every received message becomes an event.
    Forwarding,
    /// Told to stop. Nothing is attempted any more.
    Stopped,
}

/// What the driver of a client does next.
#[derive(Clone, Copy, Debug, PartialEq, Eq, Structural)]
pub enum ClientTask {
    /// Look at the stop signal and report `StopChecked`.
    CheckStop,
    /// Connect to the server and report `Connected` or `ConnectFailed`.
    Connect,
    /// Receive the server's handshake, answer it, and report how it went.
    Handshake,
    /// Receive one message and report how it went.
    Receive,
    /// Leave the loop.
    Exit,
}

/// What the driver of a client reports to its state machine.
pub enum ClientInput<T, M> {
    /// The stop signal was looked at.
    StopChecked { stop_requested: bool },
    /// The connection attempt succeeded.
    Connected,
    /// The connection attempt failed.
    ConnectFailed,
    /// Something happened on the established connection.
    Connection(ConnectionInput<T, M>),
}

impl ClientState {
    /// The client state for a connection in state `connection`: a closed
    /// connection sends the client back to idle, from where it retries.
    pub open spec fn of_connection(connection: ConnectionState) -> ClientState {
        match connection {
            ConnectionState::Handshaking => ClientState::Handshaking,
            ConnectionState::Forwarding => ClientState::Forwarding,
            ConnectionState::Closed => ClientState::Idle,
        }
    }

    /// The state that follows `self` on `input`. An input that does not
    /// belong to the state leaves it as it is.
    pub open spec fn next<T, M>(self, input: ClientInput<T, M>) -> ClientState {
        match (self, input) {
            (ClientState::Idle, ClientInput::StopChecked { stop_requested }) => if stop_requested {
                ClientState::Stopped
            } else {
                ClientState::Connecting
            },
            (ClientState::Connecting, ClientInput::Connected) => ClientState::Handshaking,
            (ClientState::Connecting, ClientInput::ConnectFailed) => ClientState::Idle,
            (ClientState::Handshaking, ClientInput::Connection(input)) => Self::of_connection(
                ConnectionState::Handshaking.next(input),
            ),
            (ClientState::Forwarding, ClientInput::Connection(input)) => Self::of_connection(
                ConnectionState::Forwarding.next(input),
            ),
            _ => self,
        }
    }

    /// The event that `input` makes a client in state `self` report, if any:
    /// what its connection reports.
    pub open spec fn emits<T, M>(self, input: ClientInput<T, M>) -> Option<NetworkEvent<T, M>> {
        match (self, input) {
            (
                ClientState::Handshaking,
                ClientInput::Connection(input),
            ) => ConnectionState::Handshaking.emits(input),
            (
                ClientState::Forwarding,
                ClientInput::Connection(input),
            ) => ConnectionState::Forwarding.emits(input),
            _ => None,
        }
    }

    /// What the driver does next in state `self`.
    pub open spec fn spec_task(self) -> ClientTask {
        match self {
            ClientState::Idle => ClientTask::CheckStop,
            ClientState::Connecting => ClientTask::Connect,
            ClientState::Handshaking => ClientTask::Handshake,
            ClientState::Forwarding => ClientTask::Receive,
            ClientState::Stopped => ClientTask::Exit,
        }
    }

    /// The state in which every client starts.
    pub fn new() -> (state: ClientState)
        ensures
            state == ClientState::Idle,
    {
        ClientState::Idle
    }

    /// What the driver does next in state `self`.
    pub fn task(&self) -> (task: ClientTask)
        ensures
            task == self.spec_task(),
    {
        match self {
            ClientState::Idle => ClientTask::CheckStop,
            ClientState::Connecting => ClientTask::Connect,
            ClientState::Handshaking => ClientTask::Handshake,
            ClientState::Forwarding => ClientTask::Receive,
            ClientState::Stopped => ClientTask::Exit,
        }
    }

    /// Takes one input: gives the state that follows and the event to deliver
    /// to the application, if the input calls for one.
    pub fn step<T, M>(self, input: ClientInput<T, M>) -> (result: (
        ClientState,
        Option<NetworkEvent<T, M>>,
    ))
        ensures
            result.0 == self.next(input),
            result.1 == self.emits(input),
    {
        match self {
            ClientState::Idle => match input {
                ClientInput::StopChecked { stop_requested } => if stop_requested {
                    (ClientState::Stopped, None)
                } else {
                    (ClientState::Connecting, None)
                },
                _ => (ClientState::Idle, None),
            },
            ClientState::Connecting => match input {
                ClientInput::Connected => (ClientState::Handshaking, None),
                ClientInput::ConnectFailed => (ClientState::Idle, None),
                _ => (ClientState::Connecting, None),
            },
            ClientState::Handshaking => match input {
                ClientInput::Connection(input) => {
                    let (connection, event) = ConnectionState::Handshaking.step(input);
                    (Self::for_connection(connection), event)
                },
                _ => (ClientState::Handshaking, None),
            },
            ClientState::Forwarding => match input {
                ClientInput::Connection(input) => {
                    let (connection, event) = ConnectionState::Forwarding.step(input);
                    (Self::for_connection(connection), event)
                },
                _ => (ClientState::Forwarding, None),
            },
            ClientState::Stopped => (ClientState::Stopped, None),
        }
    }

    /// The client state for a connection in state `connection`.
    pub fn for_connection(connection: ConnectionState) -> (state: ClientState)
        ensures
            state == Self::of_connection(connection),
    {
        match connection {
            ConnectionState::Handshaking => ClientState::Handshaking,
            ConnectionState::Forwarding => ClientState::Forwarding,
            ConnectionState::Closed => ClientState::Idle,
        }
    }
}

/// The state of a client that started in `start` and took `inputs` in order.
pub open spec fn client_state_after<T, M>(
    start: ClientState,
    inputs: Seq<ClientInput<T, M>>,
) -> ClientState
    decreases inputs.len(),
{
    if inputs.len() == 0 {
        start
    } else {
        client_state_after(start.next(inputs[0]), inputs.drop_first())
    }
}

/// The events that a client reports, in order, when it starts in `start` and
/// takes `inputs` in order.
pub open spec fn client_events_of<T, M>(
    start: ClientState,
    inputs: Seq<ClientInput<T, M>>,
) -> Seq<NetworkEvent<T, M>>
    decreases inputs.len(),
{
    if inputs.len() == 0 {
        Seq::empty()
    } else {
        let rest = client_events_of(start.next(inputs[0]), inputs.drop_first());
        match start.emits(inputs[0]) {
            Some(event) => seq![event] + rest,
            None => rest,
        }
    }
}

/// What the driver reports over `attempts` attempts in a row that each find
/// no stop signal and fail to connect.
pub open spec fn failed_attempts<T, M>(attempts: nat) -> Seq<ClientInput<T, M>>
    decreases attempts,
{
    if attempts == 0 {
        Seq::empty()
    } else {
        seq![
            ClientInput::<T, M>::StopChecked { stop_requested: false },
            ClientInput::<T, M>::ConnectFailed,
        ] + failed_attempts((attempts - 1) as nat)
    }
}

/// Taking `first` and then `second` is taking the two in a row.
pub proof fn lemma_client_inputs_concat<T, M>(
    start: ClientState,
    first: Seq<ClientInput<T, M>>,
    second: Seq<ClientInput<T, M>>,
)
    ensures
        client_state_after(start, first + second) == client_state_after(
            client_state_after(start, first),
            second,
        ),
        client_events_of(start, first + second) == client_events_of(start, first)
            + client_events_of(client_state_after(start, first), second),
    decreases first.len(),
{
    if first.len() == 0 {
        assert(first + second =~= second);
        assert(client_events_of(start, first) + client_events_of(start, second)
            =~= client_events_of(start, second));
    } else {
        let all = first + second;
        assert(all[0] == first[0]);
        assert(all.drop_first() =~= first.drop_first() + second);
        lemma_client_inputs_concat(start.next(first[0]), first.drop_first(), second);
        let rest_first = client_events_of(start.next(first[0]), first.drop_first());
        let rest_second = client_events_of(client_state_after(start, first), second);
        match start.emits(first[0]) {
            Some(event) => {
                assert(seq![event] + (rest_first + rest_second) =~= (seq![event] + rest_first)
                    + rest_second);
            },
            None => {},
        }
    }
}

/// A client that has failed to connect any number of times in a row is idle
/// again, has reported nothing, and on finding no stop signal connects once
/// more: it retries without end and without help. Only a stop signal, looked
/// at between two attempts, ends it.
pub proof fn lemma_reconnect_liveness<T, M>(attempts: nat)
    ensures
        client_state_after(ClientState::Idle, failed_attempts::<T, M>(attempts))
            == ClientState::Idle,
        client_events_of(ClientState::Idle, failed_attempts::<T, M>(attempts)).len() == 0,
        ClientState::Idle.next(ClientInput::<T, M>::StopChecked { stop_requested: false })
            == ClientState::Connecting,
        ClientState::Connecting.spec_task() == ClientTask::Connect,
        ClientState::Idle.next(ClientInput::<T, M>::StopChecked { stop_requested: true })
            == ClientState::Stopped,
        ClientState::Stopped.spec_task() == ClientTask::Exit,
    decreases attempts,
{
    if attempts > 0 {
        let round = seq![
            ClientInput::<T, M>::StopChecked { stop_requested: false },
            ClientInput::<T, M>::ConnectFailed,
        ];
        let rest = failed_attempts::<T, M>((attempts - 1) as nat);
        lemma_reconnect_liveness::<T, M>((attempts - 1) as nat);
        lemma_client_inputs_concat(ClientState::Idle, round, rest);
        reveal_with_fuel(client_state_after, 3);
        reveal_with_fuel(client_events_of, 3);
        assert(round.drop_first() =~= seq![ClientInput::<T, M>::ConnectFailed]);
        assert(round.drop_first().drop_first() =~= Seq::<ClientInput<T, M>>::empty());
        assert(client_state_after(ClientState::Idle, round) == ClientState::Idle);
        assert(client_events_of(ClientState::Idle, round).len() == 0);
    }
}

/// The client tries to connect only right after it has looked at the stop
/// signal and found none: no step but that one leads into `Connecting`.
pub proof fn lemma_stop_checked_before_connect<T, M>(state: ClientState, input: ClientInput<T, M>)
    requires
        state != ClientState::Connecting,
        state.next(input) == ClientState::Connecting,
    ensures
        state == ClientState::Idle,
        input == (ClientInput::<T, M>::StopChecked { stop_requested: false }),
{
}

/// Over the whole life of a client, through every reconnection, the events
/// keep the order of connections: a connect only while not connected, and
/// messages and one disconnect only after a connect. This holds for every
/// sequence of inputs and from every state.
pub proof fn lemma_client_event_order<T, M>(start: ClientState, inputs: Seq<ClientInput<T, M>>)
    ensures
        follows_protocol(start == ClientState::Forwarding, client_events_of(start, inputs)),
    decreases inputs.len(),
{
    if inputs.len() > 0 {
        let next = start.next(inputs[0]);
        let rest = client_events_of(next, inputs.drop_first());
        lemma_client_event_order(next, inputs.drop_first());
        match start.emits(inputs[0]) {
            Some(event) => {
                let events = seq![event] + rest;
                assert(events[0] == event);
                assert(events.drop_first() =~= rest);
            },
            None => {},
        }
    }
}

/// A stopped client stays stopped and reports nothing, whatever comes in.
pub proof fn lemma_stopped_is_final<T, M>(inputs: Seq<ClientInput<T, M>>)
    ensures
        client_state_after(ClientState::Stopped, inputs) == ClientState::Stopped,
        client_events_of(ClientState::Stopped, inputs).len() == 0,
    decreases inputs.len(),
{
    if inputs.len() > 0 {
        lemma_stopped_is_final(inputs.drop_first());
    }
}

} // verus!
