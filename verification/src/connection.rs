//! The life of one connection: a handshake, then messages forwarded as events
//! until the first failure, then a single disconnect.
//!
//! The state machine here decides; its driver performs the reads and the
//! deliveries and reports each outcome as a `ConnectionInput`.

use vstd::prelude::*;
use crate::error::TransportError;
use crate::event::{EventKind, NetworkEvent, SocketAddress};

verus! {

/// Where a connection stands.
#[derive(Clone, Copy, Debug, PartialEq, Eq, Structural)]
pub enum ConnectionState {
    /// Established, the peer's address not yet received.
    Handshaking,
    /// Handshake done: every received message becomes an event.
    Forwarding,
    /// Given up or ended. Nothing is reported any more.
    Closed,
}

/// What the driver of a connection reports to its state machine.
pub enum ConnectionInput<T, M> {
    /// The peer's handshake arrived. `transport` is the handle that the
    /// application will send through, `my_socket_addr` the address that the
    /// peer reported for this end.
    HandshakeCompleted { transport: T, my_socket_addr: SocketAddress },
    /// The handshake did not arrive, or something else came in its place.
    HandshakeFailed,
    /// A message of the expected family was received.
    Received(M),
    /// A receive failed.
    ReceiveFailed(TransportError),
    /// The last event could not be delivered: the application's end of the
    /// event sink is gone.
    SinkClosed,
}

impl<T, M> ConnectionInput<T, M> {
    /// The input that reports the outcome of one typed receive.
    pub fn from_receive(outcome: Result<M, TransportError>) -> (input: Self)
        ensures
            input == match outcome {
                Ok(message) => ConnectionInput::<T, M>::Received(message),
                Err(error) => ConnectionInput::<T, M>::ReceiveFailed(error),
            },
    {
        match outcome {
            Ok(message) => ConnectionInput::Received(message),
            Err(error) => ConnectionInput::ReceiveFailed(error),
        }
    }

    /// The error with which a reader gives up on this input, if it does: the
    /// failure of the receive, or an aborted connection when the sink is gone.
    pub open spec fn spec_failure(self) -> Option<TransportError> {
        match self {
            ConnectionInput::ReceiveFailed(error) => Some(error),
            ConnectionInput::SinkClosed => Some(TransportError::ConnectionAborted),
            _ => None,
        }
    }

    /// The error with which a reader gives up on this input, if it does.
    pub fn failure(&self) -> (error: Option<TransportError>)
        ensures
            error == self.spec_failure(),
    {
        match self {
            ConnectionInput::ReceiveFailed(error) => Some(*error),
            ConnectionInput::SinkClosed => Some(TransportError::ConnectionAborted),
            _ => None,
        }
    }
}

impl ConnectionState {
    /// The state that follows `self` on `input`. An input that does not
    /// belong to the state leaves it as it is.
    pub open spec fn next<T, M>(self, input: ConnectionInput<T, M>) -> ConnectionState {
        match (self, input) {
            (
                ConnectionState::Handshaking,
                ConnectionInput::HandshakeCompleted { .. },
            ) => ConnectionState::Forwarding,
            (ConnectionState::Handshaking, ConnectionInput::HandshakeFailed) => ConnectionState::Closed,
            (ConnectionState::Forwarding, ConnectionInput::Received(_)) => ConnectionState::Forwarding,
            (ConnectionState::Forwarding, ConnectionInput::ReceiveFailed(_)) => ConnectionState::Closed,
            (ConnectionState::Forwarding, ConnectionInput::SinkClosed) => ConnectionState::Closed,
            _ => self,
        }
    }

    /// The event that `input` makes a connection in state `self` report, if
    /// any. A failed handshake reports nothing: the connection never was.
    pub open spec fn emits<T, M>(self, input: ConnectionInput<T, M>) -> Option<NetworkEvent<T, M>> {
        match (self, input) {
            (
                ConnectionState::Handshaking,
                ConnectionInput::HandshakeCompleted { transport, my_socket_addr },
            ) => Some(NetworkEvent::Connect { transport, my_socket_addr }),
            (ConnectionState::Forwarding, ConnectionInput::Received(message)) => Some(
                NetworkEvent::Message(message),
            ),
            (ConnectionState::Forwarding, ConnectionInput::ReceiveFailed(_)) => Some(
                NetworkEvent::Disconnect,
            ),
            (ConnectionState::Forwarding, ConnectionInput::SinkClosed) => Some(
                NetworkEvent::Disconnect,
            ),
            _ => None,
        }
    }

    /// The state in which every connection starts.
    pub fn new() -> (state: ConnectionState)
        ensures
            state == ConnectionState::Handshaking,
    {
        ConnectionState::Handshaking
    }

    /// Whether the connection has ended.
    pub fn is_closed(&self) -> (closed: bool)
        ensures
            closed == (*self == ConnectionState::Closed),
    {
        match self {
            ConnectionState::Closed => true,
            _ => false,
        }
    }

    /// Takes one input: gives the state that follows and the event to deliver
    /// to the application, if the input calls for one.
    pub fn step<T, M>(self, input: ConnectionInput<T, M>) -> (result: (
        ConnectionState,
        Option<NetworkEvent<T, M>>,
    ))
        ensures
            result.0 == self.next(input),
            result.1 == self.emits(input),
    {
        match self {
            ConnectionState::Handshaking => match input {
                ConnectionInput::HandshakeCompleted { transport, my_socket_addr } => (
                    ConnectionState::Forwarding,
                    Some(NetworkEvent::Connect { transport, my_socket_addr }),
                ),
                ConnectionInput::HandshakeFailed => (ConnectionState::Closed, None),
                _ => (ConnectionState::Handshaking, None),
            },
            ConnectionState::Forwarding => match input {
                ConnectionInput::Received(message) => (
                    ConnectionState::Forwarding,
                    Some(NetworkEvent::Message(message)),
                ),
                ConnectionInput::ReceiveFailed(_) => (
                    ConnectionState::Closed,
                    Some(NetworkEvent::Disconnect),
                ),
                ConnectionInput::SinkClosed => (
                    ConnectionState::Closed,
                    Some(NetworkEvent::Disconnect),
                ),
                _ => (ConnectionState::Forwarding, None),
            },
            ConnectionState::Closed => (ConnectionState::Closed, None),
        }
    }
}

/// The state of a connection that started in `start` and took `inputs` in
/// order.
pub open spec fn state_after<T, M>(
    start: ConnectionState,
    inputs: Seq<ConnectionInput<T, M>>,
) -> ConnectionState
    decreases inputs.len(),
{
    if inputs.len() == 0 {
        start
    } else {
        state_after(start.next(inputs[0]), inputs.drop_first())
    }
}

/// The events that a connection reports, in order, when it starts in `start`
/// and takes `inputs` in order.
pub open spec fn events_of<T, M>(
    start: ConnectionState,
    inputs: Seq<ConnectionInput<T, M>>,
) -> Seq<NetworkEvent<T, M>>
    decreases inputs.len(),
{
    if inputs.len() == 0 {
        Seq::empty()
    } else {
        let rest = events_of(start.next(inputs[0]), inputs.drop_first());
        match start.emits(inputs[0]) {
            Some(event) => seq![event] + rest,
            None => rest,
        }
    }
}

/// Taking `first` and then `second` is taking the two in a row.
pub proof fn lemma_inputs_concat<T, M>(
    start: ConnectionState,
    first: Seq<ConnectionInput<T, M>>,
    second: Seq<ConnectionInput<T, M>>,
)
    ensures
        state_after(start, first + second) == state_after(state_after(start, first), second),
        events_of(start, first + second) == events_of(start, first) + events_of(
            state_after(start, first),
            second,
        ),
    decreases first.len(),
{
    if first.len() == 0 {
        assert(first + second =~= second);
        assert(events_of(start, first) + events_of(start, second) =~= events_of(start, second));
    } else {
        let all = first + second;
        assert(all[0] == first[0]);
        assert(all.drop_first() =~= first.drop_first() + second);
        lemma_inputs_concat(start.next(first[0]), first.drop_first(), second);
        let rest_first = events_of(start.next(first[0]), first.drop_first());
        let rest_second = events_of(state_after(start, first), second);
        match start.emits(first[0]) {
            Some(event) => {
                assert(seq![event] + (rest_first + rest_second) =~= (seq![event] + rest_first)
                    + rest_second);
            },
            None => {},
        }
    }
}

/// Takes all of `inputs` in order, as the reader of a connection does over
/// its life: gives the state reached and the events to deliver, in order.
/// For a connection taken from its start the events keep the order of a
/// connection's life.
pub fn run<T, M>(start: ConnectionState, inputs: Vec<ConnectionInput<T, M>>) -> (result: (
    ConnectionState,
    Vec<NetworkEvent<T, M>>,
))
    ensures
        result.0 == state_after(start, inputs@),
        result.1@ == events_of(start, inputs@),
        start == ConnectionState::Handshaking ==> is_ordered_lifecycle(result.1@, result.0),
{
    let ghost all = inputs@;
    let mut state = start;
    let mut events: Vec<NetworkEvent<T, M>> = Vec::new();
    for input in iter: inputs
        invariant
            iter.seq() == all,
            state == state_after(start, all.take(iter.index() as int)),
            events@ == events_of(start, all.take(iter.index() as int)),
    {
        proof {
            let done = all.take(iter.index() as int);
            let one = seq![input];
            lemma_inputs_concat(start, done, one);
            assert(all.take(iter.index() + 1) =~= done + one);
            assert(one.drop_first() =~= Seq::<ConnectionInput<T, M>>::empty());
            reveal_with_fuel(state_after, 2);
            reveal_with_fuel(events_of, 2);
        }
        let (next, event) = state.step(input);
        state = next;
        match event {
            Some(event) => {
                events.push(event);
            },
            None => {},
        }
    }
    proof {
        assert(all.take(all.len() as int) =~= all);
        lemma_event_order(all);
    }
    (state, events)
}

/// Every event of `events` at an index from `from` up to `to` is a message.
pub open spec fn all_messages<T, M>(events: Seq<NetworkEvent<T, M>>, from: int, to: int) -> bool {
    forall|i: int| from <= i < to ==> (#[trigger] events[i]).spec_kind() == EventKind::Message
}

/// The order that the events of one connection keep, for a connection that
/// has reached `state`: none while it shakes hands; one connect and then
/// messages only while it forwards; and once it is closed either none at all
/// (the handshake failed) or one connect, messages, and one disconnect at the
/// end.
pub open spec fn is_ordered_lifecycle<T, M>(
    events: Seq<NetworkEvent<T, M>>,
    state: ConnectionState,
) -> bool {
    match state {
        ConnectionState::Handshaking => events.len() == 0,
        ConnectionState::Forwarding => {
            &&& events.len() >= 1
            &&& events[0].spec_kind() == EventKind::Connect
            &&& all_messages(events, 1, events.len() as int)
        },
        ConnectionState::Closed => {
            ||| events.len() == 0
            ||| {
                &&& events.len() >= 2
                &&& events[0].spec_kind() == EventKind::Connect
                &&& events.last().spec_kind() == EventKind::Disconnect
                &&& all_messages(events, 1, events.len() - 1)
            }
        },
    }
}

/// The order that the events keep after the connect, for a connection that
/// has reached `state`.
pub open spec fn is_ordered_tail<T, M>(
    events: Seq<NetworkEvent<T, M>>,
    state: ConnectionState,
) -> bool {
    match state {
        ConnectionState::Handshaking => false,
        ConnectionState::Forwarding => all_messages(events, 0, events.len() as int),
        ConnectionState::Closed => {
            &&& events.len() >= 1
            &&& events.last().spec_kind() == EventKind::Disconnect
            &&& all_messages(events, 0, events.len() - 1)
        },
    }
}

/// A closed connection stays closed and reports nothing, whatever comes in.
pub proof fn lemma_closed_is_silent<T, M>(inputs: Seq<ConnectionInput<T, M>>)
    ensures
        state_after(ConnectionState::Closed, inputs) == ConnectionState::Closed,
        events_of(ConnectionState::Closed, inputs).len() == 0,
    decreases inputs.len(),
{
    if inputs.len() > 0 {
        lemma_closed_is_silent(inputs.drop_first());
    }
}

/// A forwarding connection reports messages only, until one disconnect ends
/// it.
pub proof fn lemma_forwarding_order<T, M>(inputs: Seq<ConnectionInput<T, M>>)
    ensures
        is_ordered_tail(
            events_of(ConnectionState::Forwarding, inputs),
            state_after(ConnectionState::Forwarding, inputs),
        ),
    decreases inputs.len(),
{
    if inputs.len() > 0 {
        let start = ConnectionState::Forwarding;
        let rest_inputs = inputs.drop_first();
        let events = events_of(start, inputs);
        match start.next(inputs[0]) {
            ConnectionState::Forwarding => {
                lemma_forwarding_order(rest_inputs);
                let rest = events_of(start, rest_inputs);
                match start.emits(inputs[0]) {
                    Some(event) => {
                        assert(events == seq![event] + rest);
                        assert(event.spec_kind() == EventKind::Message);
                        assert forall|i: int| 0 < i < events.len() implies events[i] == rest[i - 1] by {}
                    },
                    None => {},
                }
            },
            ConnectionState::Closed => {
                lemma_closed_is_silent(rest_inputs);
                let rest = events_of(ConnectionState::Closed, rest_inputs);
                assert(events =~= seq![NetworkEvent::<T, M>::Disconnect]);
            },
            ConnectionState::Handshaking => {},
        }
    }
}

/// The events of one connection come in order: exactly one connect, then
/// messages, then exactly one disconnect, and nothing after it. This holds for
/// every sequence of inputs, of a connection at every point of its life. A
/// connect can only be the first event and a disconnect only the last, so
/// there are never two of either and never a message after the disconnect.
pub proof fn lemma_event_order<T, M>(inputs: Seq<ConnectionInput<T, M>>)
    ensures
        is_ordered_lifecycle(
            events_of(ConnectionState::Handshaking, inputs),
            state_after(ConnectionState::Handshaking, inputs),
        ),
        forall|i: int|
            0 <= i < events_of(ConnectionState::Handshaking, inputs).len() && (
            #[trigger] events_of(ConnectionState::Handshaking, inputs)[i]).spec_kind()
                == EventKind::Connect ==> i == 0,
        forall|i: int|
            0 <= i < events_of(ConnectionState::Handshaking, inputs).len() && (
            #[trigger] events_of(ConnectionState::Handshaking, inputs)[i]).spec_kind()
                == EventKind::Disconnect ==> i == events_of(
                ConnectionState::Handshaking,
                inputs,
            ).len() - 1 && state_after(ConnectionState::Handshaking, inputs)
                == ConnectionState::Closed,
    decreases inputs.len(),
{
    if inputs.len() > 0 {
        let start = ConnectionState::Handshaking;
        let rest_inputs = inputs.drop_first();
        let events = events_of(start, inputs);
        match start.next(inputs[0]) {
            ConnectionState::Handshaking => {
                lemma_event_order(rest_inputs);
            },
            ConnectionState::Forwarding => {
                lemma_forwarding_order(rest_inputs);
                let rest = events_of(ConnectionState::Forwarding, rest_inputs);
                let first = start.emits(inputs[0]).unwrap();
                assert(events == seq![first] + rest);
                assert(first.spec_kind() == EventKind::Connect);
                assert forall|i: int| 0 < i < events.len() implies events[i] == rest[i - 1] by {}
            },
            ConnectionState::Closed => {
                lemma_closed_is_silent(rest_inputs);
            },
        }
    }
}

} // verus!
