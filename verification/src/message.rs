//! The envelope: one type for both directions of a protocol, with an explicit
//! narrowing to the message family that a role may receive.

use vstd::prelude::*;
use crate::error::TransportError;

verus! {

/// A protocol's envelope type names its two message families.
pub trait ClientServerMessage {
    /// What clients send and servers receive.
    type ClientMessage;

    /// What servers send and clients receive.
    type ServerMessage;
}

/// The role that an endpoint of a connection plays.
#[derive(Clone, Copy, Debug, PartialEq, Eq, Structural)]
pub enum Role {
    Client,
    Server,
}

impl Role {
    /// The role at the other end of the connection.
    pub open spec fn spec_peer(self) -> Role {
        match self {
            Role::Client => Role::Server,
            Role::Server => Role::Client,
        }
    }

    /// The role at the other end of the connection.
    #[verifier::when_used_as_spec(spec_peer)]
    pub fn peer(self) -> (other: Role)
        ensures
            other == self.spec_peer(),
    {
        match self {
            Role::Client => Role::Server,
            Role::Server => Role::Client,
        }
    }
}

/// One of the two steps of the handshake that follows every new connection.
#[derive(Clone, Copy, Debug, PartialEq, Eq, Structural)]
pub enum HandshakeStep {
    /// Send the peer the address under which this end sees it.
    SendAddress,
    /// Receive the address under which the peer sees this end.
    ReceiveAddress,
}

impl Role {
    /// The two steps of the handshake, in the order in which the role takes
    /// them: the server speaks first, the client answers.
    pub open spec fn spec_handshake_steps(self) -> Seq<HandshakeStep> {
        match self {
            Role::Server => seq![HandshakeStep::SendAddress, HandshakeStep::ReceiveAddress],
            Role::Client => seq![HandshakeStep::ReceiveAddress, HandshakeStep::SendAddress],
        }
    }

    /// The two steps of the handshake, in the order in which the role takes
    /// them.
    pub fn handshake_steps(self) -> (steps: [HandshakeStep; 2])
        ensures
            steps@ == self.spec_handshake_steps(),
    {
        let steps = match self {
            Role::Server => [HandshakeStep::SendAddress, HandshakeStep::ReceiveAddress],
            Role::Client => [HandshakeStep::ReceiveAddress, HandshakeStep::SendAddress],
        };
        assert(steps@ =~= self.spec_handshake_steps());
        steps
    }
}

/// The two ends of a connection never wait for each other: at each step of
/// the handshake one end sends and the other receives.
pub proof fn lemma_handshake_steps_mirror(role: Role, step: int)
    requires
        0 <= step < 2,
    ensures
        role.spec_handshake_steps().len() == 2,
        role.spec_handshake_steps()[step] != role.spec_peer().spec_handshake_steps()[step],
{
}

/// A message of either family, as it travels in a frame.
#[derive(Debug)]
pub enum Envelope<C, S> {
    /// A client-originated message.
    Client(C),
    /// A server-originated message.
    Server(S),
}

impl<C: Clone, S: Clone> Clone for Envelope<C, S> {
    fn clone(&self) -> (copy: Self)
        ensures
            copy.spec_origin() == self.spec_origin(),
    {
        match self {
            Envelope::Client(message) => Envelope::Client(message.clone()),
            Envelope::Server(message) => Envelope::Server(message.clone()),
        }
    }
}

impl<C, S> ClientServerMessage for Envelope<C, S> {
    type ClientMessage = C;

    type ServerMessage = S;
}

impl<C, S> Envelope<C, S> {
    /// The role that sent the message inside.
    pub open spec fn spec_origin(self) -> Role {
        match self {
            Envelope::Client(_) => Role::Client,
            Envelope::Server(_) => Role::Server,
        }
    }

    /// What a server gets from receiving this envelope: the client message
    /// inside, or a refusal when the envelope is a server's.
    pub open spec fn narrow_to_client(self) -> Result<C, TransportError> {
        match self {
            Envelope::Client(message) => Ok(message),
            Envelope::Server(_) => Err(TransportError::WrongRole),
        }
    }

    /// What a client gets from receiving this envelope: the server message
    /// inside, or a refusal when the envelope is a client's.
    pub open spec fn narrow_to_server(self) -> Result<S, TransportError> {
        match self {
            Envelope::Server(message) => Ok(message),
            Envelope::Client(_) => Err(TransportError::WrongRole),
        }
    }

    /// Wraps a message that a client sends.
    pub fn from_client(message: C) -> (envelope: Self)
        ensures
            envelope == Envelope::<C, S>::Client(message),
    {
        Envelope::Client(message)
    }

    /// Wraps a message that a server sends.
    pub fn from_server(message: S) -> (envelope: Self)
        ensures
            envelope == Envelope::<C, S>::Server(message),
    {
        Envelope::Server(message)
    }

    /// The role that sent the message inside.
    pub fn origin(&self) -> (role: Role)
        ensures
            role == self.spec_origin(),
    {
        match self {
            Envelope::Client(_) => Role::Client,
            Envelope::Server(_) => Role::Server,
        }
    }

    /// Narrows to the client family, as a server's receive does. An envelope
    /// that carries a server message is refused with `WrongRole`, never
    /// coerced.
    pub fn into_client(self) -> (result: Result<C, TransportError>)
        ensures
            result == self.narrow_to_client(),
    {
        match self {
            Envelope::Client(message) => Ok(message),
            Envelope::Server(_) => Err(TransportError::WrongRole),
        }
    }

    /// Narrows to the server family, as a client's receive does. An envelope
    /// that carries a client message is refused with `WrongRole`, never
    /// coerced.
    pub fn into_server(self) -> (result: Result<S, TransportError>)
        ensures
            result == self.narrow_to_server(),
    {
        match self {
            Envelope::Server(message) => Ok(message),
            Envelope::Client(_) => Err(TransportError::WrongRole),
        }
    }
}

/// The envelope that a receive gives, given the outcome of decoding the
/// payload: the envelope, or a decoding failure when there is none.
pub fn decoded_envelope<C, S>(decoded: Option<Envelope<C, S>>) -> (result: Result<
    Envelope<C, S>,
    TransportError,
>)
    ensures
        result == match decoded {
            Some(envelope) => Ok::<Envelope<C, S>, TransportError>(envelope),
            None => Err(TransportError::Decoding),
        },
{
    match decoded {
        Some(envelope) => Ok(envelope),
        None => Err(TransportError::Decoding),
    }
}

/// The typed receive of a server: what it returns for each outcome of
/// reading and decoding one envelope. A failure of the channel is passed on;
/// a decoded envelope is narrowed to the client family.
pub fn server_receive<C, S>(decoded: Result<Envelope<C, S>, TransportError>) -> (result: Result<
    C,
    TransportError,
>)
    ensures
        result == match decoded {
            Ok(envelope) => envelope.narrow_to_client(),
            Err(error) => Err(error),
        },
{
    match decoded {
        Ok(envelope) => envelope.into_client(),
        Err(error) => Err(error),
    }
}

/// The typed receive of a client: what it returns for each outcome of
/// reading and decoding one envelope. A failure of the channel is passed on;
/// a decoded envelope is narrowed to the server family.
pub fn client_receive<C, S>(decoded: Result<Envelope<C, S>, TransportError>) -> (result: Result<
    S,
    TransportError,
>)
    ensures
        result == match decoded {
            Ok(envelope) => envelope.narrow_to_server(),
            Err(error) => Err(error),
        },
{
    match decoded {
        Ok(envelope) => envelope.into_server(),
        Err(error) => Err(error),
    }
}

/// What one role sends, the same role never accepts, and the other role gets
/// back unchanged.
pub proof fn lemma_direction_enforced<C, S>(client_message: C, server_message: S)
    ensures
        Envelope::<C, S>::Client(client_message).narrow_to_client() == Ok::<C, TransportError>(
            client_message,
        ),
        Envelope::<C, S>::Server(server_message).narrow_to_server() == Ok::<S, TransportError>(
            server_message,
        ),
        Envelope::<C, S>::Server(server_message).narrow_to_client() == Err::<C, TransportError>(
            TransportError::WrongRole,
        ),
        Envelope::<C, S>::Client(client_message).narrow_to_server() == Err::<S, TransportError>(
            TransportError::WrongRole,
        ),
{
}

} // verus!
