use message_transport::error::TransportError;
use message_transport::message::{
    client_receive, decoded_envelope, server_receive, Envelope, HandshakeStep, Role,
};

#[derive(Clone, Debug, PartialEq)]
enum FromClient {
    Ping,
    Say(String),
}

#[derive(Clone, Debug, PartialEq)]
enum FromServer {
    Pong,
    Score(u32),
}

type Wire = Envelope<FromClient, FromServer>;

#[test]
fn peer_of_a_role() {
    assert_eq!(Role::Client.peer(), Role::Server);
    assert_eq!(Role::Server.peer(), Role::Client);
}

#[test]
fn envelope_knows_its_origin() {
    assert_eq!(Wire::from_client(FromClient::Ping).origin(), Role::Client);
    assert_eq!(Wire::from_server(FromServer::Pong).origin(), Role::Server);
}

#[test]
fn narrowing_gives_the_message_back() {
    let said = FromClient::Say("hi".to_string());
    let envelope = Wire::from_client(said.clone());
    assert_eq!(envelope.clone().into_client(), Ok(said.clone()));
    assert_eq!(envelope.into_client(), Ok(said));
    assert_eq!(Wire::from_server(FromServer::Score(7)).into_server(), Ok(FromServer::Score(7)));
}

#[test]
fn narrowing_rejects_the_other_role() {
    assert_eq!(Wire::from_server(FromServer::Pong).into_client(), Err(TransportError::WrongRole));
    assert_eq!(Wire::from_client(FromClient::Ping).into_server(), Err(TransportError::WrongRole));
}

#[test]
fn server_message_on_a_client_framed_channel_is_rejected() {
    let decoded: Result<Wire, TransportError> = Ok(Wire::from_server(FromServer::Score(1)));
    assert_eq!(server_receive(decoded), Err(TransportError::WrongRole));
    let decoded: Result<Wire, TransportError> = Ok(Wire::from_client(FromClient::Ping));
    assert_eq!(client_receive(decoded), Err(TransportError::WrongRole));
}

#[test]
fn typed_receive_accepts_the_expected_role() {
    let decoded: Result<Wire, TransportError> = Ok(Wire::from_client(FromClient::Ping));
    assert_eq!(server_receive(decoded), Ok(FromClient::Ping));
    let decoded: Result<Wire, TransportError> = Ok(Wire::from_server(FromServer::Pong));
    assert_eq!(client_receive(decoded), Ok(FromServer::Pong));
}

#[test]
fn typed_receive_passes_channel_failures_on() {
    for error in [
        TransportError::Io,
        TransportError::UnexpectedEof,
        TransportError::Decoding,
        TransportError::Oversized,
    ] {
        let decoded: Result<Wire, TransportError> = Err(error);
        assert_eq!(server_receive(decoded), Err(error));
        let decoded: Result<Wire, TransportError> = Err(error);
        assert_eq!(client_receive(decoded), Err(error));
    }
}

#[test]
fn server_speaks_first_in_the_handshake() {
    assert_eq!(
        Role::Server.handshake_steps(),
        [HandshakeStep::SendAddress, HandshakeStep::ReceiveAddress]
    );
    assert_eq!(
        Role::Client.handshake_steps(),
        [HandshakeStep::ReceiveAddress, HandshakeStep::SendAddress]
    );
}

#[test]
fn undecodable_payload_is_a_decoding_failure() {
    let missing: Option<Wire> = None;
    assert!(matches!(decoded_envelope(missing), Err(TransportError::Decoding)));
    let present = decoded_envelope(Some(Wire::from_client(FromClient::Ping)));
    assert!(matches!(present, Ok(Envelope::Client(FromClient::Ping))));
    let missing: Option<Wire> = None;
    assert_eq!(server_receive(decoded_envelope(missing)), Err(TransportError::Decoding));
}
