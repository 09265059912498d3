use message_transport::connection::{ConnectionInput, ConnectionState};
use message_transport::error::TransportError;
use message_transport::event::{IpAddress, NetworkEvent, SocketAddress};
use message_transport::frame::{decode_frame, encode_frame};
use message_transport::message::{client_receive, server_receive, Envelope};

type Wire = Envelope<String, String>;

fn to_payload(envelope: &Wire) -> Vec<u8> {
    let plain: (u32, String) = match envelope {
        Envelope::Client(text) => (0, text.clone()),
        Envelope::Server(text) => (1, text.clone()),
    };
    bincode::serialize(&plain).unwrap()
}

fn from_payload(payload: &[u8]) -> Result<Wire, TransportError> {
    match bincode::deserialize::<(u32, String)>(payload) {
        Ok((0, text)) => Ok(Envelope::Client(text)),
        Ok((1, text)) => Ok(Envelope::Server(text)),
        _ => Err(TransportError::Decoding),
    }
}

fn receive(wire: &mut Vec<u8>) -> Result<Wire, TransportError> {
    let (payload, taken) = decode_frame(wire)?;
    wire.drain(..taken);
    from_payload(&payload)
}

#[test]
fn ping_then_pong() {
    let address = SocketAddress::new(IpAddress::V4(0x0a00_0001), 9000);
    let mut to_server: Vec<u8> = Vec::new();
    let mut to_client: Vec<u8> = Vec::new();
    let (mut server, _) = ConnectionState::new().step(ConnectionInput::<u8, String>::HandshakeCompleted {
        transport: 0,
        my_socket_addr: address,
    });
    let (mut client, _) = ConnectionState::new().step(ConnectionInput::<u8, String>::HandshakeCompleted {
        transport: 0,
        my_socket_addr: address,
    });

    to_server.extend(encode_frame(&to_payload(&Wire::from_client("Ping".to_string()))));
    let (next, event) =
        server.step(ConnectionInput::<u8, String>::from_receive(server_receive(receive(&mut to_server))));
    server = next;
    assert!(matches!(event, Some(NetworkEvent::Message(text)) if text == "Ping"));

    to_client.extend(encode_frame(&to_payload(&Wire::from_server("Pong".to_string()))));
    let (next, event) =
        client.step(ConnectionInput::<u8, String>::from_receive(client_receive(receive(&mut to_client))));
    client = next;
    assert!(matches!(event, Some(NetworkEvent::Message(text)) if text == "Pong"));

    assert_eq!(server, ConnectionState::Forwarding);
    assert_eq!(client, ConnectionState::Forwarding);
    assert!(to_server.is_empty());
    assert!(to_client.is_empty());
}

#[test]
fn closed_socket_disconnects_the_client() {
    let mut to_client: Vec<u8> = Vec::new();
    let client = ConnectionState::Forwarding;
    let outcome = client_receive(receive(&mut to_client));
    assert_eq!(outcome, Err(TransportError::UnexpectedEof));
    let (client, event) = client.step(ConnectionInput::<u8, String>::from_receive(outcome));
    assert!(matches!(event, Some(NetworkEvent::Disconnect)));
    assert_eq!(client, ConnectionState::Closed);
}

#[test]
fn wrong_direction_ends_the_connection() {
    let mut to_server: Vec<u8> = Vec::new();
    to_server.extend(encode_frame(&to_payload(&Wire::from_server("Pong".to_string()))));
    let outcome = server_receive(receive(&mut to_server));
    assert_eq!(outcome, Err(TransportError::WrongRole));
    let (server, event) =
        ConnectionState::Forwarding.step(ConnectionInput::<u8, String>::from_receive(outcome));
    assert!(matches!(event, Some(NetworkEvent::Disconnect)));
    assert_eq!(server, ConnectionState::Closed);
}

#[test]
fn envelope_round_trip_through_a_frame() {
    for envelope in [Wire::from_client("a".to_string()), Wire::from_server(String::new())] {
        let mut wire = encode_frame(&to_payload(&envelope));
        let back = receive(&mut wire).unwrap();
        match (envelope, back) {
            (Envelope::Client(sent), Envelope::Client(got)) => assert_eq!(sent, got),
            (Envelope::Server(sent), Envelope::Server(got)) => assert_eq!(sent, got),
            _ => panic!("the envelope changed its role"),
        }
    }
}
