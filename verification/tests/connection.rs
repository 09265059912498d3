use message_transport::connection::{run as run_connection, ConnectionInput, ConnectionState};
use message_transport::error::TransportError;
use message_transport::event::{
    tag_event, EventKind, IpAddress, NetworkEvent, SocketAddress,
};

type Input = ConnectionInput<u8, String>;

fn address() -> SocketAddress {
    SocketAddress::new(IpAddress::V4(0x7f00_0001), 4000)
}

fn run(inputs: Vec<Input>) -> (ConnectionState, Vec<EventKind>) {
    let (state, events) = run_connection(ConnectionState::new(), inputs);
    (state, events.iter().map(|event| event.kind()).collect())
}

#[test]
fn connection_starts_with_the_handshake() {
    assert_eq!(ConnectionState::new(), ConnectionState::Handshaking);
    assert!(!ConnectionState::new().is_closed());
    assert!(ConnectionState::Closed.is_closed());
}

#[test]
fn handshake_gives_connect_with_handle_and_address() {
    let (state, event) = ConnectionState::Handshaking.step(Input::HandshakeCompleted {
        transport: 9,
        my_socket_addr: address(),
    });
    assert_eq!(state, ConnectionState::Forwarding);
    match event {
        Some(NetworkEvent::Connect { transport, my_socket_addr }) => {
            assert_eq!(transport, 9);
            assert_eq!(my_socket_addr, address());
        }
        _ => panic!("expected a connect event"),
    }
}

#[test]
fn failed_handshake_emits_nothing() {
    let (state, event) = ConnectionState::Handshaking.step(Input::HandshakeFailed);
    assert_eq!(state, ConnectionState::Closed);
    assert!(event.is_none());
}

#[test]
fn received_message_is_forwarded() {
    let (state, event) = ConnectionState::Forwarding.step(Input::Received("hello".to_string()));
    assert_eq!(state, ConnectionState::Forwarding);
    match event {
        Some(NetworkEvent::Message(text)) => assert_eq!(text, "hello"),
        _ => panic!("expected a message event"),
    }
}

#[test]
fn failed_receive_disconnects_once() {
    let (state, event) =
        ConnectionState::Forwarding.step(Input::ReceiveFailed(TransportError::WrongRole));
    assert_eq!(state, ConnectionState::Closed);
    assert!(matches!(event, Some(NetworkEvent::Disconnect)));
    let (state, event) = state.step(Input::ReceiveFailed(TransportError::Io));
    assert_eq!(state, ConnectionState::Closed);
    assert!(event.is_none());
}

#[test]
fn closed_sink_ends_the_reader() {
    let (state, event) = ConnectionState::Forwarding.step(Input::SinkClosed);
    assert_eq!(state, ConnectionState::Closed);
    assert!(matches!(event, Some(NetworkEvent::Disconnect)));
    assert_eq!(Input::SinkClosed.failure(), Some(TransportError::ConnectionAborted));
    assert_eq!(
        Input::ReceiveFailed(TransportError::Oversized).failure(),
        Some(TransportError::Oversized)
    );
    assert_eq!(Input::Received("x".to_string()).failure(), None);
}

#[test]
fn input_from_receive() {
    assert!(matches!(Input::from_receive(Ok("a".to_string())), Input::Received(text) if text == "a"));
    assert!(matches!(
        Input::from_receive(Err(TransportError::Decoding)),
        Input::ReceiveFailed(TransportError::Decoding)
    ));
}

#[test]
fn events_of_one_connection_come_in_order() {
    let (state, kinds) = run(vec![
        Input::HandshakeCompleted { transport: 1, my_socket_addr: address() },
        Input::Received("a".to_string()),
        Input::Received("b".to_string()),
        Input::ReceiveFailed(TransportError::UnexpectedEof),
        Input::Received("late".to_string()),
        Input::SinkClosed,
        Input::HandshakeCompleted { transport: 2, my_socket_addr: address() },
    ]);
    assert_eq!(state, ConnectionState::Closed);
    assert_eq!(
        kinds,
        vec![EventKind::Connect, EventKind::Message, EventKind::Message, EventKind::Disconnect]
    );
}

#[test]
fn connection_without_messages() {
    let (state, kinds) = run(vec![
        Input::HandshakeCompleted { transport: 1, my_socket_addr: address() },
        Input::ReceiveFailed(TransportError::Io),
    ]);
    assert_eq!(state, ConnectionState::Closed);
    assert_eq!(kinds, vec![EventKind::Connect, EventKind::Disconnect]);
}

#[test]
fn inputs_out_of_place_are_ignored() {
    let (state, kinds) = run(vec![
        Input::Received("early".to_string()),
        Input::SinkClosed,
        Input::ReceiveFailed(TransportError::Io),
    ]);
    assert_eq!(state, ConnectionState::Handshaking);
    assert!(kinds.is_empty());
    let (state, kinds) = run(vec![
        Input::HandshakeCompleted { transport: 1, my_socket_addr: address() },
        Input::HandshakeFailed,
        Input::HandshakeCompleted { transport: 2, my_socket_addr: address() },
    ]);
    assert_eq!(state, ConnectionState::Forwarding);
    assert_eq!(kinds, vec![EventKind::Connect]);
}

#[test]
fn server_tags_events_with_the_source_ip() {
    let source = SocketAddress::new(IpAddress::V6(1), 77);
    assert_eq!(source.ip(), IpAddress::V6(1));
    assert_eq!(source.port(), 77);
    let event: NetworkEvent<u8, String> = NetworkEvent::Message("m".to_string());
    let (ip, event) = tag_event(&source, event);
    assert_eq!(ip, IpAddress::V6(1));
    assert!(matches!(event, NetworkEvent::Message(text) if text == "m"));
}

#[test]
fn run_gives_what_the_steps_give() {
    let inputs = || {
        vec![
            Input::Received("early".to_string()),
            Input::HandshakeCompleted { transport: 5, my_socket_addr: address() },
            Input::Received("a".to_string()),
            Input::SinkClosed,
            Input::Received("late".to_string()),
        ]
    };
    let (state, events) = run_connection(ConnectionState::new(), inputs());
    let mut stepped = ConnectionState::new();
    let mut expected = Vec::new();
    for input in inputs() {
        let (next, event) = stepped.step(input);
        stepped = next;
        expected.extend(event);
    }
    assert_eq!(state, stepped);
    assert_eq!(events.len(), 3);
    assert_eq!(events.len(), expected.len());
    assert!(matches!(&events[0], NetworkEvent::Connect { transport: 5, .. }));
    assert!(matches!(&events[1], NetworkEvent::Message(text) if text == "a"));
    assert!(matches!(&events[2], NetworkEvent::Disconnect));
}

#[test]
fn run_from_the_middle_of_a_life() {
    let (state, events) =
        run_connection(ConnectionState::Forwarding, vec![Input::Received("x".to_string())]);
    assert_eq!(state, ConnectionState::Forwarding);
    assert_eq!(events.len(), 1);
    let (state, events) = run_connection(ConnectionState::Closed, vec![Input::SinkClosed]);
    assert_eq!(state, ConnectionState::Closed);
    assert!(events.is_empty());
    let (state, events) = run_connection(ConnectionState::new(), Vec::<Input>::new());
    assert_eq!(state, ConnectionState::Handshaking);
    assert!(events.is_empty());
}
