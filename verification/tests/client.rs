use message_transport::client::{ClientInput, ClientState, ClientTask};
use message_transport::connection::{ConnectionInput, ConnectionState};
use message_transport::error::TransportError;
use message_transport::event::{EventKind, IpAddress, SocketAddress};

type Input = ClientInput<u8, String>;

fn keep_going() -> Input {
    Input::StopChecked { stop_requested: false }
}

#[test]
fn client_tasks_by_state() {
    assert_eq!(ClientState::new(), ClientState::Idle);
    assert_eq!(ClientState::Idle.task(), ClientTask::CheckStop);
    assert_eq!(ClientState::Connecting.task(), ClientTask::Connect);
    assert_eq!(ClientState::Handshaking.task(), ClientTask::Handshake);
    assert_eq!(ClientState::Forwarding.task(), ClientTask::Receive);
    assert_eq!(ClientState::Stopped.task(), ClientTask::Exit);
}

#[test]
fn client_keeps_retrying_after_failed_connects() {
    let mut state = ClientState::new();
    for _ in 0..1000 {
        let (next, event) = state.step(keep_going());
        assert_eq!(next, ClientState::Connecting);
        assert!(event.is_none());
        assert_eq!(next.task(), ClientTask::Connect);
        let (next, event) = next.step(Input::ConnectFailed);
        assert_eq!(next, ClientState::Idle);
        assert!(event.is_none());
        state = next;
    }
    let (next, _) = state.step(keep_going());
    assert_eq!(next.task(), ClientTask::Connect);
}

#[test]
fn client_stops_only_between_attempts() {
    let (state, event) = ClientState::Idle.step(Input::StopChecked { stop_requested: true });
    assert_eq!(state, ClientState::Stopped);
    assert!(event.is_none());
    for busy in [ClientState::Connecting, ClientState::Handshaking, ClientState::Forwarding] {
        let (state, event) = busy.step(Input::StopChecked { stop_requested: true });
        assert_eq!(state, busy);
        assert!(event.is_none());
    }
    let (state, _) = ClientState::Stopped.step(keep_going());
    assert_eq!(state, ClientState::Stopped);
}

#[test]
fn client_reconnects_after_a_disconnect() {
    let address = SocketAddress::new(IpAddress::V4(1), 2);
    let inputs = vec![
        keep_going(),
        Input::Connected,
        Input::Connection(ConnectionInput::HandshakeCompleted {
            transport: 3,
            my_socket_addr: address,
        }),
        Input::Connection(ConnectionInput::Received("pong".to_string())),
        Input::Connection(ConnectionInput::ReceiveFailed(TransportError::UnexpectedEof)),
    ];
    let mut state = ClientState::new();
    let mut kinds = Vec::new();
    for input in inputs {
        let (next, event) = state.step(input);
        state = next;
        if let Some(event) = event {
            kinds.push(event.kind());
        }
    }
    assert_eq!(kinds, vec![EventKind::Connect, EventKind::Message, EventKind::Disconnect]);
    assert_eq!(state, ClientState::Idle);
    let (state, _) = state.step(keep_going());
    assert_eq!(state, ClientState::Connecting);
}

#[test]
fn client_retries_after_a_failed_handshake_without_an_event() {
    let (state, event) =
        ClientState::Handshaking.step(Input::Connection(ConnectionInput::HandshakeFailed));
    assert_eq!(state, ClientState::Idle);
    assert!(event.is_none());
}

#[test]
fn client_state_for_a_connection() {
    assert_eq!(ClientState::for_connection(ConnectionState::Handshaking), ClientState::Handshaking);
    assert_eq!(ClientState::for_connection(ConnectionState::Forwarding), ClientState::Forwarding);
    assert_eq!(ClientState::for_connection(ConnectionState::Closed), ClientState::Idle);
}
