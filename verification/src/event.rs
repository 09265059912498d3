//! What a connection reports to the application.

use vstd::prelude::*;

verus! {

/// An IP address as plain bits: the four octets of a version 4 address or the
/// sixteen of a version 6 address, most significant first.
#[derive(Clone, Copy, Debug, PartialEq, Eq, Structural)]
pub enum IpAddress {
    V4(u32),
    V6(u128),
}

/// The address of one end of a connection.
#[derive(Clone, Copy, Debug, PartialEq, Eq, Structural)]
pub struct SocketAddress {
    pub ip: IpAddress,
    pub port: u16,
}

impl SocketAddress {
    /// The address made of `ip` and `port`.
    pub fn new(ip: IpAddress, port: u16) -> (address: SocketAddress)
        ensures
            address == (SocketAddress { ip, port }),
    {
        SocketAddress { ip, port }
    }

    /// The IP address, by which a server tells its connections apart.
    pub fn ip(&self) -> (ip: IpAddress)
        ensures
            ip == self.ip,
    {
        self.ip
    }

    /// The port.
    pub fn port(&self) -> (port: u16)
        ensures
            port == self.port,
    {
        self.port
    }
}

/// One report of a connection to the application: that it was established,
/// with the handle to send through and the address that the peer reported for
/// this end; a message received; or that the connection has ended.
#[derive(Debug)]
pub enum NetworkEvent<T, M> {
    Connect { transport: T, my_socket_addr: SocketAddress },
    Message(M),
    Disconnect,
}

/// The three kinds of event, without what they carry.
#[derive(Clone, Copy, Debug, PartialEq, Eq, Structural)]
pub enum EventKind {
    Connect,
    Message,
    Disconnect,
}

impl<T, M> NetworkEvent<T, M> {
    /// The kind of this event.
    pub open spec fn spec_kind(self) -> EventKind {
        match self {
            NetworkEvent::Connect { .. } => EventKind::Connect,
            NetworkEvent::Message(_) => EventKind::Message,
            NetworkEvent::Disconnect => EventKind::Disconnect,
        }
    }

    /// The kind of this event.
    pub fn kind(&self) -> (kind: EventKind)
        ensures
            kind == self.spec_kind(),
    {
        match self {
            NetworkEvent::Connect { .. } => EventKind::Connect,
            NetworkEvent::Message(_) => EventKind::Message,
            NetworkEvent::Disconnect => EventKind::Disconnect,
        }
    }
}

/// Whether `events`, in this order, are what an application can be told of a
/// peer that is connected at the start or is not, as `connected` says: a
/// connect only while not connected, a message or a disconnect only while
/// connected.
pub open spec fn follows_protocol<T, M>(connected: bool, events: Seq<NetworkEvent<T, M>>) -> bool
    decreases events.len(),
{
    if events.len() == 0 {
        true
    } else {
        match events[0].spec_kind() {
            EventKind::Connect => !connected && follows_protocol(true, events.drop_first()),
            EventKind::Message => connected && follows_protocol(true, events.drop_first()),
            EventKind::Disconnect => connected && follows_protocol(false, events.drop_first()),
        }
    }
}

/// Marks an event with the IP address of the connection it came from, as a
/// server does before it hands the event to the application.
pub fn tag_event<T, M>(source: &SocketAddress, event: NetworkEvent<T, M>) -> (tagged: (
    IpAddress,
    NetworkEvent<T, M>,
))
    ensures
        tagged == (source.ip, event),
{
    (source.ip(), event)
}

} // verus!
