//! The values that sockets, peers and the signaling server exchange.
use crate::channel::Outbox;
use std::time::Duration;
use vstd::prelude::*;

verus! {

/// The raw format of data being sent and received.
pub type Packet = Box<[u8]>;

/// The identity of a peer: the 128 bits of a UUID that the signaling server assigned.
#[derive(Clone, Copy, Debug, PartialEq, Eq, Hash, Structural)]
pub struct PeerId(pub u128);

/// The number under which a peer connection knows a data channel: its position among the channels
/// that the socket is configured with.
#[derive(Clone, Copy, Debug, PartialEq, Eq, Hash, Structural)]
pub struct ChannelNumber(pub u16);

/// The position of a data channel among those of a peer.
#[derive(Clone, Copy, Debug, PartialEq, Eq, Hash, Structural)]
pub struct ChannelIndex(pub usize);

/// A signal that goes from peer to peer by way of the signaling server.
#[derive(Clone, Debug, PartialEq, Eq)]
pub enum PeerSignal {
    /// An address under which the sender may be reached.
    IceCandidate(String),
    /// The session description of the peer that makes the connection.
    Offer(String),
    /// The session description of the peer that accepts the connection.
    Answer(String),
}

/// A request to the signaling server.
#[derive(Clone, Debug, PartialEq, Eq)]
pub enum PeerRequest {
    /// Pass a signal on to another peer.
    Signal { receiver: PeerId, data: PeerSignal },
    /// Do not close the connection for being idle.
    KeepAlive,
}

/// An event that the signaling server reports.
#[derive(Clone, Debug, PartialEq, Eq)]
pub enum PeerEvent {
    /// The identity of this node: the first event, received once.
    IdAssigned(PeerId),
    /// A peer joined the room, and this node must send an offer to it.
    NewPeer(PeerId),
    /// A peer left the room.
    PeerLeft(PeerId),
    /// A signal from another peer.
    Signal { sender: PeerId, data: PeerSignal },
}

/// Whether a peer can be reached.
#[derive(Clone, Copy, Debug, PartialEq, Eq, Structural)]
pub enum PeerState {
    /// All of the data channels to the peer are open.
    Connected,
    /// The peer can no longer be reached.
    Disconnected,
}

/// How a data channel treats the packets sent over it.
#[derive(Clone, Copy, Debug, PartialEq, Eq)]
pub struct ChannelConfig {
    /// Whether packets arrive in the order in which they were sent.
    pub ordered: bool,
    /// How often a lost packet is sent again; without a limit where there is none.
    pub max_retransmits: Option<u16>,
}

/// The server that finds the addresses under which a node can be reached.
#[derive(Clone, Debug, PartialEq, Eq)]
pub struct RtcIceServerConfig {
    pub urls: Vec<String>,
    pub username: Option<String>,
    pub credential: Option<String>,
}

/// How a socket is set up.
pub struct SocketConfig {
    /// The server that the handshakes with peers ask for addresses.
    pub ice_server: RtcIceServerConfig,
    /// The data channels to open to each peer.
    pub channels: Vec<ChannelConfig>,
    /// How often the connection to the signaling server is kept alive, if at all.
    pub keep_alive_interval: Option<Duration>,
}

impl SocketConfig {
    /// A peer can be connected to: there is a data channel, and the channels can be numbered.
    pub open spec fn connects_peers(&self) -> bool {
        0 < self.channels@.len() <= 0x1_0000
    }

    /// Whether a peer can be connected to.
    pub fn can_connect_peers(&self) -> (yes: bool)
        ensures
            yes == self.connects_peers(),
    {
        0 < self.channels.len() && self.channels.len() <= 0x1_0000
    }
}

/// The way to signal one peer: requests to the signaling server that name it.
pub struct SignalPeer {
    /// The peer.
    pub id: PeerId,
    /// Where requests to the signaling server go.
    pub sender: Outbox<PeerRequest>,
}

impl SignalPeer {
    /// The way to signal `id` through `sender`.
    pub fn new(id: PeerId, sender: Outbox<PeerRequest>) -> (peer: SignalPeer)
        ensures
            peer.id == id,
            peer.sender == sender,
    {
        SignalPeer { id, sender }
    }
}

} // verus!
