//! A socket that can be taken apart: into a transmitter and a receiver, and further into the sinks
//! and streams of single data channels.
use crate::channel::{unbounded, Inbox, Outbox};
use crate::protocol::{ChannelIndex, Packet, PeerId};
use crate::shared_table::{
    buffer_low_told, packet_sent, peer_connected, peer_removed, sink_taken, SharedTable,
};
use crate::tx_table::{DataChannelSink, TakeError};
use futures_channel::mpsc;
use std::collections::hash_map::Entry;
use std::collections::HashMap;
use vstd::prelude::*;

verus! {

/// What happens on a socket.
#[derive(Debug)]
pub enum SimpleWebRtcEvent {
    /// First event, fired only once.
    IdAssigned(PeerId),
    /// A new peer has connected. Its channels can now be taken or sent messages to.
    PeerConnected(PeerId),
    /// A peer has disconnected. Its channels can no longer be taken or sent messages to.
    PeerDisconnected(PeerId),
    /// Packet received from a peer.
    Packet(PeerId, ChannelIndex, Packet),
    /// The output buffer of the data channel has reached its low threshold.
    TransmitBufferLow(PeerId, ChannelIndex),
}

/// Why a socket is closed.
#[derive(Clone, Debug, PartialEq, Eq)]
pub enum SimpleWebRtcClosedReason {
    /// Something went wrong.
    Error(String),
    /// It was closed.
    Closed,
}

/// A socket which can be destructured into a transmitter and a receiver.
pub struct SimpleWebRtc {
    /// The receiver.
    pub rx: SimpleWebRtcRx,
    /// The transmitter.
    pub tx: SimpleWebRtcTx,
}

/// The transmitter of a socket.
///
/// Which peers exist here is based on the events which have been observed through the receiver.
pub struct SimpleWebRtcTx {
    state: SharedTable,
}

/// The receiver of a socket.
pub struct SimpleWebRtcRx {
    rx: mpsc::UnboundedReceiver<SimpleWebRtcEvent>,
    tx: SharedTable,
    /// Streams which have been taken, by peer and channel. Their packets are not part of the output
    /// of the receiver.
    taken: HashMap<u128, HashMap<usize, Outbox<Packet>>>,
}

/// The packets of a data channel that was taken from the receiver.
pub struct DataChannelStream {
    /// Where the packets come from.
    pub rx: Inbox<Packet>,
}

impl SimpleWebRtc {
    /// A socket that writes to the channels in `state`, and on which `events` happen. Whoever reports
    /// a peer as connected adds its channels to the same table first, where they wait until the
    /// receiver has observed that event.
    pub fn new(state: SharedTable, events: Inbox<SimpleWebRtcEvent>) -> (socket: SimpleWebRtc)
        requires
            state.wf(),
        ensures
            socket.tx.wf(),
            socket.rx.wf(),
            socket.tx.table().lock() == state.lock(),
            socket.tx.table().handle().fresh(),
            state.handle().after_handing_out(socket.rx.table().handle()),
            socket.rx.events() == events.receiver(),
            socket.rx.streams() == Map::<(PeerId, ChannelIndex), Outbox<Packet>>::empty(),
    {
        let mut state = state;
        let tx = SimpleWebRtcTx { state: state.another() };
        let rx = SimpleWebRtcRx { rx: events.into_receiver(), tx: state, taken: HashMap::new() };
        assert(rx.streams() =~= Map::empty());
        SimpleWebRtc { rx, tx }
    }
}

impl SimpleWebRtcTx {
    /// The handle on the data channels.
    pub closed spec fn table(&self) -> SharedTable {
        self.state
    }

    /// The data channels are not being used through this transmitter.
    pub open spec fn wf(&self) -> bool {
        self.table().wf()
    }

    /// Gets a sink for writing to a given peer's channel.
    ///
    /// This removes the channel from those that can be written to through the transmitter.
    pub fn take_sink(&mut self, peer: PeerId, channel: ChannelIndex) -> (taken: Result<
        DataChannelSink,
        TakeError,
    >)
        requires
            old(self).wf(),
        ensures
            final(self).wf(),
            sink_taken(old(self).table(), peer, channel, final(self).table(), taken),
    {
        self.state.take_sink(peer, channel)
    }

    /// Writes `packet` to a given peer's channel, unless somebody took it.
    pub fn send(&mut self, peer: PeerId, channel: ChannelIndex, packet: Packet) -> (sent: Result<
        (),
        TakeError,
    >)
        requires
            old(self).wf(),
        ensures
            final(self).wf(),
            packet_sent(old(self).table(), peer, channel, packet, final(self).table(), sent),
    {
        self.state.send(peer, channel, packet)
    }
}

/// `before` becomes `after`, with `taken`, when the stream of `channel` of `peer` is taken: once.
pub open spec fn take_stream_step(
    before: Map<(PeerId, ChannelIndex), Outbox<Packet>>,
    peer: PeerId,
    channel: ChannelIndex,
    after: Map<(PeerId, ChannelIndex), Outbox<Packet>>,
    taken: Result<DataChannelStream, TakeError>,
) -> bool {
    if before.contains_key((peer, channel)) {
        &&& taken == Err::<DataChannelStream, _>(TakeError::AlreadyTaken)
        &&& after == before
    } else {
        &&& taken matches Ok(stream)
        &&& after.contains_key((peer, channel))
        &&& after[(peer, channel)].is_fresh_end_of(stream.rx.channel())
        &&& after == before.insert((peer, channel), after[(peer, channel)])
    }
}

/// `before` becomes `after`, with `out`, when `event` is looked at: a packet of a stream that was
/// taken goes there, and everything else comes out.
pub open spec fn route_step(
    before: Map<(PeerId, ChannelIndex), Outbox<Packet>>,
    event: SimpleWebRtcEvent,
    after: Map<(PeerId, ChannelIndex), Outbox<Packet>>,
    out: Option<SimpleWebRtcEvent>,
) -> bool {
    match stream_packet(before, event) {
        Some((key, packet)) => {
            &&& out is None
            &&& after.contains_key(key)
            &&& after == before.insert(key, after[key])
            &&& {
                ||| before[key].after_offer(packet, true, after[key])
                ||| before[key].after_offer(packet, false, after[key])
            }
        },
        None => out == Some(event) && after == before,
    }
}

/// `start` becomes `end` when `event` is observed: by at most one visit to the table.
pub open spec fn observed(start: SharedTable, event: SimpleWebRtcEvent, end: SharedTable) -> bool {
    match event {
        SimpleWebRtcEvent::PeerConnected(peer) => peer_connected(start, peer, end),
        SimpleWebRtcEvent::PeerDisconnected(peer) => peer_removed(start, peer, end),
        SimpleWebRtcEvent::TransmitBufferLow(peer, channel) => {
            buffer_low_told(start, peer, channel, end)
        },
        _ => end == start,
    }
}

/// The stream that `event` belongs to, and the packet, if it is a packet of a stream in `streams`.
pub open spec fn stream_packet(
    streams: Map<(PeerId, ChannelIndex), Outbox<Packet>>,
    event: SimpleWebRtcEvent,
) -> Option<((PeerId, ChannelIndex), Packet)> {
    match event {
        SimpleWebRtcEvent::Packet(peer, channel, packet) if streams.contains_key(
            (peer, channel),
        ) => Some(((peer, channel), packet)),
        _ => None,
    }
}

impl SimpleWebRtcRx {
    /// The handle on the data channels.
    pub closed spec fn table(&self) -> SharedTable {
        self.tx
    }

    /// The data channels are not being used through this receiver.
    pub open spec fn wf(&self) -> bool {
        self.table().wf()
    }

    /// The queue of events that were not looked at yet.
    pub closed spec fn events(&self) -> mpsc::UnboundedReceiver<SimpleWebRtcEvent> {
        self.rx
    }

    /// Where the packets of each stream that was taken go.
    pub closed spec fn streams(&self) -> Map<(PeerId, ChannelIndex), Outbox<Packet>> {
        Map::new(
            |key: (PeerId, ChannelIndex)|
                self.taken@.contains_key(key.0.0) && self.taken@[key.0.0]@.contains_key(key.1.0),
            |key: (PeerId, ChannelIndex)| self.taken@[key.0.0]@[key.1.0],
        )
    }

    /// Gets the stream of packets of a given peer's channel.
    ///
    /// From then on these packets come out of the stream and no longer out of the receiver.
    pub fn take_stream(&mut self, peer: PeerId, channel: ChannelIndex) -> (taken: Result<
        DataChannelStream,
        TakeError,
    >)
        ensures
            final(self).table() == old(self).table(),
            final(self).events() == old(self).events(),
            take_stream_step(old(self).streams(), peer, channel, final(self).streams(), taken),
    {
        let ghost before = self.streams();
        let taken = match self.taken.entry(peer.0) {
            Entry::Occupied(streams) => match streams.into_mut().entry(channel.0) {
                Entry::Occupied(_) => Err(TakeError::AlreadyTaken),
                Entry::Vacant(vacant_entry) => {
                    let (tx, rx) = unbounded::<Packet>();
                    vacant_entry.insert(tx);
                    Ok(DataChannelStream { rx })
                },
            },
            Entry::Vacant(vacant_entry) => {
                let (tx, rx) = unbounded::<Packet>();
                let mut streams: HashMap<usize, Outbox<Packet>> = HashMap::new();
                streams.insert(channel.0, tx);
                vacant_entry.insert(streams);
                Ok(DataChannelStream { rx })
            },
        };
        assert(self.streams() =~= if taken is Ok {
            before.insert((peer, channel), self.streams()[(peer, channel)])
        } else {
            before
        });
        taken
    }

    /// Where the packets of `channel` of `peer` go, if the stream was taken.
    fn stream_mut(&mut self, peer: PeerId, channel: ChannelIndex) -> (found: Option<
        &mut Outbox<Packet>,
    >)
        ensures
            final(self).table() == old(self).table(),
            final(self).events() == old(self).events(),
            match found {
                Some(stream) => {
                    &&& old(self).streams().contains_key((peer, channel))
                    &&& old(self).streams()[(peer, channel)] == *stream
                    &&& final(self).streams() == old(self).streams().insert(
                        (peer, channel),
                        *final(stream),
                    )
                },
                None => {
                    &&& !old(self).streams().contains_key((peer, channel))
                    &&& final(self).streams() == old(self).streams()
                },
            },
    {
        match self.taken.entry(peer.0) {
            Entry::Occupied(streams) => match streams.into_mut().entry(channel.0) {
                Entry::Occupied(stream) => Some(stream.into_mut()),
                Entry::Vacant(_) => None,
            },
            Entry::Vacant(_) => None,
        }
    }

    /// Looks at `event`, the next one in the queue. It comes out, unless it is a packet of a stream
    /// that was taken: that packet goes to the stream. A peer that connected can from then on be taken
    /// or sent messages to, and one that disconnected no longer. Whoever took a sink is told when it
    /// should send more.
    pub fn route(&mut self, event: SimpleWebRtcEvent) -> (out: Option<SimpleWebRtcEvent>)
        requires
            old(self).wf(),
        ensures
            final(self).wf(),
            final(self).events() == old(self).events(),
            route_step(old(self).streams(), event, final(self).streams(), out),
            observed(old(self).table(), event, final(self).table()),
    {
        match event {
            SimpleWebRtcEvent::Packet(peer, channel, packet) => match self.stream_mut(
                peer,
                channel,
            ) {
                Some(stream) => {
                    let _ = stream.unbounded_send(packet);
                    None
                },
                None => Some(SimpleWebRtcEvent::Packet(peer, channel, packet)),
            },
            SimpleWebRtcEvent::PeerConnected(peer) => {
                self.tx.connect_peer(peer);
                Some(SimpleWebRtcEvent::PeerConnected(peer))
            },
            SimpleWebRtcEvent::PeerDisconnected(peer) => {
                self.tx.remove_peer(peer);
                Some(SimpleWebRtcEvent::PeerDisconnected(peer))
            },
            SimpleWebRtcEvent::TransmitBufferLow(peer, channel) => {
                self.tx.buffer_low(peer, channel);
                Some(SimpleWebRtcEvent::TransmitBufferLow(peer, channel))
            },
            SimpleWebRtcEvent::IdAssigned(peer) => Some(SimpleWebRtcEvent::IdAssigned(peer)),
        }
    }

    /// Lends the queue of events, to wait on.
    pub fn events_mut(&mut self) -> (events: &mut mpsc::UnboundedReceiver<SimpleWebRtcEvent>)
        ensures
            *events == old(self).events(),
            final(self).events() == *final(events),
            final(self).table() == old(self).table(),
            final(self).streams() == old(self).streams(),
    {
        &mut self.rx
    }
}

} // verus!
