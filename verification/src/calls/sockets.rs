//! What each call on a socket that can be taken apart does, told by what goes in and what comes out.
//!
//! A call that uses the data channels is one visit to the table that the halves share. What it found
//! and what it left is what the last session tells.
use crate::channel::Inbox;
use crate::protocol::{ChannelIndex, Packet, PeerId};
use crate::shared_table::SharedTable;
use crate::simple::{
    DataChannelStream, SimpleWebRtc, SimpleWebRtcEvent, SimpleWebRtcRx, SimpleWebRtcTx,
};
use crate::tx_table::{DataChannelSink, DataChannelTx, TakeError};
use futures_channel::mpsc;
use vstd::prelude::*;

verus! {

/// The halves of a new socket share the table that was given. No stream was taken, and the events
/// are those that were given.
pub proof fn halves_share_the_table(
    state: SharedTable,
    events: Inbox<SimpleWebRtcEvent>,
    socket: SimpleWebRtc,
)
    requires
        call_ensures(SimpleWebRtc::new, (state, events), socket),
    ensures
        socket.tx.table().handle().lock() == state.handle().lock(),
        socket.rx.table().handle().lock() == state.handle().lock(),
        socket.tx.table().handle().opened() == 0,
        socket.rx.table().handle().opened() == state.handle().opened(),
        socket.rx.table().handle().sessions() == state.handle().sessions(),
        socket.rx.events() == events.receiver(),
        forall|key: (PeerId, ChannelIndex)| !#[trigger] socket.rx.streams().contains_key(key),
{
}

/// The channel that is asked for is the one that is taken, once, and every other channel of every
/// peer is left alone. What is wrong with the peer or the channel is told.
pub proof fn transmitter_takes_the_channel_asked_for(
    tx: &mut SimpleWebRtcTx,
    peer: PeerId,
    channel: ChannelIndex,
    taken: Result<DataChannelSink, TakeError>,
)
    requires
        call_ensures(SimpleWebRtcTx::take_sink, (tx, peer, channel), taken),
    ensures
        final(tx).table().handle().lock() == old(tx).table().handle().lock(),
        final(tx).table().handle().handed_out() == old(tx).table().handle().handed_out(),
        final(tx).table().handle().opened() == old(tx).table().handle().opened() + 1,
        ({
            let last = final(tx).table().handle().sessions().last();
            let before = last[0]->Locked_0@;
            let after = last[1]->Unlocked_0@;
            &&& final(tx).table().handle().sessions() == old(tx).table().handle().sessions().push(last)
            &&& last.len() == 2
            &&& last[0] is Locked
            &&& last[1] is Unlocked
            &&& after.waiting == before.waiting
            &&& forall|other: u128|
                #[trigger] after.peers.contains_key(other) == before.peers.contains_key(other)
            &&& forall|other: u128|
                other != peer.0 && before.peers.contains_key(other) ==> #[trigger] after.peers[other]
                    == before.peers[other]
            &&& !before.peers.contains_key(peer.0) ==> taken == Err::<DataChannelSink, _>(TakeError::InvalidPeer)
            &&& before.peers.contains_key(peer.0) && channel.0 >= before.peers[peer.0].len() ==> {
                &&& taken == Err::<DataChannelSink, _>(TakeError::InvalidChannel)
                &&& after.peers[peer.0] == before.peers[peer.0]
            }
            &&& before.peers.contains_key(peer.0) && channel.0 < before.peers[peer.0].len() ==> {
                let channels = before.peers[peer.0];
                let now = after.peers[peer.0];
                let at = channel.0 as int;
                &&& now.len() == channels.len()
                &&& forall|i: int|
                    0 <= i < channels.len() && i != at ==> #[trigger] now[i] == channels[i]
                &&& match channels[at] {
                    DataChannelTx::Taken(_) => {
                        &&& taken == Err::<DataChannelSink, _>(TakeError::AlreadyTaken)
                        &&& now[at] == channels[at]
                    },
                    DataChannelTx::DataChannel(data_channel) => {
                        &&& taken is Ok
                        &&& taken->Ok_0.channel == data_channel
                        &&& now[at] is Taken
                        &&& now[at]->Taken_0.channel() == taken->Ok_0.buffer_low.channel()
                        &&& now[at]->Taken_0.offered().len() == 0
                        &&& now[at]->Taken_0.handed_out() == 0
                    },
                }
            }
        }),
{
}

/// A packet, whatever it is, is written to the channel that is asked for and to no other, unless the
/// channel was taken. What is wrong with the peer or the channel is told.
pub proof fn transmitter_writes_to_the_channel_asked_for(
    tx: &mut SimpleWebRtcTx,
    peer: PeerId,
    channel: ChannelIndex,
    packet: Packet,
    sent: Result<(), TakeError>,
)
    requires
        call_ensures(SimpleWebRtcTx::send, (tx, peer, channel, packet), sent),
    ensures
        final(tx).table().handle().lock() == old(tx).table().handle().lock(),
        final(tx).table().handle().handed_out() == old(tx).table().handle().handed_out(),
        final(tx).table().handle().opened() == old(tx).table().handle().opened() + 1,
        ({
            let last = final(tx).table().handle().sessions().last();
            let before = last[0]->Locked_0@;
            let after = last[1]->Unlocked_0@;
            &&& final(tx).table().handle().sessions() == old(tx).table().handle().sessions().push(last)
            &&& last.len() == 2
            &&& last[0] is Locked
            &&& last[1] is Unlocked
            &&& after.waiting == before.waiting
            &&& forall|other: u128|
                #[trigger] after.peers.contains_key(other) == before.peers.contains_key(other)
            &&& forall|other: u128|
                other != peer.0 && before.peers.contains_key(other) ==> #[trigger] after.peers[other]
                    == before.peers[other]
            &&& !before.peers.contains_key(peer.0) ==> sent == Err::<(), _>(TakeError::InvalidPeer)
            &&& before.peers.contains_key(peer.0) && channel.0 >= before.peers[peer.0].len() ==> {
                &&& sent == Err::<(), _>(TakeError::InvalidChannel)
                &&& after.peers[peer.0] == before.peers[peer.0]
            }
            &&& before.peers.contains_key(peer.0) && channel.0 < before.peers[peer.0].len() ==> {
                let channels = before.peers[peer.0];
                let now = after.peers[peer.0];
                let at = channel.0 as int;
                &&& now.len() == channels.len()
                &&& forall|i: int|
                    0 <= i < channels.len() && i != at ==> #[trigger] now[i] == channels[i]
                &&& match channels[at] {
                    DataChannelTx::Taken(_) => {
                        &&& sent == Err::<(), _>(TakeError::AlreadyTaken)
                        &&& now[at] == channels[at]
                    },
                    DataChannelTx::DataChannel(data_channel) => {
                        &&& sent is Ok
                        &&& now[at] is DataChannel
                        &&& now[at]->DataChannel_0.0.written() == data_channel.0.written().push(packet)
                    },
                }
            }
        }),
{
}

/// A stream can be taken once. What is taken leads to whoever took it, and no other stream is
/// touched.
pub proof fn stream_asked_for_is_taken(
    rx: &mut SimpleWebRtcRx,
    peer: PeerId,
    channel: ChannelIndex,
    taken: Result<DataChannelStream, TakeError>,
)
    requires
        call_ensures(SimpleWebRtcRx::take_stream, (rx, peer, channel), taken),
    ensures
        final(rx).table() == old(rx).table(),
        final(rx).events() == old(rx).events(),
        forall|key: (PeerId, ChannelIndex)|
            #[trigger] final(rx).streams().contains_key(key) <==> key == (peer, channel)
                || old(rx).streams().contains_key(key),
        forall|key: (PeerId, ChannelIndex)|
            old(rx).streams().contains_key(key) ==> #[trigger] final(rx).streams()[key]
                == old(rx).streams()[key],
        old(rx).streams().contains_key((peer, channel)) ==> taken == Err::<DataChannelStream, _>(
            TakeError::AlreadyTaken,
        ),
        !old(rx).streams().contains_key((peer, channel)) ==> {
            let stream = final(rx).streams()[(peer, channel)];
            &&& taken is Ok
            &&& stream.channel() == taken->Ok_0.rx.channel()
            &&& stream.offered().len() == 0
            &&& stream.handed_out() == 0
        },
{
}

/// An event comes out unchanged, unless it is a packet of a stream that was taken. Such a packet,
/// whatever it is, goes to that stream and to no other.
pub proof fn only_packets_of_taken_streams_stay(
    rx: &mut SimpleWebRtcRx,
    event: SimpleWebRtcEvent,
    out: Option<SimpleWebRtcEvent>,
)
    requires
        call_ensures(SimpleWebRtcRx::route, (rx, event), out),
    ensures
        final(rx).events() == old(rx).events(),
        out is None <==> (event matches SimpleWebRtcEvent::Packet(peer, channel, _)
            && old(rx).streams().contains_key((peer, channel))),
        out is Some ==> out == Some(event),
        out is Some ==> final(rx).streams() == old(rx).streams(),
        forall|key: (PeerId, ChannelIndex)|
            #[trigger] final(rx).streams().contains_key(key) == old(rx).streams().contains_key(key),
        match event {
            SimpleWebRtcEvent::Packet(peer, channel, packet) => old(rx).streams().contains_key(
                (peer, channel),
            ) ==> {
                let before = old(rx).streams()[(peer, channel)];
                let after = final(rx).streams()[(peer, channel)];
                &&& after.channel() == before.channel()
                &&& after.handed_out() == before.handed_out()
                &&& after.offered() == before.offered().push(packet)
                &&& {
                    ||| after.accepted() == before.accepted()
                    ||| after.accepted() == before.accepted().push(packet)
                }
                &&& forall|key: (PeerId, ChannelIndex)|
                    key != (peer, channel) && old(rx).streams().contains_key(key)
                        ==> #[trigger] final(rx).streams()[key] == old(rx).streams()[key]
            },
            _ => true,
        },
{
}

/// Events that are not about the coming and going of peers, or room in a channel, leave the data
/// channels alone.
pub proof fn other_events_leave_the_channels_alone(
    rx: &mut SimpleWebRtcRx,
    event: SimpleWebRtcEvent,
    out: Option<SimpleWebRtcEvent>,
)
    requires
        event is IdAssigned || event is Packet,
        call_ensures(SimpleWebRtcRx::route, (rx, event), out),
    ensures
        final(rx).table() == old(rx).table(),
{
}

/// When a peer is observed to connect, the channels that waited for it first become reachable.
pub proof fn observed_peer_becomes_reachable(
    rx: &mut SimpleWebRtcRx,
    peer: PeerId,
    out: Option<SimpleWebRtcEvent>,
)
    requires
        call_ensures(SimpleWebRtcRx::route, (rx, SimpleWebRtcEvent::PeerConnected(peer)), out),
    ensures
        final(rx).table().handle().lock() == old(rx).table().handle().lock(),
        final(rx).table().handle().handed_out() == old(rx).table().handle().handed_out(),
        final(rx).table().handle().opened() == old(rx).table().handle().opened() + 1,
        ({
            let last = final(rx).table().handle().sessions().last();
            let before = last[0]->Locked_0@;
            let after = last[1]->Unlocked_0@;
            &&& final(rx).table().handle().sessions() == old(rx).table().handle().sessions().push(last)
            &&& last.len() == 2
            &&& last[0] is Locked
            &&& last[1] is Unlocked
            &&& forall|other: u128|
                #[trigger] after.peers.contains_key(other) <==> other == peer.0
                    || before.peers.contains_key(other)
            &&& forall|other: u128|
                other != peer.0 && before.peers.contains_key(other) ==> #[trigger] after.peers[other]
                    == before.peers[other]
            &&& forall|other: u128|
                #[trigger] after.waiting.contains_key(other) == before.waiting.contains_key(other)
            &&& forall|other: u128|
                other != peer.0 && before.waiting.contains_key(other) ==> #[trigger] after.waiting[other]
                    == before.waiting[other]
            &&& if before.waiting.contains_key(peer.0) && before.waiting[peer.0].len() > 0 {
                let lot = before.waiting[peer.0][0];
                &&& after.waiting[peer.0].len() == before.waiting[peer.0].len() - 1
                &&& forall|i: int|
                    0 <= i < after.waiting[peer.0].len() ==> #[trigger] after.waiting[peer.0][i]
                        == before.waiting[peer.0][i + 1]
                &&& after.peers[peer.0].len() == lot.len()
                &&& forall|i: int|
                    0 <= i < lot.len() ==> #[trigger] after.peers[peer.0][i]
                        == DataChannelTx::DataChannel(lot[i])
            } else {
                &&& after.waiting == before.waiting
                &&& before.peers.contains_key(peer.0) ==> after.peers[peer.0] == before.peers[peer.0]
                &&& !before.peers.contains_key(peer.0) ==> after.peers[peer.0].len() == 0
            }
        }),
{
}

/// When a peer is observed to disconnect, it has no channels any more, and no other peer is touched.
pub proof fn observed_peer_is_gone(
    rx: &mut SimpleWebRtcRx,
    peer: PeerId,
    out: Option<SimpleWebRtcEvent>,
)
    requires
        call_ensures(SimpleWebRtcRx::route, (rx, SimpleWebRtcEvent::PeerDisconnected(peer)), out),
    ensures
        final(rx).table().handle().lock() == old(rx).table().handle().lock(),
        final(rx).table().handle().handed_out() == old(rx).table().handle().handed_out(),
        final(rx).table().handle().opened() == old(rx).table().handle().opened() + 1,
        ({
            let last = final(rx).table().handle().sessions().last();
            let before = last[0]->Locked_0@;
            let after = last[1]->Unlocked_0@;
            &&& final(rx).table().handle().sessions() == old(rx).table().handle().sessions().push(last)
            &&& last.len() == 2
            &&& last[0] is Locked
            &&& last[1] is Unlocked
            &&& after.waiting == before.waiting
            &&& forall|other: u128|
                #[trigger] after.peers.contains_key(other) <==> other != peer.0
                    && before.peers.contains_key(other)
            &&& forall|other: u128|
                other != peer.0 && before.peers.contains_key(other) ==> #[trigger] after.peers[other]
                    == before.peers[other]
        }),
{
}

/// When a channel is observed to have room again, whoever took it is told, once.
pub proof fn observed_room_is_told(
    rx: &mut SimpleWebRtcRx,
    peer: PeerId,
    channel: ChannelIndex,
    out: Option<SimpleWebRtcEvent>,
)
    requires
        call_ensures(SimpleWebRtcRx::route, (rx, SimpleWebRtcEvent::TransmitBufferLow(peer, channel)), out),
    ensures
        final(rx).table().handle().lock() == old(rx).table().handle().lock(),
        final(rx).table().handle().handed_out() == old(rx).table().handle().handed_out(),
        final(rx).table().handle().opened() == old(rx).table().handle().opened() + 1,
        ({
            let last = final(rx).table().handle().sessions().last();
            let before = last[0]->Locked_0@;
            let after = last[1]->Unlocked_0@;
            &&& final(rx).table().handle().sessions() == old(rx).table().handle().sessions().push(last)
            &&& last.len() == 2
            &&& last[0] is Locked
            &&& last[1] is Unlocked
            &&& after.waiting == before.waiting
            &&& forall|other: u128|
                #[trigger] after.peers.contains_key(other) == before.peers.contains_key(other)
            &&& forall|other: u128|
                other != peer.0 && before.peers.contains_key(other) ==> #[trigger] after.peers[other]
                    == before.peers[other]
            &&& before.peers.contains_key(peer.0) && channel.0 >= before.peers[peer.0].len() ==> {
                &&& after.peers[peer.0] == before.peers[peer.0]
            }
            &&& before.peers.contains_key(peer.0) && channel.0 < before.peers[peer.0].len() ==> {
                let channels = before.peers[peer.0];
                let now = after.peers[peer.0];
                let at = channel.0 as int;
                &&& now.len() == channels.len()
                &&& forall|i: int|
                    0 <= i < channels.len() && i != at ==> #[trigger] now[i] == channels[i]
                &&& match channels[at] {
                    DataChannelTx::DataChannel(_) => now[at] == channels[at],
                    DataChannelTx::Taken(told) => {
                        &&& now[at] is Taken
                        &&& now[at]->Taken_0.channel() == told.channel()
                        &&& now[at]->Taken_0.handed_out() == told.handed_out()
                        &&& now[at]->Taken_0.offered() == told.offered().push(())
                    },
                }
            }
        }),
{
}

/// The queue of events that is lent is the receiver's own.
pub proof fn events_that_are_lent_are_its_own(
    rx: &mut SimpleWebRtcRx,
    events: &mut mpsc::UnboundedReceiver<SimpleWebRtcEvent>,
)
    requires
        call_ensures(SimpleWebRtcRx::events_mut, (rx,), events),
    ensures
        *old(events) == old(rx).events(),
        final(rx).events() == *final(events),
        final(rx).streams() == old(rx).streams(),
        final(rx).table() == old(rx).table(),
{
}

} // verus!
