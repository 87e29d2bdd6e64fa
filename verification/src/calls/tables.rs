//! What each call on a table of data channels does, told by what goes in and what comes out.
use crate::data_channel::BoxDataChannel;
use crate::protocol::{ChannelIndex, Packet, PeerId};
use crate::tx_table::{DataChannelSink, DataChannelTx, TakeError, TxTable};
use vstd::prelude::*;

verus! {

/// A data channel can be taken once. What is left behind leads to whoever took it.
pub proof fn channel_is_taken_once(
    tx: &mut DataChannelTx,
    taken: Result<DataChannelSink, TakeError>,
)
    requires
        call_ensures(DataChannelTx::take, (tx,), taken),
    ensures
        match *old(tx) {
            DataChannelTx::Taken(_) => {
                &&& taken == Err::<DataChannelSink, _>(TakeError::AlreadyTaken)
                &&& *final(tx) == *old(tx)
            },
            DataChannelTx::DataChannel(data_channel) => {
                &&& taken is Ok
                &&& taken->Ok_0.channel == data_channel
                &&& *final(tx) is Taken
                &&& final(tx)->Taken_0.channel() == taken->Ok_0.buffer_low.channel()
                &&& final(tx)->Taken_0.offered().len() == 0
                &&& final(tx)->Taken_0.handed_out() == 0
            },
        },
{
}

/// A packet, whatever it is, is written to a data channel, unless that was taken.
pub proof fn packet_is_written_unless_taken(
    tx: &mut DataChannelTx,
    packet: Packet,
    sent: Result<(), TakeError>,
)
    requires
        call_ensures(DataChannelTx::send, (tx, packet), sent),
    ensures
        match *old(tx) {
            DataChannelTx::Taken(_) => {
                &&& sent == Err::<(), _>(TakeError::AlreadyTaken)
                &&& *final(tx) == *old(tx)
            },
            DataChannelTx::DataChannel(data_channel) => {
                &&& sent is Ok
                &&& *final(tx) is DataChannel
                &&& final(tx)->DataChannel_0.0.written() == data_channel.0.written().push(packet)
            },
        },
{
}

/// Whoever took a data channel is told, once, that it has room again.
pub proof fn taker_of_a_channel_is_told(tx: &mut DataChannelTx)
    requires
        call_ensures(DataChannelTx::buffer_low, (tx,), ()),
    ensures
        match *old(tx) {
            DataChannelTx::DataChannel(_) => *final(tx) == *old(tx),
            DataChannelTx::Taken(told) => {
                &&& *final(tx) is Taken
                &&& final(tx)->Taken_0.channel() == told.channel()
                &&& final(tx)->Taken_0.handed_out() == told.handed_out()
                &&& final(tx)->Taken_0.offered() == told.offered().push(())
            },
        },
{
}

/// A new table has no peers, and no channels that wait.
pub proof fn new_table_is_empty(table: TxTable)
    requires
        call_ensures(TxTable::new, (), table),
    ensures
        forall|peer: u128| !#[trigger] table@.peers.contains_key(peer),
        forall|peer: u128| !#[trigger] table@.waiting.contains_key(peer),
{
}

/// The channel that is asked for is the one that is taken, once, and every other channel of every
/// peer is left alone. What is wrong with the peer or the channel is told.
pub proof fn channel_asked_for_is_taken(
    table: &mut TxTable,
    peer: PeerId,
    channel: ChannelIndex,
    taken: Result<DataChannelSink, TakeError>,
)
    requires
        call_ensures(TxTable::take_sink, (table, peer, channel), taken),
    ensures
        ({
            let before = old(table)@;
            let after = final(table)@;
            &&& after.waiting == before.waiting
            &&& forall|other: u128|
                #[trigger] after.peers.contains_key(other) == before.peers.contains_key(other)
            &&& forall|other: u128|
                other != peer.0 && before.peers.contains_key(other) ==> #[trigger] after.peers[other]
                    == before.peers[other]
            &&& !before.peers.contains_key(peer.0) ==> taken == Err::<DataChannelSink, _>(TakeError::InvalidPeer)
            &&& before.peers.contains_key(peer.0) && channel.0 >= before.peers[peer.0].len() ==> {
                &&& taken == Err::<DataChannelSink, _>(TakeError::InvalidChannel)
                &&& after.peers[peer.0] == before.peers[peer.0]
            }
            &&& before.peers.contains_key(peer.0) && channel.0 < before.peers[peer.0].len() ==> {
                let channels = before.peers[peer.0];
                let now = after.peers[peer.0];
                let at = channel.0 as int;
                &&& now.len() == channels.len()
                &&& forall|i: int|
                    0 <= i < channels.len() && i != at ==> #[trigger] now[i] == channels[i]
                &&& match channels[at] {
                    DataChannelTx::Taken(_) => {
                        &&& taken == Err::<DataChannelSink, _>(TakeError::AlreadyTaken)
                        &&& now[at] == channels[at]
                    },
                    DataChannelTx::DataChannel(data_channel) => {
                        &&& taken is Ok
                        &&& taken->Ok_0.channel == data_channel
                        &&& now[at] is Taken
                        &&& now[at]->Taken_0.channel() == taken->Ok_0.buffer_low.channel()
                        &&& now[at]->Taken_0.offered().len() == 0
                        &&& now[at]->Taken_0.handed_out() == 0
                    },
                }
            }
        }),
{
}

/// A packet, whatever it is, is written to the channel that is asked for and to no other, unless the
/// channel was taken. What is wrong with the peer or the channel is told.
pub proof fn packet_is_written_to_the_channel_asked_for(
    table: &mut TxTable,
    peer: PeerId,
    channel: ChannelIndex,
    packet: Packet,
    sent: Result<(), TakeError>,
)
    requires
        call_ensures(TxTable::send, (table, peer, channel, packet), sent),
    ensures
        ({
            let before = old(table)@;
            let after = final(table)@;
            &&& after.waiting == before.waiting
            &&& forall|other: u128|
                #[trigger] after.peers.contains_key(other) == before.peers.contains_key(other)
            &&& forall|other: u128|
                other != peer.0 && before.peers.contains_key(other) ==> #[trigger] after.peers[other]
                    == before.peers[other]
            &&& !before.peers.contains_key(peer.0) ==> sent == Err::<(), _>(TakeError::InvalidPeer)
            &&& before.peers.contains_key(peer.0) && channel.0 >= before.peers[peer.0].len() ==> {
                &&& sent == Err::<(), _>(TakeError::InvalidChannel)
                &&& after.peers[peer.0] == before.peers[peer.0]
            }
            &&& before.peers.contains_key(peer.0) && channel.0 < before.peers[peer.0].len() ==> {
                let channels = before.peers[peer.0];
                let now = after.peers[peer.0];
                let at = channel.0 as int;
                &&& now.len() == channels.len()
                &&& forall|i: int|
                    0 <= i < channels.len() && i != at ==> #[trigger] now[i] == channels[i]
                &&& match channels[at] {
                    DataChannelTx::Taken(_) => {
                        &&& sent == Err::<(), _>(TakeError::AlreadyTaken)
                        &&& now[at] == channels[at]
                    },
                    DataChannelTx::DataChannel(data_channel) => {
                        &&& sent is Ok
                        &&& now[at] is DataChannel
                        &&& now[at]->DataChannel_0.0.written() == data_channel.0.written().push(packet)
                    },
                }
            }
        }),
{
}

/// Whoever took a channel that has room again is told, once, and nobody else is.
pub proof fn taker_is_told_once(
    table: &mut TxTable,
    peer: PeerId,
    channel: ChannelIndex,
)
    requires
        call_ensures(TxTable::buffer_low, (table, peer, channel), ()),
    ensures
        ({
            let before = old(table)@;
            let after = final(table)@;
            &&& after.waiting == before.waiting
            &&& forall|other: u128|
                #[trigger] after.peers.contains_key(other) == before.peers.contains_key(other)
            &&& forall|other: u128|
                other != peer.0 && before.peers.contains_key(other) ==> #[trigger] after.peers[other]
                    == before.peers[other]
            &&& before.peers.contains_key(peer.0) && channel.0 >= before.peers[peer.0].len() ==> {
                &&& after.peers[peer.0] == before.peers[peer.0]
            }
            &&& before.peers.contains_key(peer.0) && channel.0 < before.peers[peer.0].len() ==> {
                let channels = before.peers[peer.0];
                let now = after.peers[peer.0];
                let at = channel.0 as int;
                &&& now.len() == channels.len()
                &&& forall|i: int|
                    0 <= i < channels.len() && i != at ==> #[trigger] now[i] == channels[i]
                &&& match channels[at] {
                    DataChannelTx::DataChannel(_) => now[at] == channels[at],
                    DataChannelTx::Taken(told) => {
                        &&& now[at] is Taken
                        &&& now[at]->Taken_0.channel() == told.channel()
                        &&& now[at]->Taken_0.handed_out() == told.handed_out()
                        &&& now[at]->Taken_0.offered() == told.offered().push(())
                    },
                }
            }
        }),
{
}

/// Channels that are added wait behind those that were added for the same peer before, and no channel
/// can be written to that could not be before.
pub proof fn added_channels_wait_behind_others(
    table: &mut TxTable,
    peer: PeerId,
    channels: Vec<BoxDataChannel>,
)
    requires
        call_ensures(TxTable::add_peer, (table, peer, channels), ()),
    ensures
        ({
            let before = old(table)@;
            let after = final(table)@;
            &&& after.peers == before.peers
            &&& after.waiting.contains_key(peer.0)
            &&& !before.waiting.contains_key(peer.0) ==> after.waiting[peer.0] == seq![channels@]
            &&& before.waiting.contains_key(peer.0) ==> after.waiting[peer.0] == before.waiting[peer.0].push(
                channels@,
            )
            &&& forall|other: u128|
                other != peer.0 ==> #[trigger] after.waiting.contains_key(other)
                    == before.waiting.contains_key(other)
            &&& forall|other: u128|
                other != peer.0 && before.waiting.contains_key(other) ==> #[trigger] after.waiting[other]
                    == before.waiting[other]
        }),
{
}

/// A peer that is connected has the channels that waited for it first, all of them ready. If none
/// waited, it keeps those it has.
pub proof fn first_lot_becomes_reachable(
    table: &mut TxTable,
    peer: PeerId,
)
    requires
        call_ensures(TxTable::connect_peer, (table, peer), ()),
    ensures
        ({
            let before = old(table)@;
            let after = final(table)@;
            &&& forall|other: u128|
                #[trigger] after.peers.contains_key(other) <==> other == peer.0
                    || before.peers.contains_key(other)
            &&& forall|other: u128|
                other != peer.0 && before.peers.contains_key(other) ==> #[trigger] after.peers[other]
                    == before.peers[other]
            &&& forall|other: u128|
                #[trigger] after.waiting.contains_key(other) == before.waiting.contains_key(other)
            &&& forall|other: u128|
                other != peer.0 && before.waiting.contains_key(other) ==> #[trigger] after.waiting[other]
                    == before.waiting[other]
            &&& if before.waiting.contains_key(peer.0) && before.waiting[peer.0].len() > 0 {
                let lot = before.waiting[peer.0][0];
                &&& after.waiting[peer.0].len() == before.waiting[peer.0].len() - 1
                &&& forall|i: int|
                    0 <= i < after.waiting[peer.0].len() ==> #[trigger] after.waiting[peer.0][i]
                        == before.waiting[peer.0][i + 1]
                &&& after.peers[peer.0].len() == lot.len()
                &&& forall|i: int|
                    0 <= i < lot.len() ==> #[trigger] after.peers[peer.0][i]
                        == DataChannelTx::DataChannel(lot[i])
            } else {
                &&& after.waiting == before.waiting
                &&& before.peers.contains_key(peer.0) ==> after.peers[peer.0] == before.peers[peer.0]
                &&& !before.peers.contains_key(peer.0) ==> after.peers[peer.0].len() == 0
            }
        }),
{
}

/// A peer that is removed has no channels any more. What waits goes on waiting, and no other peer is
/// touched.
pub proof fn removed_peer_has_no_channels(
    table: &mut TxTable,
    peer: PeerId,
)
    requires
        call_ensures(TxTable::remove_peer, (table, peer), ()),
    ensures
        ({
            let before = old(table)@;
            let after = final(table)@;
            &&& after.waiting == before.waiting
            &&& forall|other: u128|
                #[trigger] after.peers.contains_key(other) <==> other != peer.0
                    && before.peers.contains_key(other)
            &&& forall|other: u128|
                other != peer.0 && before.peers.contains_key(other) ==> #[trigger] after.peers[other]
                    == before.peers[other]
        }),
{
}

} // verus!
