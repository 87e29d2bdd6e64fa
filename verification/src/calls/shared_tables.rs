//! What each call on a shared table of data channels does, told by what goes in and what comes out.
//!
//! Each call is one visit to the table. What it found and what it left is what the last session
//! tells.
use crate::data_channel::BoxDataChannel;
use crate::protocol::{ChannelIndex, Packet, PeerId};
use crate::shared_table::SharedTable;
use crate::table_lock::made_with;
use crate::tx_table::{DataChannelSink, DataChannelTx, TakeError, TxTable};
use vstd::prelude::*;

verus! {

/// A table that is shared is the one that was given, and was not visited yet.
pub proof fn given_table_is_shared(table: TxTable, shared: SharedTable)
    requires
        call_ensures(SharedTable::new, (table,), shared),
    ensures
        made_with(shared.handle().lock()) == table,
        shared.handle().handed_out() == 0,
        shared.handle().opened() == 0,
        shared.handle().sessions().len() == 0,
{
}

/// Another handle leads to the same table, and is counted.
pub proof fn another_handle_is_counted(table: &mut SharedTable, other: SharedTable)
    requires
        call_ensures(SharedTable::another, (table,), other),
    ensures
        other.handle().lock() == old(table).handle().lock(),
        other.handle().handed_out() == 0,
        other.handle().opened() == 0,
        other.handle().sessions().len() == 0,
        final(table).handle().lock() == old(table).handle().lock(),
        final(table).handle().handed_out() == old(table).handle().handed_out() + 1,
        final(table).handle().opened() == old(table).handle().opened(),
        final(table).handle().sessions() == old(table).handle().sessions(),
{
}

/// The channel that is asked for is the one that is taken, once, and every other channel of every
/// peer is left alone. What is wrong with the peer or the channel is told.
pub proof fn shared_channel_asked_for_is_taken(
    table: &mut SharedTable,
    peer: PeerId,
    channel: ChannelIndex,
    taken: Result<DataChannelSink, TakeError>,
)
    requires
        call_ensures(SharedTable::take_sink, (table, peer, channel), taken),
    ensures
        final(table).handle().lock() == old(table).handle().lock(),
        final(table).handle().handed_out() == old(table).handle().handed_out(),
        final(table).handle().opened() == old(table).handle().opened() + 1,
        ({
            let last = final(table).handle().sessions().last();
            let before = last[0]->Locked_0@;
            let after = last[1]->Unlocked_0@;
            &&& final(table).handle().sessions() == old(table).handle().sessions().push(last)
            &&& last.len() == 2
            &&& last[0] is Locked
            &&& last[1] is Unlocked
            &&& after.waiting == before.waiting
            &&& forall|other: u128|
                #[trigger] after.peers.contains_key(other) == before.peers.contains_key(other)
            &&& forall|other: u128|
                other != peer.0 && before.peers.contains_key(other) ==> #[trigger] after.peers[other]
                    == before.peers[other]
            &&& !before.peers.contains_key(peer.0) ==> taken == Err::<DataChannelSink, _>(TakeError::InvalidPeer)
            &&& before.peers.contains_key(peer.0) && channel.0 >= before.peers[peer.0].len() ==> {
                &&& taken == Err::<DataChannelSink, _>(TakeError::InvalidChannel)
                &&& after.peers[peer.0] == before.peers[peer.0]
            }
            &&& before.peers.contains_key(peer.0) && channel.0 < before.peers[peer.0].len() ==> {
                let channels = before.peers[peer.0];
                let now = after.peers[peer.0];
                let at = channel.0 as int;
                &&& now.len() == channels.len()
                &&& forall|i: int|
                    0 <= i < channels.len() && i != at ==> #[trigger] now[i] == channels[i]
                &&& match channels[at] {
                    DataChannelTx::Taken(_) => {
                        &&& taken == Err::<DataChannelSink, _>(TakeError::AlreadyTaken)
                        &&& now[at] == channels[at]
                    },
                    DataChannelTx::DataChannel(data_channel) => {
                        &&& taken is Ok
                        &&& taken->Ok_0.channel == data_channel
                        &&& now[at] is Taken
                        &&& now[at]->Taken_0.channel() == taken->Ok_0.buffer_low.channel()
                        &&& now[at]->Taken_0.offered().len() == 0
                        &&& now[at]->Taken_0.handed_out() == 0
                    },
                }
            }
        }),
{
}

/// A packet, whatever it is, is written to the channel that is asked for and to no other, unless the
/// channel was taken. What is wrong with the peer or the channel is told.
pub proof fn shared_packet_is_written_to_the_channel_asked_for(
    table: &mut SharedTable,
    peer: PeerId,
    channel: ChannelIndex,
    packet: Packet,
    sent: Result<(), TakeError>,
)
    requires
        call_ensures(SharedTable::send, (table, peer, channel, packet), sent),
    ensures
        final(table).handle().lock() == old(table).handle().lock(),
        final(table).handle().handed_out() == old(table).handle().handed_out(),
        final(table).handle().opened() == old(table).handle().opened() + 1,
        ({
            let last = final(table).handle().sessions().last();
            let before = last[0]->Locked_0@;
            let after = last[1]->Unlocked_0@;
            &&& final(table).handle().sessions() == old(table).handle().sessions().push(last)
            &&& last.len() == 2
            &&& last[0] is Locked
            &&& last[1] is Unlocked
            &&& after.waiting == before.waiting
            &&& forall|other: u128|
                #[trigger] after.peers.contains_key(other) == before.peers.contains_key(other)
            &&& forall|other: u128|
                other != peer.0 && before.peers.contains_key(other) ==> #[trigger] after.peers[other]
                    == before.peers[other]
            &&& !before.peers.contains_key(peer.0) ==> sent == Err::<(), _>(TakeError::InvalidPeer)
            &&& before.peers.contains_key(peer.0) && channel.0 >= before.peers[peer.0].len() ==> {
                &&& sent == Err::<(), _>(TakeError::InvalidChannel)
                &&& after.peers[peer.0] == before.peers[peer.0]
            }
            &&& before.peers.contains_key(peer.0) && channel.0 < before.peers[peer.0].len() ==> {
                let channels = before.peers[peer.0];
                let now = after.peers[peer.0];
                let at = channel.0 as int;
                &&& now.len() == channels.len()
                &&& forall|i: int|
                    0 <= i < channels.len() && i != at ==> #[trigger] now[i] == channels[i]
                &&& match channels[at] {
                    DataChannelTx::Taken(_) => {
                        &&& sent == Err::<(), _>(TakeError::AlreadyTaken)
                        &&& now[at] == channels[at]
                    },
                    DataChannelTx::DataChannel(data_channel) => {
                        &&& sent is Ok
                        &&& now[at] is DataChannel
                        &&& now[at]->DataChannel_0.0.written() == data_channel.0.written().push(packet)
                    },
                }
            }
        }),
{
}

/// Whoever took a channel that has room again is told, once, and nobody else is.
pub proof fn shared_taker_is_told_once(
    table: &mut SharedTable,
    peer: PeerId,
    channel: ChannelIndex,
)
    requires
        call_ensures(SharedTable::buffer_low, (table, peer, channel), ()),
    ensures
        final(table).handle().lock() == old(table).handle().lock(),
        final(table).handle().handed_out() == old(table).handle().handed_out(),
        final(table).handle().opened() == old(table).handle().opened() + 1,
        ({
            let last = final(table).handle().sessions().last();
            let before = last[0]->Locked_0@;
            let after = last[1]->Unlocked_0@;
            &&& final(table).handle().sessions() == old(table).handle().sessions().push(last)
            &&& last.len() == 2
            &&& last[0] is Locked
            &&& last[1] is Unlocked
            &&& after.waiting == before.waiting
            &&& forall|other: u128|
                #[trigger] after.peers.contains_key(other) == before.peers.contains_key(other)
            &&& forall|other: u128|
                other != peer.0 && before.peers.contains_key(other) ==> #[trigger] after.peers[other]
                    == before.peers[other]
            &&& before.peers.contains_key(peer.0) && channel.0 >= before.peers[peer.0].len() ==> {
                &&& after.peers[peer.0] == before.peers[peer.0]
            }
            &&& before.peers.contains_key(peer.0) && channel.0 < before.peers[peer.0].len() ==> {
                let channels = before.peers[peer.0];
                let now = after.peers[peer.0];
                let at = channel.0 as int;
                &&& now.len() == channels.len()
                &&& forall|i: int|
                    0 <= i < channels.len() && i != at ==> #[trigger] now[i] == channels[i]
                &&& match channels[at] {
                    DataChannelTx::DataChannel(_) => now[at] == channels[at],
                    DataChannelTx::Taken(told) => {
                        &&& now[at] is Taken
                        &&& now[at]->Taken_0.channel() == told.channel()
                        &&& now[at]->Taken_0.handed_out() == told.handed_out()
                        &&& now[at]->Taken_0.offered() == told.offered().push(())
                    },
                }
            }
        }),
{
}

/// Channels that are added wait behind those that were added for the same peer before, and no channel
/// can be written to that could not be before.
pub proof fn shared_added_channels_wait_behind_others(
    table: &mut SharedTable,
    peer: PeerId,
    channels: Vec<BoxDataChannel>,
)
    requires
        call_ensures(SharedTable::add_peer, (table, peer, channels), ()),
    ensures
        final(table).handle().lock() == old(table).handle().lock(),
        final(table).handle().handed_out() == old(table).handle().handed_out(),
        final(table).handle().opened() == old(table).handle().opened() + 1,
        ({
            let last = final(table).handle().sessions().last();
            let before = last[0]->Locked_0@;
            let after = last[1]->Unlocked_0@;
            &&& final(table).handle().sessions() == old(table).handle().sessions().push(last)
            &&& last.len() == 2
            &&& last[0] is Locked
            &&& last[1] is Unlocked
            &&& after.peers == before.peers
            &&& after.waiting.contains_key(peer.0)
            &&& !before.waiting.contains_key(peer.0) ==> after.waiting[peer.0] == seq![channels@]
            &&& before.waiting.contains_key(peer.0) ==> after.waiting[peer.0] == before.waiting[peer.0].push(
                channels@,
            )
            &&& forall|other: u128|
                other != peer.0 ==> #[trigger] after.waiting.contains_key(other)
                    == before.waiting.contains_key(other)
            &&& forall|other: u128|
                other != peer.0 && before.waiting.contains_key(other) ==> #[trigger] after.waiting[other]
                    == before.waiting[other]
        }),
{
}

/// A peer that is connected has the channels that waited for it first, all of them ready. If none
/// waited, it keeps those it has.
pub proof fn shared_first_lot_becomes_reachable(
    table: &mut SharedTable,
    peer: PeerId,
)
    requires
        call_ensures(SharedTable::connect_peer, (table, peer), ()),
    ensures
        final(table).handle().lock() == old(table).handle().lock(),
        final(table).handle().handed_out() == old(table).handle().handed_out(),
        final(table).handle().opened() == old(table).handle().opened() + 1,
        ({
            let last = final(table).handle().sessions().last();
            let before = last[0]->Locked_0@;
            let after = last[1]->Unlocked_0@;
            &&& final(table).handle().sessions() == old(table).handle().sessions().push(last)
            &&& last.len() == 2
            &&& last[0] is Locked
            &&& last[1] is Unlocked
            &&& forall|other: u128|
                #[trigger] after.peers.contains_key(other) <==> other == peer.0
                    || before.peers.contains_key(other)
            &&& forall|other: u128|
                other != peer.0 && before.peers.contains_key(other) ==> #[trigger] after.peers[other]
                    == before.peers[other]
            &&& forall|other: u128|
                #[trigger] after.waiting.contains_key(other) == before.waiting.contains_key(other)
            &&& forall|other: u128|
                other != peer.0 && before.waiting.contains_key(other) ==> #[trigger] after.waiting[other]
                    == before.waiting[other]
            &&& if before.waiting.contains_key(peer.0) && before.waiting[peer.0].len() > 0 {
                let lot = before.waiting[peer.0][0];
                &&& after.waiting[peer.0].len() == before.waiting[peer.0].len() - 1
                &&& forall|i: int|
                    0 <= i < after.waiting[peer.0].len() ==> #[trigger] after.waiting[peer.0][i]
                        == before.waiting[peer.0][i + 1]
                &&& after.peers[peer.0].len() == lot.len()
                &&& forall|i: int|
                    0 <= i < lot.len() ==> #[trigger] after.peers[peer.0][i]
                        == DataChannelTx::DataChannel(lot[i])
            } else {
                &&& after.waiting == before.waiting
                &&& before.peers.contains_key(peer.0) ==> after.peers[peer.0] == before.peers[peer.0]
                &&& !before.peers.contains_key(peer.0) ==> after.peers[peer.0].len() == 0
            }
        }),
{
}

/// A peer that is removed has no channels any more. What waits goes on waiting, and no other peer is
/// touched.
pub proof fn shared_removed_peer_has_no_channels(
    table: &mut SharedTable,
    peer: PeerId,
)
    requires
        call_ensures(SharedTable::remove_peer, (table, peer), ()),
    ensures
        final(table).handle().lock() == old(table).handle().lock(),
        final(table).handle().handed_out() == old(table).handle().handed_out(),
        final(table).handle().opened() == old(table).handle().opened() + 1,
        ({
            let last = final(table).handle().sessions().last();
            let before = last[0]->Locked_0@;
            let after = last[1]->Unlocked_0@;
            &&& final(table).handle().sessions() == old(table).handle().sessions().push(last)
            &&& last.len() == 2
            &&& last[0] is Locked
            &&& last[1] is Unlocked
            &&& after.waiting == before.waiting
            &&& forall|other: u128|
                #[trigger] after.peers.contains_key(other) <==> other != peer.0
                    && before.peers.contains_key(other)
            &&& forall|other: u128|
                other != peer.0 && before.peers.contains_key(other) ==> #[trigger] after.peers[other]
                    == before.peers[other]
        }),
{
}

} // verus!
