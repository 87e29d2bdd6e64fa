//! What holds of the table of data channels over every use of it.
use crate::data_channel::BoxDataChannel;
use crate::protocol::{ChannelIndex, Packet, PeerId};
use crate::shared_table::{one_visit, visit_to, SharedTable};
use crate::simple::{observed, SimpleWebRtcEvent};
use crate::tx_table::{
    buffer_low_at_step, channel_at, send_step, take_sink_step, with_connected, with_waiting, without,
    DataChannelSink, DataChannelTx, TableView, TakeError, TxTable,
};
use vstd::prelude::*;

verus! {

/// A use of the table, with what came of it.
pub ghost enum TableUse {
    Add(PeerId, Seq<BoxDataChannel>),
    Connect(PeerId),
    Remove(PeerId),
    Take(PeerId, ChannelIndex, Result<DataChannelSink, TakeError>),
    Send(PeerId, ChannelIndex, Packet, Result<(), TakeError>),
    BufferLow(PeerId, ChannelIndex),
}

/// `before` becomes `after` by `used`.
pub open spec fn table_step(
    before: TableView,
    used: TableUse,
    after: TableView,
) -> bool {
    match used {
        TableUse::Add(peer, channels) => after == with_waiting(before, peer, channels),
        TableUse::Connect(peer) => after == with_connected(before, peer),
        TableUse::Remove(peer) => after == without(before, peer),
        TableUse::Take(peer, channel, taken) => take_sink_step(before, peer, channel, after, taken),
        TableUse::Send(peer, channel, packet, sent) => send_step(
            before,
            peer,
            channel,
            packet,
            after,
            sent,
        ),
        TableUse::BufferLow(peer, channel) => buffer_low_at_step(before, peer, channel, after),
    }
}

/// The table went through `tables` by `uses`.
pub open spec fn table_run(tables: Seq<TableView>, uses: Seq<TableUse>) -> bool {
    &&& tables.len() == uses.len() + 1
    &&& forall|i: int|
        #![trigger uses[i]]
        0 <= i < uses.len() ==> table_step(tables[i], uses[i], tables[i + 1])
}

/// Throughout `uses`, `peer` is neither connected nor removed.
pub open spec fn remains(peer: PeerId, uses: Seq<TableUse>) -> bool {
    forall|i: int|
        #![trigger uses[i]]
        0 <= i < uses.len() ==> {
            &&& uses[i] != TableUse::Connect(peer)
            &&& uses[i] != TableUse::Remove(peer)
        }
}

/// Throughout `uses`, nobody takes `channel` of `peer`.
pub open spec fn not_taken(peer: PeerId, channel: ChannelIndex, uses: Seq<TableUse>) -> bool {
    forall|i: int|
        #![trigger uses[i]]
        0 <= i < uses.len() ==> !(uses[i] matches TableUse::Take(of_peer, number, _) && of_peer
            == peer && number == channel)
}

/// The packets that were to be written to `channel` of `peer` among `uses`, in order.
pub open spec fn packets_sent(
    peer: PeerId,
    channel: ChannelIndex,
    uses: Seq<TableUse>,
) -> Seq<Packet>
    decreases uses.len(),
{
    if uses.len() == 0 {
        Seq::empty()
    } else {
        let earlier = packets_sent(peer, channel, uses.drop_last());
        match uses.last() {
            TableUse::Send(to_peer, number, packet, _) => if to_peer == peer && number == channel {
                earlier.push(packet)
            } else {
                earlier
            },
            _ => earlier,
        }
    }
}

/// One message for each time that `channel` of `peer` had room again among `uses`.
pub open spec fn buffer_lows(peer: PeerId, channel: ChannelIndex, uses: Seq<TableUse>) -> Seq<()>
    decreases uses.len(),
{
    if uses.len() == 0 {
        Seq::empty()
    } else {
        let earlier = buffer_lows(peer, channel, uses.drop_last());
        if uses.last() == TableUse::BufferLow(peer, channel) {
            earlier.push(())
        } else {
            earlier
        }
    }
}

/// If it was to take `channel` of `peer` or to write to it, `used` failed with `error`.
pub open spec fn fails(
    used: TableUse,
    peer: PeerId,
    channel: ChannelIndex,
    error: TakeError,
) -> bool {
    match used {
        TableUse::Take(of_peer, number, taken) => of_peer == peer && number == channel ==> taken
            == Err::<DataChannelSink, _>(error),
        TableUse::Send(to_peer, number, _, sent) => to_peer == peer && number == channel ==> sent
            == Err::<(), _>(error),
        _ => true,
    }
}

/// If it was to write to `channel` of `peer`, `used` did so.
pub open spec fn sends(used: TableUse, peer: PeerId, channel: ChannelIndex) -> bool {
    match used {
        TableUse::Send(to_peer, number, _, sent) => to_peer == peer && number == channel
            ==> sent is Ok,
        _ => true,
    }
}

/// A run without its last use.
proof fn run_before_last(tables: Seq<TableView>, uses: Seq<TableUse>)
    requires
        table_run(tables, uses),
        uses.len() > 0,
    ensures
        table_run(tables.drop_last(), uses.drop_last()),
        tables.drop_last().last() == tables[uses.len() - 1],
        tables.drop_last()[0] == tables[0],
        table_step(tables[uses.len() - 1], uses.last(), tables.last()),
        forall|peer: PeerId| remains(peer, uses) ==> #[trigger] remains(peer, uses.drop_last()),
        forall|peer: PeerId, channel: ChannelIndex|
            not_taken(peer, channel, uses) ==> #[trigger] not_taken(peer, channel, uses.drop_last()),
{
    let earlier = uses.drop_last();
    assert forall|i: int| #![trigger earlier[i]] 0 <= i < earlier.len() implies earlier[i]
        == uses[i] by {}
    assert forall|i: int| #![trigger earlier[i]] 0 <= i < earlier.len() implies table_step(
        tables.drop_last()[i],
        earlier[i],
        tables.drop_last()[i + 1],
    ) by {
        assert(earlier[i] == uses[i]);
    }
    assert(uses[uses.len() - 1] == uses.last());
}

/// A use of the table leaves alone every channel that it does not name, of every peer that it does
/// not connect or remove. That a peer is added leaves all channels alone.
pub proof fn channels_do_not_interfere(
    before: TableView,
    used: TableUse,
    after: TableView,
    peer: PeerId,
    channel: ChannelIndex,
)
    requires
        table_step(before, used, after),
        match used {
            TableUse::Add(_, _) => true,
            TableUse::Connect(connected) => connected != peer,
            TableUse::Remove(removed) => removed != peer,
            TableUse::Take(of_peer, number, _) => of_peer != peer || number != channel,
            TableUse::Send(to_peer, number, _, _) => to_peer != peer || number != channel,
            TableUse::BufferLow(of_peer, number) => of_peer != peer || number != channel,
        },
    ensures
        channel_at(after, peer, channel) == channel_at(before, peer, channel),
{
}

/// Once a channel is taken, it can neither be taken again nor written to through the table, for as
/// long as its peer remains.
pub proof fn taken_channel_stays_taken(
    tables: Seq<TableView>,
    uses: Seq<TableUse>,
    peer: PeerId,
    channel: ChannelIndex,
    sink: DataChannelSink,
)
    requires
        table_run(tables, uses),
        uses.len() > 0,
        uses[0] == TableUse::Take(peer, channel, Ok(sink)),
        remains(peer, uses),
    ensures
        channel_at(tables.last(), peer, channel) matches Ok(DataChannelTx::Taken(_)),
        forall|i: int|
            1 <= i < uses.len() ==> fails(#[trigger] uses[i], peer, channel, TakeError::AlreadyTaken),
    decreases uses.len(),
{
    run_before_last(tables, uses);
    if uses.len() > 1 {
        let earlier = uses.drop_last();
        assert(earlier[0] == uses[0]);
        taken_channel_stays_taken(tables.drop_last(), earlier, peer, channel, sink);
        assert forall|i: int| 1 <= i < uses.len() implies fails(
            #[trigger] uses[i],
            peer,
            channel,
            TakeError::AlreadyTaken,
        ) by {
            if i < uses.len() - 1 {
                assert(earlier[i] == uses[i]);
            }
        }
    }
}

/// The taker of a channel is told each time that the channel has room again, for as long as its
/// peer remains.
pub proof fn taker_is_told_of_room(
    tables: Seq<TableView>,
    uses: Seq<TableUse>,
    peer: PeerId,
    channel: ChannelIndex,
    sink: DataChannelSink,
)
    requires
        table_run(tables, uses),
        uses.len() > 0,
        uses[0] == TableUse::Take(peer, channel, Ok(sink)),
        remains(peer, uses),
    ensures
        channel_at(tables.last(), peer, channel) matches Ok(DataChannelTx::Taken(buffer_low))
            && buffer_low.channel() == sink.buffer_low.channel() && buffer_low.offered()
            == buffer_lows(peer, channel, uses),
    decreases uses.len(),
{
    run_before_last(tables, uses);
    let earlier = uses.drop_last();
    if uses.len() > 1 {
        assert(earlier[0] == uses[0]);
        taker_is_told_of_room(tables.drop_last(), earlier, peer, channel, sink);
        assert(uses[uses.len() - 1] == uses.last());
    } else {
        assert(buffer_lows(peer, channel, earlier) =~= Seq::empty());
    }
}

/// While nobody takes a channel and its peer remains, every packet is accepted and written to it, in
/// order, and nothing else is.
pub proof fn packets_are_written_in_order(
    tables: Seq<TableView>,
    uses: Seq<TableUse>,
    peer: PeerId,
    channel: ChannelIndex,
    start: BoxDataChannel,
)
    requires
        table_run(tables, uses),
        channel_at(tables[0], peer, channel) == Ok::<_, TakeError>(
            DataChannelTx::DataChannel(start),
        ),
        remains(peer, uses),
        not_taken(peer, channel, uses),
    ensures
        channel_at(tables.last(), peer, channel) matches Ok(DataChannelTx::DataChannel(end))
            && end.written() == start.written() + packets_sent(peer, channel, uses),
        forall|i: int|
            0 <= i < uses.len() ==> sends(#[trigger] uses[i], peer, channel),
    decreases uses.len(),
{
    if uses.len() > 0 {
        run_before_last(tables, uses);
        let earlier = uses.drop_last();
        packets_are_written_in_order(tables.drop_last(), earlier, peer, channel, start);
        assert(uses[uses.len() - 1] == uses.last());
        assert forall|i: int| 0 <= i < uses.len() implies sends(
            #[trigger] uses[i],
            peer,
            channel,
        ) by {
            if i < uses.len() - 1 {
                assert(earlier[i] == uses[i]);
            }
        }
    }
}

/// Whoever takes a channel gets it with everything that was written to it before.
pub proof fn sink_keeps_what_was_written(
    tables: Seq<TableView>,
    uses: Seq<TableUse>,
    peer: PeerId,
    channel: ChannelIndex,
    start: BoxDataChannel,
    after: TableView,
    taken: Result<DataChannelSink, TakeError>,
)
    requires
        table_run(tables, uses),
        channel_at(tables[0], peer, channel) == Ok::<_, TakeError>(
            DataChannelTx::DataChannel(start),
        ),
        remains(peer, uses),
        not_taken(peer, channel, uses),
        take_sink_step(tables.last(), peer, channel, after, taken),
    ensures
        taken matches Ok(sink) && sink.channel.written() == start.written() + packets_sent(
            peer,
            channel,
            uses,
        ),
{
    packets_are_written_in_order(tables, uses, peer, channel, start);
}

/// Once a peer is removed, its channels can neither be taken nor written to, until it is connected
/// again. That channels wait for it makes no difference.
pub proof fn removed_peer_is_invalid(
    tables: Seq<TableView>,
    uses: Seq<TableUse>,
    peer: PeerId,
    channel: ChannelIndex,
)
    requires
        table_run(tables, uses),
        uses.len() > 0,
        uses[0] == TableUse::Remove(peer),
        forall|i: int|
            #![trigger uses[i]]
            1 <= i < uses.len() ==> uses[i] != TableUse::Connect(peer),
    ensures
        channel_at(tables.last(), peer, channel) == Err::<DataChannelTx, _>(TakeError::InvalidPeer),
        forall|i: int|
            1 <= i < uses.len() ==> fails(#[trigger] uses[i], peer, channel, TakeError::InvalidPeer),
    decreases uses.len(),
{
    run_before_last(tables, uses);
    if uses.len() > 1 {
        let earlier = uses.drop_last();
        assert forall|i: int| #![trigger earlier[i]] 0 <= i < earlier.len() implies earlier[i]
            == uses[i] by {}
        removed_peer_is_invalid(tables.drop_last(), earlier, peer, channel);
        assert(uses[uses.len() - 1] == uses.last());
        assert forall|i: int| 1 <= i < uses.len() implies fails(
            #[trigger] uses[i],
            peer,
            channel,
            TakeError::InvalidPeer,
        ) by {
            if i < uses.len() - 1 {
                assert(earlier[i] == uses[i]);
            }
        }
    }
}

/// If it was to take a channel of `peer` or to write to it, `used` did not fail for want of the peer.
pub open spec fn knows(used: TableUse, peer: PeerId) -> bool {
    match used {
        TableUse::Take(of_peer, _, taken) => of_peer == peer ==> taken != Err::<
            DataChannelSink,
            _,
        >(TakeError::InvalidPeer),
        TableUse::Send(to_peer, _, _, sent) => to_peer == peer ==> sent != Err::<(), _>(
            TakeError::InvalidPeer,
        ),
        _ => true,
    }
}

/// Once a peer is connected, there is such a peer, until it is removed.
pub proof fn connected_peer_is_known(tables: Seq<TableView>, uses: Seq<TableUse>, peer: PeerId)
    requires
        table_run(tables, uses),
        uses.len() > 0,
        uses[0] == TableUse::Connect(peer),
        forall|i: int|
            #![trigger uses[i]]
            1 <= i < uses.len() ==> uses[i] != TableUse::Remove(peer),
    ensures
        forall|channel: ChannelIndex| #[trigger]
            channel_at(tables.last(), peer, channel) != Err::<DataChannelTx, _>(
                TakeError::InvalidPeer,
            ),
        forall|i: int| 1 <= i < uses.len() ==> knows(#[trigger] uses[i], peer),
    decreases uses.len(),
{
    run_before_last(tables, uses);
    if uses.len() > 1 {
        let earlier = uses.drop_last();
        assert forall|i: int| #![trigger earlier[i]] 0 <= i < earlier.len() implies earlier[i]
            == uses[i] by {}
        connected_peer_is_known(tables.drop_last(), earlier, peer);
        assert(uses[uses.len() - 1] == uses.last());
        let during = tables[uses.len() - 1];
        assert(channel_at(during, peer, ChannelIndex(0)) != Err::<DataChannelTx, _>(
            TakeError::InvalidPeer,
        ));
        assert forall|i: int| 1 <= i < uses.len() implies knows(#[trigger] uses[i], peer) by {
            if i < uses.len() - 1 {
                assert(earlier[i] == uses[i]);
            }
        }
    }
}

/// A part of a run.
proof fn run_part(tables: Seq<TableView>, uses: Seq<TableUse>, from: int, to: int)
    requires
        table_run(tables, uses),
        0 <= from <= to <= uses.len(),
    ensures
        table_run(tables.subrange(from, to + 1), uses.subrange(from, to)),
        tables.subrange(from, to + 1).last() == tables[to],
{
    let part = uses.subrange(from, to);
    assert forall|i: int| #![trigger part[i]] 0 <= i < part.len() implies table_step(
        tables.subrange(from, to + 1)[i],
        part[i],
        tables.subrange(from, to + 1)[i + 1],
    ) by {
        assert(part[i] == uses[from + i]);
    }
}

/// The use that is made of the table when `event` is observed.
pub open spec fn use_of(event: SimpleWebRtcEvent) -> Option<TableUse> {
    match event {
        SimpleWebRtcEvent::PeerConnected(peer) => Some(TableUse::Connect(peer)),
        SimpleWebRtcEvent::PeerDisconnected(peer) => Some(TableUse::Remove(peer)),
        SimpleWebRtcEvent::TransmitBufferLow(peer, channel) => Some(
            TableUse::BufferLow(peer, channel),
        ),
        _ => None,
    }
}

/// When a receiver observes an event, it makes that use of the table, in one visit, or none.
pub proof fn observing_uses_the_table(
    start: SharedTable,
    event: SimpleWebRtcEvent,
    end: SharedTable,
)
    requires
        observed(start, event, end),
    ensures
        use_of(event) is None ==> end == start,
        use_of(event) matches Some(used) ==> exists|before: TxTable, after: TxTable|
            {
                &&& one_visit(start, #[trigger] visit_to(before, after), end)
                &&& table_step(before@, used, after@)
            },
{
}

/// Which peers there are follows from the events that were observed: from when a peer was observed
/// to connect until it was observed to disconnect, no channel of it is refused for want of the peer,
/// and from then on every channel of it is, until it connects again.
pub proof fn peers_follow_the_events(
    tables: Seq<TableView>,
    uses: Seq<TableUse>,
    peer: PeerId,
    connected: int,
    removed: int,
)
    requires
        table_run(tables, uses),
        0 <= connected < removed < uses.len(),
        use_of(SimpleWebRtcEvent::PeerConnected(peer)) == Some(uses[connected]),
        use_of(SimpleWebRtcEvent::PeerDisconnected(peer)) == Some(uses[removed]),
        forall|i: int|
            #![trigger uses[i]]
            connected < i < removed ==> uses[i] != TableUse::Remove(peer),
        forall|i: int|
            #![trigger uses[i]]
            removed < i < uses.len() ==> uses[i] != TableUse::Connect(peer),
    ensures
        forall|i: int| connected < i < removed ==> knows(#[trigger] uses[i], peer),
        forall|i: int, channel: ChannelIndex|
            removed < i < uses.len() ==> #[trigger] fails(
                uses[i],
                peer,
                channel,
                TakeError::InvalidPeer,
            ),
{
    let between = uses.subrange(connected, removed);
    run_part(tables, uses, connected, removed);
    assert forall|i: int| #![trigger between[i]] 1 <= i < between.len() implies between[i]
        != TableUse::Remove(peer) by {
        assert(between[i] == uses[connected + i]);
    }
    connected_peer_is_known(tables.subrange(connected, removed + 1), between, peer);
    assert forall|i: int| connected < i < removed implies knows(#[trigger] uses[i], peer) by {
        assert(between[i - connected] == uses[i]);
    }
    let after = uses.subrange(removed, uses.len() as int);
    run_part(tables, uses, removed, uses.len() as int);
    assert forall|i: int| #![trigger after[i]] 1 <= i < after.len() implies after[i]
        != TableUse::Connect(peer) by {
        assert(after[i] == uses[removed + i]);
    }
    assert forall|i: int, channel: ChannelIndex| removed < i < uses.len() implies #[trigger] fails(
        uses[i],
        peer,
        channel,
        TakeError::InvalidPeer,
    ) by {
        removed_peer_is_invalid(
            tables.subrange(removed, uses.len() as int + 1),
            after,
            peer,
            channel,
        );
        assert(after[i - removed] == uses[i]);
    }
}

/// The lots of channels that were added for `peer` among `uses`, in order.
pub open spec fn added_among(peer: PeerId, uses: Seq<TableUse>) -> Seq<Seq<BoxDataChannel>>
    decreases uses.len(),
{
    if uses.len() == 0 {
        Seq::empty()
    } else {
        let earlier = added_among(peer, uses.drop_last());
        match uses.last() {
            TableUse::Add(added, channels) => if added == peer {
                earlier.push(channels)
            } else {
                earlier
            },
            _ => earlier,
        }
    }
}

/// Channels that are added wait for their peer to be connected, in the order in which they were
/// added.
pub proof fn added_channels_wait(tables: Seq<TableView>, uses: Seq<TableUse>, peer: PeerId)
    requires
        table_run(tables, uses),
        forall|i: int|
            #![trigger uses[i]]
            0 <= i < uses.len() ==> uses[i] != TableUse::Connect(peer),
    ensures
        tables.last().waiting_for(peer) == tables[0].waiting_for(peer) + added_among(peer, uses),
    decreases uses.len(),
{
    if uses.len() > 0 {
        run_before_last(tables, uses);
        let earlier = uses.drop_last();
        assert forall|i: int| #![trigger earlier[i]] 0 <= i < earlier.len() implies earlier[i]
            != TableUse::Connect(peer) by {
            assert(earlier[i] == uses[i]);
        }
        added_channels_wait(tables.drop_last(), earlier, peer);
        assert(uses[uses.len() - 1] == uses.last());
    }
}

/// The channels that waited first for a peer can each be taken when the peer is connected, and no
/// others.
pub proof fn connected_channels_can_be_taken(
    before: TableView,
    peer: PeerId,
    during: TableView,
    channel: ChannelIndex,
    after: TableView,
    taken: Result<DataChannelSink, TakeError>,
)
    requires
        before.waiting_for(peer).len() > 0,
        table_step(before, TableUse::Connect(peer), during),
        take_sink_step(during, peer, channel, after, taken),
    ensures
        channel.0 < before.waiting_for(peer).first().len() ==> (taken matches Ok(sink)
            && sink.channel == before.waiting_for(peer).first()[channel.0 as int]),
        channel.0 >= before.waiting_for(peer).first().len() ==> taken == Err::<DataChannelSink, _>(
            TakeError::InvalidChannel,
        ),
{
}

/// From when a peer is connected, for as long as it remains, every packet to a channel of it that
/// nobody took is accepted and written to that channel, in order. The channels are those that waited
/// for the peer first.
pub proof fn connected_peer_can_be_written_to(
    tables: Seq<TableView>,
    uses: Seq<TableUse>,
    peer: PeerId,
    channel: ChannelIndex,
)
    requires
        table_run(tables, uses),
        uses.len() > 0,
        uses[0] == TableUse::Connect(peer),
        remains(peer, uses.skip(1)),
        not_taken(peer, channel, uses.skip(1)),
        tables[0].waiting_for(peer).len() > 0,
        channel.0 < tables[0].waiting_for(peer).first().len(),
    ensures
        channel_at(tables.last(), peer, channel) matches Ok(DataChannelTx::DataChannel(end))
            && end.written() == tables[0].waiting_for(peer).first()[channel.0 as int].written()
            + packets_sent(peer, channel, uses.skip(1)),
        forall|i: int| 1 <= i < uses.len() ==> sends(#[trigger] uses[i], peer, channel),
{
    let later = uses.skip(1);
    let later_tables = tables.skip(1);
    assert(table_step(tables[0], uses[0], tables[1]));
    assert forall|i: int| #![trigger later[i]] 0 <= i < later.len() implies table_step(
        later_tables[i],
        later[i],
        later_tables[i + 1],
    ) by {
        assert(later[i] == uses[i + 1]);
    }
    packets_are_written_in_order(
        later_tables,
        later,
        peer,
        channel,
        tables[0].waiting_for(peer).first()[channel.0 as int],
    );
    assert forall|i: int| 1 <= i < uses.len() implies sends(#[trigger] uses[i], peer, channel) by {
        assert(later[i - 1] == uses[i]);
    }
}

} // verus!
