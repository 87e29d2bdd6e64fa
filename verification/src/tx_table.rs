//! The data channels that a socket can write to.
use crate::channel::{unbounded, Inbox, Outbox};
use crate::data_channel::BoxDataChannel;
use crate::protocol::{ChannelIndex, Packet, PeerId};
use std::collections::hash_map::Entry;
use std::collections::HashMap;
use vstd::prelude::*;

verus! {

/// Why a data channel cannot be used.
#[derive(Clone, Copy, Debug, PartialEq, Eq, Structural)]
pub enum TakeError {
    /// Somebody else took it.
    AlreadyTaken,
    /// There is no such peer.
    InvalidPeer,
    /// The peer has no such channel.
    InvalidChannel,
}

/// A data channel as the socket knows it.
pub enum DataChannelTx {
    /// Buffer low channel. Left behind when taking the sink, to inform the sink when it should send
    /// more.
    Taken(Outbox<()>),
    /// The channel, ready to be written to.
    DataChannel(BoxDataChannel),
}

/// A data channel that was taken from the socket.
pub struct DataChannelSink {
    /// The channel.
    pub channel: BoxDataChannel,
    /// Tells when more should be sent.
    pub buffer_low: Inbox<()>,
}

/// `before` becomes `after`, with `taken`, when the channel is taken: once.
pub open spec fn take_step(
    before: DataChannelTx,
    after: DataChannelTx,
    taken: Result<DataChannelSink, TakeError>,
) -> bool {
    match before {
        DataChannelTx::DataChannel(channel) => {
            &&& taken matches Ok(sink)
            &&& sink.channel == channel
            &&& after matches DataChannelTx::Taken(buffer_low)
            &&& buffer_low.is_fresh_end_of(sink.buffer_low.channel())
        },
        DataChannelTx::Taken(_) => {
            &&& taken == Err::<DataChannelSink, _>(TakeError::AlreadyTaken)
            &&& after == before
        },
    }
}

/// `before` becomes `after`, with `sent`, when `packet` is to be written to the channel. That the
/// channel may not get it across is not reported.
pub open spec fn write_step(
    before: DataChannelTx,
    packet: Packet,
    after: DataChannelTx,
    sent: Result<(), TakeError>,
) -> bool {
    match before {
        DataChannelTx::DataChannel(channel) => {
            &&& sent is Ok
            &&& after matches DataChannelTx::DataChannel(written)
            &&& written.written() == channel.written().push(packet)
        },
        DataChannelTx::Taken(_) => {
            &&& sent == Err::<(), _>(TakeError::AlreadyTaken)
            &&& after == before
        },
    }
}

/// `before` becomes `after` when the channel has room again. Whoever took it is told.
pub open spec fn buffer_low_step(before: DataChannelTx, after: DataChannelTx) -> bool {
    match before {
        DataChannelTx::DataChannel(_) => after == before,
        DataChannelTx::Taken(buffer_low) => {
            &&& after matches DataChannelTx::Taken(told)
            &&& {
                ||| buffer_low.after_offer((), true, told)
                ||| buffer_low.after_offer((), false, told)
            }
        },
    }
}

impl DataChannelTx {
    /// Takes the channel, and leaves behind what it takes to inform the taker.
    pub fn take(&mut self) -> (taken: Result<DataChannelSink, TakeError>)
        ensures
            take_step(*old(self), *final(self), taken),
    {
        if matches!(&*self, DataChannelTx::DataChannel(_)) {
            let (buffer_low_tx, buffer_low_rx) = unbounded::<()>();
            let mut old_tx = DataChannelTx::Taken(buffer_low_tx);
            core::mem::swap(self, &mut old_tx);
            match old_tx {
                DataChannelTx::DataChannel(channel) => Ok(
                    DataChannelSink { channel, buffer_low: buffer_low_rx },
                ),
                DataChannelTx::Taken(_) => Err(TakeError::AlreadyTaken),
            }
        } else {
            Err(TakeError::AlreadyTaken)
        }
    }

    /// Writes `packet` to the channel, unless it was taken.
    pub fn send(&mut self, packet: Packet) -> (sent: Result<(), TakeError>)
        ensures
            write_step(*old(self), packet, *final(self), sent),
    {
        match self {
            DataChannelTx::DataChannel(channel) => {
                let _ = channel.send(packet);
                Ok(())
            },
            DataChannelTx::Taken(_) => Err(TakeError::AlreadyTaken),
        }
    }

    /// The channel has room again.
    pub fn buffer_low(&mut self)
        ensures
            buffer_low_step(*old(self), *final(self)),
    {
        match self {
            DataChannelTx::DataChannel(_) => {},
            DataChannelTx::Taken(buffer_low) => {
                let _ = buffer_low.unbounded_send(());
            },
        }
    }
}

/// The data channels of every peer, by the peer's number and the channel's position.
///
/// The channels of a peer that was added wait until the peer is connected. A peer that is added
/// again before that has several lots of channels that wait, each for one connection.
pub struct TxTable {
    peers: HashMap<u128, Vec<DataChannelTx>>,
    waiting: HashMap<u128, Vec<Vec<BoxDataChannel>>>,
}

/// What a [`TxTable`] holds.
#[verifier::ext_equal]
pub ghost struct TableView {
    /// The channels of the peers that are connected.
    pub peers: Map<u128, Seq<DataChannelTx>>,
    /// The channels that wait for their peers to be connected, in the order in which they were added.
    pub waiting: Map<u128, Seq<Seq<BoxDataChannel>>>,
}

impl TableView {
    /// The channels that wait for `peer` to be connected, in the order in which they were added.
    pub open spec fn waiting_for(self, peer: PeerId) -> Seq<Seq<BoxDataChannel>> {
        if self.waiting.contains_key(peer.0) {
            self.waiting[peer.0]
        } else {
            Seq::empty()
        }
    }
}

/// The channel at `channel` of `peer`, or why there is none.
pub open spec fn channel_at(table: TableView, peer: PeerId, channel: ChannelIndex) -> Result<
    DataChannelTx,
    TakeError,
> {
    if !table.peers.contains_key(peer.0) {
        Err(TakeError::InvalidPeer)
    } else if channel.0 >= table.peers[peer.0].len() {
        Err(TakeError::InvalidChannel)
    } else {
        Ok(table.peers[peer.0][channel.0 as int])
    }
}

/// `table` with `tx` at `channel` of `peer`.
pub open spec fn with_channel_at(
    table: TableView,
    peer: PeerId,
    channel: ChannelIndex,
    tx: DataChannelTx,
) -> TableView {
    TableView {
        peers: table.peers.insert(peer.0, table.peers[peer.0].update(channel.0 as int, tx)),
        ..table
    }
}

/// `table` with `channels` that wait for `peer` to be connected.
pub open spec fn with_waiting(
    table: TableView,
    peer: PeerId,
    channels: Seq<BoxDataChannel>,
) -> TableView {
    TableView {
        waiting: table.waiting.insert(peer.0, table.waiting_for(peer).push(channels)),
        ..table
    }
}

/// `table` after `peer` was connected: it has the channels that waited first. If none did, it keeps
/// those it has, if any.
pub open spec fn with_connected(table: TableView, peer: PeerId) -> TableView {
    let waiting = table.waiting_for(peer);
    if waiting.len() > 0 {
        TableView {
            peers: table.peers.insert(peer.0, all_ready(waiting.first())),
            waiting: table.waiting.insert(peer.0, waiting.skip(1)),
        }
    } else if table.peers.contains_key(peer.0) {
        table
    } else {
        TableView { peers: table.peers.insert(peer.0, Seq::empty()), ..table }
    }
}

/// `table` after `peer` was removed. Channels that wait go on waiting.
pub open spec fn without(table: TableView, peer: PeerId) -> TableView {
    TableView { peers: table.peers.remove(peer.0), ..table }
}

/// `before` becomes `after` by a change to the channel at `channel` of `peer` alone.
pub open spec fn only_channel_at_changes(
    before: TableView,
    peer: PeerId,
    channel: ChannelIndex,
    after: TableView,
) -> bool {
    &&& channel_at(after, peer, channel) is Ok
    &&& after == with_channel_at(before, peer, channel, channel_at(after, peer, channel)->Ok_0)
}

/// `before` becomes `after`, with `taken`, when `channel` of `peer` is taken.
pub open spec fn take_sink_step(
    before: TableView,
    peer: PeerId,
    channel: ChannelIndex,
    after: TableView,
    taken: Result<DataChannelSink, TakeError>,
) -> bool {
    match channel_at(before, peer, channel) {
        Ok(tx) => {
            &&& only_channel_at_changes(before, peer, channel, after)
            &&& take_step(tx, channel_at(after, peer, channel)->Ok_0, taken)
        },
        Err(error) => after == before && taken == Err::<DataChannelSink, _>(error),
    }
}

/// `before` becomes `after`, with `sent`, when `packet` is to be written to `channel` of `peer`.
pub open spec fn send_step(
    before: TableView,
    peer: PeerId,
    channel: ChannelIndex,
    packet: Packet,
    after: TableView,
    sent: Result<(), TakeError>,
) -> bool {
    match channel_at(before, peer, channel) {
        Ok(tx) => {
            &&& only_channel_at_changes(before, peer, channel, after)
            &&& write_step(tx, packet, channel_at(after, peer, channel)->Ok_0, sent)
        },
        Err(error) => after == before && sent == Err::<(), _>(error),
    }
}

/// `before` becomes `after` when `channel` of `peer` has room again.
pub open spec fn buffer_low_at_step(
    before: TableView,
    peer: PeerId,
    channel: ChannelIndex,
    after: TableView,
) -> bool {
    match channel_at(before, peer, channel) {
        Ok(tx) => {
            &&& only_channel_at_changes(before, peer, channel, after)
            &&& buffer_low_step(tx, channel_at(after, peer, channel)->Ok_0)
        },
        Err(_) => after == before,
    }
}

/// `channels`, none of them taken.
pub open spec fn all_ready(channels: Seq<BoxDataChannel>) -> Seq<DataChannelTx> {
    channels.map_values(|channel: BoxDataChannel| DataChannelTx::DataChannel(channel))
}

/// `channels`, none of them taken.
fn ready(channels: Vec<BoxDataChannel>) -> (txs: Vec<DataChannelTx>)
    ensures
        txs@ == all_ready(channels@),
{
    let ghost given = channels@;
    let mut txs: Vec<DataChannelTx> = Vec::new();
    for channel in readied: channels.into_iter()
        invariant
            readied.seq() == given,
            txs@ == all_ready(given.take(readied.index())),
    {
        txs.push(DataChannelTx::DataChannel(channel));
        assert(txs@ =~= all_ready(given.take(readied.index() + 1)));
    }
    assert(given.take(given.len() as int) =~= given);
    txs
}

impl View for TxTable {
    type V = TableView;

    closed spec fn view(&self) -> TableView {
        TableView {
            peers: self.peers@.map_values(|channels: Vec<DataChannelTx>| channels@),
            waiting: self.waiting@.map_values(|lots: Vec<Vec<BoxDataChannel>>| lots_of(lots@)),
        }
    }
}

/// The channels of each lot.
pub open spec fn lots_of(lots: Seq<Vec<BoxDataChannel>>) -> Seq<Seq<BoxDataChannel>> {
    lots.map_values(|channels: Vec<BoxDataChannel>| channels@)
}

impl TxTable {
    /// No peers.
    pub fn new() -> (table: TxTable)
        ensures
            table@ == (TableView { peers: Map::empty(), waiting: Map::empty() }),
    {
        let table = TxTable { peers: HashMap::new(), waiting: HashMap::new() };
        assert(table@ =~= (TableView { peers: Map::empty(), waiting: Map::empty() }));
        table
    }

    /// `peer` can be written to over `channels`, once it is connected.
    pub fn add_peer(&mut self, peer: PeerId, channels: Vec<BoxDataChannel>)
        ensures
            final(self)@ == with_waiting(old(self)@, peer, channels@),
    {
        let ghost before = self@;
        let mut lots: Vec<Vec<BoxDataChannel>> = match self.waiting.remove(&peer.0) {
            Some(lots) => lots,
            None => Vec::new(),
        };
        assert(lots_of(lots@) =~= before.waiting_for(peer));
        lots.push(channels);
        assert(lots_of(lots@) =~= before.waiting_for(peer).push(channels@));
        self.waiting.insert(peer.0, lots);
        assert(self@ =~= with_waiting(before, peer, channels@));
    }

    /// `peer` can be written to, over the channels that waited for it first.
    pub fn connect_peer(&mut self, peer: PeerId)
        ensures
            final(self)@ == with_connected(old(self)@, peer),
    {
        let ghost before = self@;
        match self.waiting.remove(&peer.0) {
            Some(mut lots) => {
                assert(lots_of(lots@) =~= before.waiting_for(peer));
                if lots.len() > 0 {
                    let channels = lots.remove(0);
                    assert(lots_of(lots@) =~= before.waiting_for(peer).skip(1));
                    assert(channels@ == before.waiting_for(peer).first());
                    self.peers.insert(peer.0, ready(channels));
                } else if !self.peers.contains_key(&peer.0) {
                    self.peers.insert(peer.0, Vec::new());
                }
                self.waiting.insert(peer.0, lots);
            },
            None => {
                if !self.peers.contains_key(&peer.0) {
                    self.peers.insert(peer.0, Vec::new());
                }
            },
        }
        assert(self@ =~= with_connected(before, peer));
    }

    /// `peer` can no longer be written to.
    pub fn remove_peer(&mut self, peer: PeerId)
        ensures
            final(self)@ == without(old(self)@, peer),
    {
        let ghost before = self@;
        self.peers.remove(&peer.0);
        assert(self@ =~= without(before, peer));
    }

    /// The channel at `channel` of `peer`, to use.
    fn channel_mut(&mut self, peer: PeerId, channel: ChannelIndex) -> (found: Result<
        &mut DataChannelTx,
        TakeError,
    >)
        ensures
            match found {
                Ok(tx) => {
                    &&& channel_at(old(self)@, peer, channel) == Ok::<_, TakeError>(*tx)
                    &&& final(self)@ == with_channel_at(old(self)@, peer, channel, *final(tx))
                },
                Err(error) => {
                    &&& channel_at(old(self)@, peer, channel) == Err::<DataChannelTx, _>(error)
                    &&& final(self)@ == old(self)@
                },
            },
    {
        match self.peers.entry(peer.0) {
            Entry::Occupied(entry) => {
                let channels = entry.into_mut();
                if channel.0 < channels.len() {
                    Ok(&mut channels[channel.0])
                } else {
                    Err(TakeError::InvalidChannel)
                }
            },
            Entry::Vacant(_) => Err(TakeError::InvalidPeer),
        }
    }

    /// Takes `channel` of `peer`.
    pub fn take_sink(&mut self, peer: PeerId, channel: ChannelIndex) -> (taken: Result<
        DataChannelSink,
        TakeError,
    >)
        ensures
            take_sink_step(old(self)@, peer, channel, final(self)@, taken),
    {
        match self.channel_mut(peer, channel) {
            Ok(tx) => tx.take(),
            Err(error) => Err(error),
        }
    }

    /// Writes `packet` to `channel` of `peer`.
    pub fn send(&mut self, peer: PeerId, channel: ChannelIndex, packet: Packet) -> (sent: Result<
        (),
        TakeError,
    >)
        ensures
            send_step(old(self)@, peer, channel, packet, final(self)@, sent),
    {
        match self.channel_mut(peer, channel) {
            Ok(tx) => tx.send(packet),
            Err(error) => Err(error),
        }
    }

    /// `channel` of `peer` has room again.
    pub fn buffer_low(&mut self, peer: PeerId, channel: ChannelIndex)
        ensures
            buffer_low_at_step(old(self)@, peer, channel, final(self)@),
    {
        match self.channel_mut(peer, channel) {
            Ok(tx) => tx.buffer_low(),
            Err(_) => {},
        }
    }
}

} // verus!
