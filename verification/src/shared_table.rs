//! The table of data channels, shared by the two halves of a socket and whoever finds its peers.
use crate::data_channel::BoxDataChannel;
use crate::protocol::{ChannelIndex, Packet, PeerId};
use crate::table_lock::{
    guard_deref_mut, guard_drop, held, made_with, mutex_lock, LockUse, TableHandle,
};
use crate::tx_table::{
    buffer_low_at_step, send_step, take_sink_step, with_connected, with_waiting, without,
    DataChannelSink, TakeError, TxTable,
};
use parking_lot::Mutex;
use vstd::prelude::*;

verus! {

/// A visit to the table, which found `before` and left `after`.
pub open spec fn visit_to(before: TxTable, after: TxTable) -> Seq<LockUse> {
    seq![LockUse::Locked(before), LockUse::Unlocked(after)]
}

/// `start` became `end` by one visit to the table, in which `uses` were made of the lock.
pub open spec fn one_visit(start: SharedTable, uses: Seq<LockUse>, end: SharedTable) -> bool {
    &&& end.handle().lock() == start.handle().lock()
    &&& end.handle().name() == start.handle().name()
    &&& end.handle().handed_out() == start.handle().handed_out()
    &&& end.handle().opened() == start.handle().opened() + 1
    &&& end.handle().sessions() == start.handle().sessions().push(uses)
}

/// There was one visit to the table, in which `channel` of `peer` was taken, with `taken`.
pub open spec fn sink_taken(
    start: SharedTable,
    peer: PeerId,
    channel: ChannelIndex,
    end: SharedTable,
    taken: Result<DataChannelSink, TakeError>,
) -> bool {
    exists|before: TxTable, after: TxTable|
        {
            &&& one_visit(start, #[trigger] visit_to(before, after), end)
            &&& take_sink_step(before@, peer, channel, after@, taken)
        }
}

/// There was one visit to the table, in which `packet` was to be written to `channel` of `peer`, with
/// `sent`.
pub open spec fn packet_sent(
    start: SharedTable,
    peer: PeerId,
    channel: ChannelIndex,
    packet: Packet,
    end: SharedTable,
    sent: Result<(), TakeError>,
) -> bool {
    exists|before: TxTable, after: TxTable|
        {
            &&& one_visit(start, #[trigger] visit_to(before, after), end)
            &&& send_step(before@, peer, channel, packet, after@, sent)
        }
}

/// There was one visit to the table, in which the taker of `channel` of `peer`, if there is one, was
/// told that the channel has room again.
pub open spec fn buffer_low_told(
    start: SharedTable,
    peer: PeerId,
    channel: ChannelIndex,
    end: SharedTable,
) -> bool {
    exists|before: TxTable, after: TxTable|
        {
            &&& one_visit(start, #[trigger] visit_to(before, after), end)
            &&& buffer_low_at_step(before@, peer, channel, after@)
        }
}

/// There was one visit to the table, in which `peer` was added, with `channels`.
pub open spec fn peer_added(
    start: SharedTable,
    peer: PeerId,
    channels: Seq<BoxDataChannel>,
    end: SharedTable,
) -> bool {
    exists|before: TxTable, after: TxTable|
        {
            &&& one_visit(start, #[trigger] visit_to(before, after), end)
            &&& after@ == with_waiting(before@, peer, channels)
        }
}

/// There was one visit to the table, in which `peer` was connected.
pub open spec fn peer_connected(start: SharedTable, peer: PeerId, end: SharedTable) -> bool {
    exists|before: TxTable, after: TxTable|
        {
            &&& one_visit(start, #[trigger] visit_to(before, after), end)
            &&& after@ == with_connected(before@, peer)
        }
}

/// There was one visit to the table, in which `peer` was removed.
pub open spec fn peer_removed(start: SharedTable, peer: PeerId, end: SharedTable) -> bool {
    exists|before: TxTable, after: TxTable|
        {
            &&& one_visit(start, #[trigger] visit_to(before, after), end)
            &&& after@ == without(before@, peer)
        }
}

/// A handle on the table of data channels. Every use of the table holds the lock from beginning to
/// end.
pub struct SharedTable {
    handle: TableHandle,
}

impl SharedTable {
    /// The way to the table.
    pub closed spec fn handle(&self) -> TableHandle {
        self.handle
    }

    /// The table is not being used through this handle.
    pub open spec fn wf(&self) -> bool {
        self.handle().idle()
    }

    /// The lock around the table.
    pub open spec fn lock(&self) -> Mutex<TxTable> {
        self.handle().lock()
    }

    /// Shares `table`.
    pub fn new(table: TxTable) -> (shared: SharedTable)
        ensures
            made_with(shared.lock()) == table,
            shared.handle().fresh(),
    {
        SharedTable { handle: TableHandle::new(table) }
    }

    /// A handle on the same table, for somebody else.
    pub fn another(&mut self) -> (other: SharedTable)
        ensures
            other.lock() == old(self).lock(),
            other.handle().fresh(),
            old(self).handle().after_handing_out(final(self).handle()),
    {
        SharedTable { handle: self.handle.another() }
    }

    /// Takes `channel` of `peer`.
    pub fn take_sink(&mut self, peer: PeerId, channel: ChannelIndex) -> (taken: Result<
        DataChannelSink,
        TakeError,
    >)
        requires
            old(self).wf(),
        ensures
            final(self).wf(),
            sink_taken(*old(self), peer, channel, *final(self), taken),
    {
        let mut session = self.handle.open();
        let mut guard = mutex_lock(self.handle.mutex(), &mut session);
        let ghost before = held(guard);
        let taken = guard_deref_mut(&mut guard).take_sink(peer, channel);
        let ghost after = held(guard);
        guard_drop(guard, &mut session);
        assert(session.uses() =~= visit_to(before, after));
        self.handle.close(session);
        taken
    }

    /// Writes `packet` to `channel` of `peer`.
    pub fn send(&mut self, peer: PeerId, channel: ChannelIndex, packet: Packet) -> (sent: Result<
        (),
        TakeError,
    >)
        requires
            old(self).wf(),
        ensures
            final(self).wf(),
            packet_sent(*old(self), peer, channel, packet, *final(self), sent),
    {
        let mut session = self.handle.open();
        let mut guard = mutex_lock(self.handle.mutex(), &mut session);
        let ghost before = held(guard);
        let sent = guard_deref_mut(&mut guard).send(peer, channel, packet);
        let ghost after = held(guard);
        guard_drop(guard, &mut session);
        assert(session.uses() =~= visit_to(before, after));
        self.handle.close(session);
        sent
    }

    /// `channel` of `peer` has room again.
    pub fn buffer_low(&mut self, peer: PeerId, channel: ChannelIndex)
        requires
            old(self).wf(),
        ensures
            final(self).wf(),
            buffer_low_told(*old(self), peer, channel, *final(self)),
    {
        let mut session = self.handle.open();
        let mut guard = mutex_lock(self.handle.mutex(), &mut session);
        let ghost before = held(guard);
        guard_deref_mut(&mut guard).buffer_low(peer, channel);
        let ghost after = held(guard);
        guard_drop(guard, &mut session);
        assert(session.uses() =~= visit_to(before, after));
        self.handle.close(session);
    }

    /// `peer` can be written to over `channels`, once it is connected.
    pub fn add_peer(&mut self, peer: PeerId, channels: Vec<BoxDataChannel>)
        requires
            old(self).wf(),
        ensures
            final(self).wf(),
            peer_added(*old(self), peer, channels@, *final(self)),
    {
        let mut session = self.handle.open();
        let mut guard = mutex_lock(self.handle.mutex(), &mut session);
        let ghost before = held(guard);
        guard_deref_mut(&mut guard).add_peer(peer, channels);
        let ghost after = held(guard);
        guard_drop(guard, &mut session);
        assert(session.uses() =~= visit_to(before, after));
        self.handle.close(session);
    }

    /// `peer` can be written to, over the channels that waited for it first.
    pub fn connect_peer(&mut self, peer: PeerId)
        requires
            old(self).wf(),
        ensures
            final(self).wf(),
            peer_connected(*old(self), peer, *final(self)),
    {
        let mut session = self.handle.open();
        let mut guard = mutex_lock(self.handle.mutex(), &mut session);
        let ghost before = held(guard);
        guard_deref_mut(&mut guard).connect_peer(peer);
        let ghost after = held(guard);
        guard_drop(guard, &mut session);
        assert(session.uses() =~= visit_to(before, after));
        self.handle.close(session);
    }

    /// `peer` can no longer be written to.
    pub fn remove_peer(&mut self, peer: PeerId)
        requires
            old(self).wf(),
        ensures
            final(self).wf(),
            peer_removed(*old(self), peer, *final(self)),
    {
        let mut session = self.handle.open();
        let mut guard = mutex_lock(self.handle.mutex(), &mut session);
        let ghost before = held(guard);
        guard_deref_mut(&mut guard).remove_peer(peer);
        let ghost after = held(guard);
        guard_drop(guard, &mut session);
        assert(session.uses() =~= visit_to(before, after));
        self.handle.close(session);
    }
}

} // verus!
