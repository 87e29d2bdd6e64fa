//! The data channels to one peer, seen as a single conversation.
//!
//! A peer is connected to over several data channels, each with events of its own. Its
//! [`UnboundedPeerReceiver`] puts them together: it reports the peer as joined when the last of the
//! channels opened, and as gone when the first of them closed, and reports packets only in between.
use crate::channel::{all_taken, next_offer, nothing_offered, refused, single_offer, Outbox};
use crate::error::ChannelEventError;
use crate::protocol::{ChannelNumber, Packet, PeerId};
use vstd::prelude::*;

verus! {

/// Message from a specific peer. Aggregates messages from all channels to that peer.
#[derive(Debug, PartialEq, Eq)]
pub enum PeerMessage {
    /// The peer has connected, and finished opening all requested channels.
    Join,
    /// A packet has arrived on a channel between the join and the close. Packets from during the
    /// join are buffered until after the join. Packets from after the close are discarded.
    Packet(ChannelNumber, Packet),
    /// Connection to this peer is no longer available.
    ///
    /// Triggered by the first channel to close or error after a join. If a string is provided, it
    /// is the error message. If none is provided, an orderly close occurred (for at least the first
    /// channel to close or error).
    Close(Option<String>),
}

/// What happened on one of the data channels.
pub enum ChannelEvent {
    /// The channel opened.
    Open,
    /// The channel closed: in an orderly way, or for the error given.
    Close(Option<String>),
    /// A packet arrived on the channel with this number.
    Packet(ChannelNumber, Packet),
}

/// How far the connection to a peer has come.
pub ghost enum PeerPhase {
    /// `remaining` channels are still to open; `buffered` packets arrived on the others.
    Connecting { remaining: nat, buffered: Seq<(ChannelNumber, Packet)> },
    /// All channels are open.
    Connected,
    /// A channel closed, or nobody is left to report to. At that time `remaining` channels were still
    /// to open.
    Closed { remaining: nat },
}

/// Forwards messages from all channels for a given peer.
pub struct UnboundedPeerReceiver {
    remote_id: PeerId,
    /// Starts as the number of channels and counts down as they connect. The connection event
    /// occurs when this hits zero, meaning all channels are connected.
    connecting_count: usize,
    closed: bool,
    /// Buffer of packets which came in before `connecting_count` reached zero.
    buffer: Option<Vec<(ChannelNumber, Packet)>>,
    messages_from_peers_tx: Outbox<(PeerId, PeerMessage)>,
    /// How many channels there are to the peer.
    channels: Ghost<nat>,
    /// What happened on them until the conversation was over, in order.
    history: Ghost<Seq<ChannelEvent>>,
    /// Whether a message could not be delivered.
    undelivered: Ghost<bool>,
}

/// `messages`, each with the peer that it is from.
pub open spec fn from_peer(id: PeerId, messages: Seq<PeerMessage>) -> Seq<(PeerId, PeerMessage)> {
    messages.map_values(|message: PeerMessage| (id, message))
}

/// Packets, each as a message.
pub open spec fn as_messages(packets: Seq<(ChannelNumber, Packet)>) -> Seq<PeerMessage> {
    packets.map_values(|packet: (ChannelNumber, Packet)| PeerMessage::Packet(packet.0, packet.1))
}

/// What `event` gives to report of a peer in `phase`.
pub open spec fn due(phase: PeerPhase, event: ChannelEvent) -> Seq<PeerMessage> {
    match (phase, event) {
        (PeerPhase::Connecting { remaining, buffered }, ChannelEvent::Open) => if remaining == 1 {
            seq![PeerMessage::Join] + as_messages(buffered)
        } else {
            Seq::empty()
        },
        (PeerPhase::Connected, ChannelEvent::Close(error)) => seq![PeerMessage::Close(error)],
        (PeerPhase::Connected, ChannelEvent::Packet(channel, packet)) => seq![
            PeerMessage::Packet(channel, packet),
        ],
        _ => Seq::empty(),
    }
}

/// The phase that `event` leads to from `phase`.
pub open spec fn next_phase(phase: PeerPhase, event: ChannelEvent) -> PeerPhase {
    match (phase, event) {
        (PeerPhase::Closed { .. }, _) => phase,
        (PeerPhase::Connecting { remaining, .. }, ChannelEvent::Close(_)) => {
            PeerPhase::Closed { remaining }
        },
        (PeerPhase::Connected, ChannelEvent::Close(_)) => PeerPhase::Closed { remaining: 0 },
        (PeerPhase::Connecting { remaining, buffered }, ChannelEvent::Open) => if remaining == 1 {
            PeerPhase::Connected
        } else {
            PeerPhase::Connecting { remaining: (remaining - 1) as nat, buffered }
        },
        (PeerPhase::Connecting { remaining, buffered }, ChannelEvent::Packet(channel, packet)) => {
            PeerPhase::Connecting { remaining, buffered: buffered.push((channel, packet)) }
        },
        (PeerPhase::Connected, _) => PeerPhase::Connected,
    }
}

/// The phase that a peer with so many `channels` is in after `events`.
pub open spec fn phase_after(channels: nat, events: Seq<ChannelEvent>) -> PeerPhase
    decreases events.len(),
{
    if events.len() == 0 {
        PeerPhase::Connecting { remaining: channels, buffered: Seq::empty() }
    } else {
        next_phase(phase_after(channels, events.drop_last()), events.last())
    }
}

/// `before` becomes `after`, with `outcome`, when `event` happens on one of the peer's channels.
///
/// Whether the messages that are due can be delivered is not for the peer to decide. Where one
/// cannot, nobody is left to report to, and the conversation is over; what happens then changes
/// nothing any more. That a channel opened when all of them were open is refused.
pub open spec fn peer_step(
    before: UnboundedPeerReceiver,
    event: ChannelEvent,
    after: UnboundedPeerReceiver,
    outcome: Result<(), ChannelEventError>,
) -> bool {
    let messages = from_peer(before.remote_id(), due(before.phase(), event));
    if before.phase() is Closed {
        &&& outcome is Ok
        &&& after == before
    } else {
        &&& after.remote_id() == before.remote_id()
        &&& after.channels() == before.channels()
        &&& match outcome {
            Ok(()) => {
                &&& !(before.phase() == PeerPhase::Connected && event == ChannelEvent::Open)
                &&& after.history() == before.history().push(event)
                &&& after.undelivered() == before.undelivered()
                &&& after.phase() == next_phase(before.phase(), event)
                &&& all_taken(before.outbox(), messages, after.outbox())
            },
            Err(ChannelEventError::Undelivered) => {
                &&& after.history() == before.history().push(event)
                &&& after.undelivered()
                &&& after.phase() == (PeerPhase::Closed { remaining: 0 })
                &&& refused(before.outbox(), messages, after.outbox())
            },
            Err(ChannelEventError::UnexpectedOpen) => {
                &&& before.phase() == PeerPhase::Connected
                &&& event == ChannelEvent::Open
                &&& after == before
            },
        }
    }
}

/// Where nothing is due, nothing is tried.
proof fn nothing_due(peer: UnboundedPeerReceiver)
    ensures
        all_taken(peer.outbox(), from_peer(peer.remote_id(), Seq::empty()), peer.outbox()),
{
    nothing_offered(peer.outbox());
    assert(from_peer(peer.remote_id(), Seq::empty()) =~= Seq::empty());
}

impl UnboundedPeerReceiver {
    /// The peer.
    pub closed spec fn remote_id(&self) -> PeerId {
        self.remote_id
    }

    /// Where the peer's messages go.
    pub closed spec fn outbox(&self) -> Outbox<(PeerId, PeerMessage)> {
        self.messages_from_peers_tx
    }

    /// How far the connection has come.
    pub closed spec fn phase(&self) -> PeerPhase {
        if self.closed {
            PeerPhase::Closed { remaining: self.connecting_count as nat }
        } else {
            match self.buffer {
                Some(buffer) => PeerPhase::Connecting {
                    remaining: self.connecting_count as nat,
                    buffered: buffer@,
                },
                None => PeerPhase::Connected,
            }
        }
    }

    /// How many channels there are to the peer.
    pub closed spec fn channels(&self) -> nat {
        self.channels@
    }

    /// What happened on the channels until the conversation was over, in order.
    pub closed spec fn history(&self) -> Seq<ChannelEvent> {
        self.history@
    }

    /// Whether a message could not be delivered.
    pub closed spec fn undelivered(&self) -> bool {
        self.undelivered@
    }

    /// Packets are buffered exactly while channels are still to open. The phase is the one that what
    /// happened leads to, unless a message could not be delivered, which closes the conversation.
    pub closed spec fn wf(&self) -> bool {
        &&& self.channels() > 0
        &&& self.buffer is Some <==> !self.closed && self.connecting_count > 0
        &&& if self.undelivered() {
            self.phase() == (PeerPhase::Closed { remaining: 0 })
        } else {
            self.phase() == phase_after(self.channels(), self.history())
        }
    }

    /// The two differ at most in what went to the peer's messages.
    pub closed spec fn same_connection(&self, other: UnboundedPeerReceiver) -> bool {
        &&& self.remote_id == other.remote_id
        &&& self.connecting_count == other.connecting_count
        &&& self.closed == other.closed
        &&& self.buffer == other.buffer
        &&& self.channels == other.channels
        &&& self.history == other.history
        &&& self.undelivered == other.undelivered
    }

    /// The phase is the one that what happened leads to, unless a message could not be delivered.
    pub proof fn phase_follows_from_history(&self)
        requires
            self.wf(),
        ensures
            self.channels() > 0,
            self.phase() == if self.undelivered() {
                PeerPhase::Closed { remaining: 0 }
            } else {
                phase_after(self.channels(), self.history())
            },
    {
    }

    /// A peer none of whose `channels` opened yet.
    pub fn new(
        remote_id: PeerId,
        channels: usize,
        messages_from_peers_tx: Outbox<(PeerId, PeerMessage)>,
    ) -> (peer: UnboundedPeerReceiver)
        requires
            channels > 0,
        ensures
            peer.wf(),
            peer.remote_id() == remote_id,
            peer.outbox() == messages_from_peers_tx,
            peer.channels() == channels,
            peer.history() == Seq::<ChannelEvent>::empty(),
            !peer.undelivered(),
            peer.phase() == (PeerPhase::Connecting {
                remaining: channels as nat,
                buffered: Seq::empty(),
            }),
    {
        UnboundedPeerReceiver {
            remote_id,
            connecting_count: channels,
            closed: false,
            buffer: Some(Vec::new()),
            messages_from_peers_tx,
            channels: Ghost(channels as nat),
            history: Ghost(Seq::empty()),
            undelivered: Ghost(false),
        }
    }

    /// Whether all channels are open.
    pub fn is_connected(&self) -> (connected: bool)
        ensures
            connected == (self.phase() == PeerPhase::Connected),
    {
        !self.closed && self.buffer.is_none()
    }

    /// Reports `message` of this peer.
    pub fn forward(&mut self, message: PeerMessage) -> (outcome: Result<(), ChannelEventError>)
        requires
            !(old(self).phase() is Closed),
        ensures
            final(self).same_connection(*old(self)),
            final(self).remote_id() == old(self).remote_id(),
            final(self).channels() == old(self).channels(),
            final(self).history() == old(self).history(),
            final(self).undelivered() == old(self).undelivered(),
            final(self).phase() == old(self).phase(),
            final(self).wf() == old(self).wf(),
            old(self).outbox().after_offer(
                (old(self).remote_id(), message),
                outcome is Ok,
                final(self).outbox(),
            ),
            outcome is Ok || outcome == Err::<(), _>(ChannelEventError::Undelivered),
    {
        match self.messages_from_peers_tx.unbounded_send((self.remote_id, message)) {
            Ok(()) => Ok(()),
            Err(_) => Err(ChannelEventError::Undelivered),
        }
    }

    /// One of the channels opened. With the last of them the peer has joined, and what arrived
    /// until then is reported.
    pub fn channel_open(&mut self) -> (outcome: Result<(), ChannelEventError>)
        requires
            old(self).wf(),
            old(self).phase() != PeerPhase::Connected,
        ensures
            final(self).wf(),
            peer_step(*old(self), ChannelEvent::Open, *final(self), outcome),
    {
        if self.closed {
            return Ok(());
        }
        self.history = Ghost(self.history@.push(ChannelEvent::Open));
        proof {
            nothing_due(*self);
            assert(self.history@.drop_last() =~= old(self).history());
        }
        self.connecting_count -= 1;
        if self.connecting_count > 0 {
            return Ok(());
        }
        let outcome = self.join();
        if outcome.is_err() {
            self.closed = true;
            self.buffer = None;
            self.undelivered = Ghost(true);
        }
        outcome
    }

    /// Reports the peer as joined, and then what is in the buffer, which is gone afterwards.
    fn join(&mut self) -> (outcome: Result<(), ChannelEventError>)
        requires
            !old(self).closed,
            old(self).buffer is Some,
        ensures
            final(self).remote_id == old(self).remote_id,
            final(self).connecting_count == old(self).connecting_count,
            final(self).channels == old(self).channels,
            final(self).history == old(self).history,
            final(self).undelivered == old(self).undelivered,
            !final(self).closed,
            ({
                let messages = from_peer(
                    old(self).remote_id,
                    seq![PeerMessage::Join] + as_messages(old(self).buffer->0@),
                );
                match outcome {
                    Ok(()) => {
                        &&& final(self).buffer is None
                        &&& all_taken(old(self).outbox(), messages, final(self).outbox())
                    },
                    Err(error) => {
                        &&& error == ChannelEventError::Undelivered
                        &&& refused(old(self).outbox(), messages, final(self).outbox())
                    },
                }
            }),
    {
        let ghost before = *self;
        let ghost packets = self.buffer->0@;
        let ghost messages = from_peer(
            self.remote_id,
            seq![PeerMessage::Join] + as_messages(packets),
        );
        let joined = self.forward(PeerMessage::Join);
        proof {
            nothing_offered(before.outbox());
            assert(messages.take(0) =~= Seq::empty());
            next_offer(
                before.outbox(),
                messages,
                0,
                before.outbox(),
                joined is Ok,
                self.outbox(),
            );
        }
        if joined.is_err() {
            return joined;
        }
        if let Some(buffer) = self.buffer.take() {
            for packet in flushed: buffer.into_iter()
                invariant
                    flushed.seq() == packets,
                    before == *old(self),
                    before.buffer is Some,
                    before.buffer->0@ == packets,
                    !self.closed,
                    self.buffer is None,
                    self.remote_id == before.remote_id,
                    self.connecting_count == before.connecting_count,
                    self.channels == before.channels,
                    self.history == before.history,
                    self.undelivered == before.undelivered,
                    messages == from_peer(
                        before.remote_id,
                        seq![PeerMessage::Join] + as_messages(packets),
                    ),
                    all_taken(before.outbox(), messages.take(flushed.index() + 1), self.outbox()),
            {
                let ghost sent = flushed.index() + 1;
                let ghost during = *self;
                let reported = self.forward(PeerMessage::Packet(packet.0, packet.1));
                proof {
                    assert(packet == packets[sent - 1]);
                    next_offer(
                        before.outbox(),
                        messages,
                        sent,
                        during.outbox(),
                        reported is Ok,
                        self.outbox(),
                    );
                }
                if reported.is_err() {
                    return reported;
                }
            }
            assert(messages.take(messages.len() as int) =~= messages);
        }
        Ok(())
    }

    /// One of the channels closed, for the error given if there is one. The first to do so after
    /// the peer has joined ends the conversation.
    pub fn channel_close(&mut self, error: Option<String>) -> (outcome: Result<
        (),
        ChannelEventError,
    >)
        requires
            old(self).wf(),
        ensures
            final(self).wf(),
            peer_step(*old(self), ChannelEvent::Close(error), *final(self), outcome),
    {
        let ghost before = *self;
        let ghost messages = from_peer(
            self.remote_id,
            due(self.phase(), ChannelEvent::Close(error)),
        );
        if self.closed {
            return Ok(());
        }
        self.history = Ghost(self.history@.push(ChannelEvent::Close(error)));
        proof {
            nothing_due(*self);
            assert(self.history@.drop_last() =~= before.history());
        }
        let mut outcome = Ok(());
        if self.connecting_count == 0 {
            outcome = self.forward(PeerMessage::Close(error));
            proof {
                let message = (before.remote_id, PeerMessage::Close(error));
                assert(messages =~= seq![message]);
                single_offer(before.outbox(), message, outcome is Ok, self.outbox());
            }
            if outcome.is_err() {
                self.undelivered = Ghost(true);
            }
        }
        self.closed = true;
        self.buffer = None;
        outcome
    }

    /// A packet arrived on the channel with this number.
    pub fn channel_packet(&mut self, channel: ChannelNumber, packet: Packet) -> (outcome: Result<
        (),
        ChannelEventError,
    >)
        requires
            old(self).wf(),
        ensures
            final(self).wf(),
            peer_step(*old(self), ChannelEvent::Packet(channel, packet), *final(self), outcome),
    {
        let ghost before = *self;
        let ghost messages = from_peer(
            self.remote_id,
            due(self.phase(), ChannelEvent::Packet(channel, packet)),
        );
        if self.closed {
            return Ok(());
        }
        self.history = Ghost(self.history@.push(ChannelEvent::Packet(channel, packet)));
        proof {
            nothing_due(*self);
            assert(self.history@.drop_last() =~= before.history());
        }
        if let Some(buffer) = &mut self.buffer {
            buffer.push((channel, packet));
            return Ok(());
        }
        let outcome = self.forward(PeerMessage::Packet(channel, packet));
        proof {
            let message = (before.remote_id, PeerMessage::Packet(channel, packet));
            assert(messages =~= seq![message]);
            single_offer(before.outbox(), message, outcome is Ok, self.outbox());
        }
        if outcome.is_err() {
            self.closed = true;
            self.undelivered = Ghost(true);
        }
        outcome
    }

    /// Something happened on one of the channels.
    pub fn channel_event(&mut self, event: ChannelEvent) -> (outcome: Result<
        (),
        ChannelEventError,
    >)
        requires
            old(self).wf(),
        ensures
            final(self).wf(),
            peer_step(*old(self), event, *final(self), outcome),
    {
        match event {
            ChannelEvent::Open => if self.is_connected() {
                Err(ChannelEventError::UnexpectedOpen)
            } else {
                self.channel_open()
            },
            ChannelEvent::Close(error) => self.channel_close(error),
            ChannelEvent::Packet(channel, packet) => self.channel_packet(channel, packet),
        }
    }
}

} // verus!
