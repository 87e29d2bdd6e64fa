//! The handlers of the data channels to one peer, which share what they know of it.
use crate::channel::Outbox;
use crate::conversation::next_is_reached;
use crate::error::ChannelEventError;
use crate::peer::{peer_step, ChannelEvent, PeerMessage, PeerPhase, UnboundedPeerReceiver};
use crate::peer_lock::{PeerHandle, PeerLock, PeerUse};
use crate::protocol::{ChannelConfig, ChannelNumber, Packet, PeerId};
use vstd::prelude::*;

verus! {

/// Handles the events of one data channel.
pub struct AsyncDataChannelReceiver {
    /// The receiver for this peer. All channels for the peer share it, and use it to coordinate.
    peer: PeerHandle,
    /// Which channel this is for.
    channel: ChannelNumber,
}

/// What it takes to open a data channel.
pub struct ChannelBuilder<Tx> {
    /// Where to send all incoming events triggered by the channel.
    pub event_handlers: Tx,
    /// Configuration for the channel to build.
    pub channel_config: ChannelConfig,
}

/// Nothing happened yet on the `channels` to `remote_id`, and what happens is to be reported to
/// `messages`.
pub open spec fn starts_as(
    peer: UnboundedPeerReceiver,
    remote_id: PeerId,
    channels: nat,
    messages: Outbox<(PeerId, PeerMessage)>,
) -> bool {
    &&& peer.wf()
    &&& peer.remote_id() == remote_id
    &&& peer.channels() == channels
    &&& peer.outbox() == messages
    &&& peer.history() == Seq::<ChannelEvent>::empty()
    &&& !peer.undelivered()
    &&& peer.phase() == (PeerPhase::Connecting { remaining: channels, buffered: Seq::empty() })
}

/// `builders` are for the channels to `remote_id` that `config` asks for: one for each entry,
/// numbered by position. They share one receiver, on which nothing happened yet, and whose messages
/// go to `messages`. Nobody else has a way to it.
pub open spec fn builders_for_peer(
    builders: Seq<ChannelBuilder<AsyncDataChannelReceiver>>,
    remote_id: PeerId,
    config: Seq<ChannelConfig>,
    messages: Outbox<(PeerId, PeerMessage)>,
) -> bool {
    &&& builders.len() == config.len()
    &&& forall|i: int|
        #![trigger builders[i]]
        0 <= i < config.len() ==> {
            &&& builders[i].channel_config == config[i]
            &&& builders[i].event_handlers.channel().0 == i
            &&& builders[i].event_handlers.shared() == builders[0].event_handlers.shared()
            &&& builders[i].event_handlers.handle().unused()
            &&& builders[i].event_handlers.handle().handed_out() == if i == 0 {
                config.len() - 1
            } else {
                0
            }
        }
    &&& starts_as(
        builders[0].event_handlers.shared().made_with(),
        remote_id,
        config.len(),
        messages,
    )
}

/// `before` became `after` by one visit to the peer, on `event`, with `outcome`. Which state the
/// visit found depends on what the other channels of the peer did; it is one that the peer can have
/// come to since the channels were set up.
pub open spec fn visited(
    before: AsyncDataChannelReceiver,
    event: ChannelEvent,
    after: AsyncDataChannelReceiver,
    outcome: Result<(), ChannelEventError>,
) -> bool {
    &&& after.shared() == before.shared()
    &&& after.channel() == before.channel()
    &&& after.handle().name() == before.handle().name()
    &&& after.handle().handed_out() == before.handle().handed_out()
    &&& after.handle().opened() == before.handle().opened() + 1
    &&& exists|found: UnboundedPeerReceiver, left: UnboundedPeerReceiver|
        {
            &&& after.handle().sessions() == before.handle().sessions().push(
                #[trigger] visit_to(found, left),
            )
            &&& before.handled(found, event, left, outcome)
        }
}

/// A visit to the peer, which found `found` and left `left`.
pub open spec fn visit_to(found: UnboundedPeerReceiver, left: UnboundedPeerReceiver) -> Seq<
    PeerUse,
> {
    seq![PeerUse::Found(found), PeerUse::Left(left)]
}

impl AsyncDataChannelReceiver {
    /// Which channel this is for.
    pub closed spec fn channel(&self) -> ChannelNumber {
        self.channel
    }

    /// The handler's way to what the channels of the peer share.
    pub closed spec fn handle(&self) -> PeerHandle {
        self.peer
    }

    /// The handler is not at what the channels of the peer share.
    pub open spec fn wf(&self) -> bool {
        self.handle().idle()
    }

    /// What the channels of the peer share.
    pub open spec fn shared(&self) -> PeerLock {
        self.handle().lock()
    }

    /// The handler met the peer as `found` and left it as `left`, with `outcome`, on `event`.
    pub open spec fn handled(
        &self,
        found: UnboundedPeerReceiver,
        event: ChannelEvent,
        left: UnboundedPeerReceiver,
        outcome: Result<(), ChannelEventError>,
    ) -> bool {
        &&& self.shared().admits(found)
        &&& self.shared().admits(left)
        &&& peer_step(found, event, left, outcome)
    }

    /// Handlers for the channels to `remote_id`, one for each entry of `config`, numbered by
    /// position. The peer joins when all of them opened.
    pub fn channels_for_peer(
        remote_id: PeerId,
        config: &[ChannelConfig],
        messages_from_peers_tx: Outbox<(PeerId, PeerMessage)>,
    ) -> (builders: Vec<ChannelBuilder<AsyncDataChannelReceiver>>)
        requires
            0 < config@.len() <= 0x1_0000,
        ensures
            builders_for_peer(builders@, remote_id, config@, messages_from_peers_tx),
    {
        let count: usize = config.len();
        let receiver = UnboundedPeerReceiver::new(remote_id, count, messages_from_peers_tx);
        let peer = PeerHandle::new(receiver);
        let mut builders: Vec<ChannelBuilder<AsyncDataChannelReceiver>> = Vec::new();
        builders.push(
            ChannelBuilder {
                channel_config: config[0],
                event_handlers: AsyncDataChannelReceiver { channel: ChannelNumber(0), peer },
            },
        );
        for index in 1..count
            invariant
                count == config@.len(),
                count <= 0x1_0000,
                1 <= index,
                builders@.len() == index,
                builders@[0].event_handlers.shared().made_with() == receiver,
                forall|i: int|
                    #![trigger builders@[i]]
                    0 <= i < index ==> {
                        &&& builders@[i].channel_config == config@[i]
                        &&& builders@[i].event_handlers.channel().0 == i
                        &&& builders@[i].event_handlers.shared()
                            == builders@[0].event_handlers.shared()
                        &&& builders@[i].event_handlers.handle().unused()
                        &&& builders@[i].event_handlers.handle().handed_out() == if i == 0 {
                            index - 1
                        } else {
                            0
                        }
                    },
        {
            let first = &mut builders[0];
            let peer = first.event_handlers.peer.another();
            builders.push(
                ChannelBuilder {
                    channel_config: config[index],
                    event_handlers: AsyncDataChannelReceiver {
                        channel: ChannelNumber(index as u16),
                        peer,
                    },
                },
            );
        }
        builders
    }

    /// Something happened on the channel.
    fn visit(&mut self, event: ChannelEvent) -> (outcome: Result<(), ChannelEventError>)
        requires
            old(self).wf(),
        ensures
            final(self).wf(),
            visited(*old(self), event, *final(self), outcome),
    {
        let mut session = self.peer.open();
        let (mut peer, guard) = self.peer.peer().acquire(&mut session);
        let ghost found = peer;
        let outcome = peer.channel_event(event);
        proof {
            next_is_reached(self.shared().made_with(), found, event, peer, outcome);
        }
        let ghost left = peer;
        guard.release(peer, &mut session);
        assert(session.uses() =~= visit_to(found, left));
        self.peer.close(session);
        outcome
    }

    /// The channel opened.
    pub fn on_open(&mut self) -> (outcome: Result<(), ChannelEventError>)
        requires
            old(self).wf(),
        ensures
            final(self).wf(),
            visited(*old(self), ChannelEvent::Open, *final(self), outcome),
    {
        self.visit(ChannelEvent::Open)
    }

    /// The channel closed in an orderly way.
    pub fn on_close(&mut self) -> (outcome: Result<(), ChannelEventError>)
        requires
            old(self).wf(),
        ensures
            final(self).wf(),
            visited(*old(self), ChannelEvent::Close(None), *final(self), outcome),
    {
        self.visit(ChannelEvent::Close(None))
    }

    /// The channel failed.
    pub fn on_error(&mut self, message: String) -> (outcome: Result<(), ChannelEventError>)
        requires
            old(self).wf(),
        ensures
            final(self).wf(),
            visited(*old(self), ChannelEvent::Close(Some(message)), *final(self), outcome),
    {
        self.visit(ChannelEvent::Close(Some(message)))
    }

    /// A packet arrived on the channel.
    pub fn on_message(&mut self, packet: Packet) -> (outcome: Result<(), ChannelEventError>)
        requires
            old(self).wf(),
        ensures
            final(self).wf(),
            visited(
                *old(self),
                ChannelEvent::Packet(old(self).channel(), packet),
                *final(self),
                outcome,
            ),
    {
        self.visit(ChannelEvent::Packet(self.channel, packet))
    }
}

} // verus!
