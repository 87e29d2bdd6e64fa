//! What each call on a peer does, told by what goes in and what comes out.
use crate::channel::Outbox;
use crate::error::ChannelEventError;
use crate::peer::{ChannelEvent, PeerMessage, PeerPhase, UnboundedPeerReceiver};
use crate::protocol::{ChannelNumber, Packet, PeerId};
use vstd::prelude::*;

verus! {

/// A new peer waits for every one of its channels, and has said nothing.
pub proof fn new_peer_waits_for_its_channels(
    remote_id: PeerId,
    channels: usize,
    messages: Outbox<(PeerId, PeerMessage)>,
    peer: UnboundedPeerReceiver,
)
    requires
        channels > 0,
        call_ensures(UnboundedPeerReceiver::new, (remote_id, channels, messages), peer),
    ensures
        peer.remote_id() == remote_id,
        peer.channels() == channels,
        peer.outbox() == messages,
        peer.history().len() == 0,
        peer.phase() == (PeerPhase::Connecting {
            remaining: channels as nat,
            buffered: Seq::empty(),
        }),
{
}

/// A peer is connected or not, and asking tells which.
pub proof fn asking_tells_whether_connected(peer: &UnboundedPeerReceiver, connected: bool)
    requires
        call_ensures(UnboundedPeerReceiver::is_connected, (peer,), connected),
    ensures
        connected <==> peer.phase() is Connected,
{
}

/// A message that is forwarded is offered once, under the name of the peer, and taken or not.
pub proof fn forwarding_offers_once(
    peer: &mut UnboundedPeerReceiver,
    message: PeerMessage,
    outcome: Result<(), ChannelEventError>,
)
    requires
        call_ensures(UnboundedPeerReceiver::forward, (peer, message), outcome),
    ensures
        final(peer).remote_id() == old(peer).remote_id(),
        final(peer).phase() == old(peer).phase(),
        final(peer).outbox().channel() == old(peer).outbox().channel(),
        final(peer).outbox().handed_out() == old(peer).outbox().handed_out(),
        final(peer).outbox().offered() == old(peer).outbox().offered().push(
            (old(peer).remote_id(), message),
        ),
        outcome is Ok ==> final(peer).outbox().accepted() == old(peer).outbox().accepted().push(
            (old(peer).remote_id(), message),
        ),
        outcome is Err ==> {
            &&& outcome == Err::<(), _>(ChannelEventError::Undelivered)
            &&& final(peer).outbox().accepted() == old(peer).outbox().accepted()
        },
{
}

/// A channel that opens is counted. The last one makes the peer join, and what waited is told after
/// the join, in order.
pub proof fn opening_counts_down_to_the_join(
    peer: &mut UnboundedPeerReceiver,
    outcome: Result<(), ChannelEventError>,
)
    requires
        old(peer).wf(),
        !(old(peer).phase() is Connected),
        call_ensures(UnboundedPeerReceiver::channel_open, (peer,), outcome),
    ensures
        match old(peer).phase() {
            PeerPhase::Closed { .. } => outcome is Ok && *final(peer) == *old(peer),
            PeerPhase::Connected => true,
            PeerPhase::Connecting { remaining, buffered } => {
                let told = final(peer).outbox().offered().skip(
                    old(peer).outbox().offered().len() as int,
                );
                &&& final(peer).remote_id() == old(peer).remote_id()
                &&& final(peer).channels() == old(peer).channels()
                &&& final(peer).history() == old(peer).history().push(ChannelEvent::Open)
                &&& final(peer).outbox().channel() == old(peer).outbox().channel()
                &&& final(peer).outbox().handed_out() == old(peer).outbox().handed_out()
                &&& remaining > 1 ==> {
                    &&& outcome is Ok
                    &&& final(peer).phase() == (PeerPhase::Connecting {
                        remaining: (remaining - 1) as nat,
                        buffered,
                    })
                    &&& final(peer).outbox().offered() == old(peer).outbox().offered()
                    &&& final(peer).outbox().accepted() == old(peer).outbox().accepted()
                }
                &&& remaining == 1 ==> {
                    &&& final(peer).outbox().offered() == old(peer).outbox().offered() + told
                    &&& 1 <= told.len() <= 1 + buffered.len()
                    &&& told[0] == (old(peer).remote_id(), PeerMessage::Join)
                    &&& forall|i: int|
                        #![trigger told[i]]
                        1 <= i < told.len() ==> told[i] == (
                            old(peer).remote_id(),
                            PeerMessage::Packet(buffered[i - 1].0, buffered[i - 1].1),
                        )
                    &&& outcome is Ok ==> {
                        &&& told.len() == 1 + buffered.len()
                        &&& final(peer).phase() == PeerPhase::Connected
                        &&& final(peer).outbox().accepted() == old(peer).outbox().accepted() + told
                    }
                    &&& outcome is Err ==> {
                        &&& outcome == Err::<(), _>(ChannelEventError::Undelivered)
                        &&& final(peer).phase() == (PeerPhase::Closed { remaining: 0 })
                        &&& final(peer).outbox().accepted() == old(peer).outbox().accepted()
                            + told.drop_last()
                    }
                }
            },
        },
{
}

/// A channel that closes ends the conversation: with a word of it after the join, silently before.
pub proof fn closing_ends_the_conversation(
    peer: &mut UnboundedPeerReceiver,
    error: Option<String>,
    outcome: Result<(), ChannelEventError>,
)
    requires
        call_ensures(UnboundedPeerReceiver::channel_close, (peer, error), outcome),
    ensures
        match old(peer).phase() {
            PeerPhase::Closed { .. } => outcome is Ok && *final(peer) == *old(peer),
            PeerPhase::Connecting { remaining, .. } => {
                &&& final(peer).remote_id() == old(peer).remote_id()
                &&& final(peer).channels() == old(peer).channels()
                &&& final(peer).history() == old(peer).history().push(ChannelEvent::Close(error))
                &&& final(peer).outbox().channel() == old(peer).outbox().channel()
                &&& final(peer).outbox().handed_out() == old(peer).outbox().handed_out()
                &&& outcome is Ok
                &&& final(peer).phase() == (PeerPhase::Closed { remaining })
                &&& final(peer).outbox().offered() == old(peer).outbox().offered()
                &&& final(peer).outbox().accepted() == old(peer).outbox().accepted()
            },
            PeerPhase::Connected => {
                &&& final(peer).remote_id() == old(peer).remote_id()
                &&& final(peer).channels() == old(peer).channels()
                &&& final(peer).history() == old(peer).history().push(ChannelEvent::Close(error))
                &&& final(peer).outbox().channel() == old(peer).outbox().channel()
                &&& final(peer).outbox().handed_out() == old(peer).outbox().handed_out()
                &&& final(peer).outbox().offered() == old(peer).outbox().offered().push(
                    (old(peer).remote_id(), PeerMessage::Close(error)),
                )
                &&& outcome is Ok ==> {
                    &&& final(peer).phase() == (PeerPhase::Closed { remaining: 0 })
                    &&& final(peer).outbox().accepted() == old(peer).outbox().accepted().push(
                        (old(peer).remote_id(), PeerMessage::Close(error)),
                    )
                }
                &&& outcome is Err ==> {
                    &&& outcome == Err::<(), _>(ChannelEventError::Undelivered)
                    &&& final(peer).phase() == (PeerPhase::Closed { remaining: 0 })
                    &&& final(peer).outbox().accepted() == old(peer).outbox().accepted()
                }
            },
        },
{
}

/// A packet is told at once after the join, waits before it, and is dropped after the close.
pub proof fn packet_is_told_or_waits(
    peer: &mut UnboundedPeerReceiver,
    channel: ChannelNumber,
    packet: Packet,
    outcome: Result<(), ChannelEventError>,
)
    requires
        call_ensures(UnboundedPeerReceiver::channel_packet, (peer, channel, packet), outcome),
    ensures
        match old(peer).phase() {
            PeerPhase::Closed { .. } => outcome is Ok && *final(peer) == *old(peer),
            PeerPhase::Connecting { remaining, buffered } => {
                &&& final(peer).remote_id() == old(peer).remote_id()
                &&& final(peer).channels() == old(peer).channels()
                &&& final(peer).history() == old(peer).history().push(ChannelEvent::Packet(channel, packet))
                &&& final(peer).outbox().channel() == old(peer).outbox().channel()
                &&& final(peer).outbox().handed_out() == old(peer).outbox().handed_out()
                &&& outcome is Ok
                &&& final(peer).phase() == (PeerPhase::Connecting {
                    remaining,
                    buffered: buffered.push((channel, packet)),
                })
                &&& final(peer).outbox().offered() == old(peer).outbox().offered()
                &&& final(peer).outbox().accepted() == old(peer).outbox().accepted()
            },
            PeerPhase::Connected => {
                &&& final(peer).remote_id() == old(peer).remote_id()
                &&& final(peer).channels() == old(peer).channels()
                &&& final(peer).history() == old(peer).history().push(ChannelEvent::Packet(channel, packet))
                &&& final(peer).outbox().channel() == old(peer).outbox().channel()
                &&& final(peer).outbox().handed_out() == old(peer).outbox().handed_out()
                &&& final(peer).outbox().offered() == old(peer).outbox().offered().push(
                    (old(peer).remote_id(), PeerMessage::Packet(channel, packet)),
                )
                &&& outcome is Ok ==> {
                    &&& final(peer).phase() == PeerPhase::Connected
                    &&& final(peer).outbox().accepted() == old(peer).outbox().accepted().push(
                        (old(peer).remote_id(), PeerMessage::Packet(channel, packet)),
                    )
                }
                &&& outcome is Err ==> {
                    &&& outcome == Err::<(), _>(ChannelEventError::Undelivered)
                    &&& final(peer).phase() == (PeerPhase::Closed { remaining: 0 })
                    &&& final(peer).outbox().accepted() == old(peer).outbox().accepted()
                }
            },
        },
{
}

/// To be told that a channel opened is to count it. When all are open, it is refused.
pub proof fn open_event_counts_down_to_the_join(
    peer: &mut UnboundedPeerReceiver,
    outcome: Result<(), ChannelEventError>,
)
    requires
        old(peer).wf(),
        call_ensures(UnboundedPeerReceiver::channel_event, (peer, ChannelEvent::Open), outcome),
    ensures
        match old(peer).phase() {
            PeerPhase::Closed { .. } => outcome is Ok && *final(peer) == *old(peer),
            PeerPhase::Connected => {
                &&& outcome == Err::<(), _>(ChannelEventError::UnexpectedOpen)
                &&& *final(peer) == *old(peer)
            },
            PeerPhase::Connecting { remaining, buffered } => {
                let told = final(peer).outbox().offered().skip(
                    old(peer).outbox().offered().len() as int,
                );
                &&& final(peer).remote_id() == old(peer).remote_id()
                &&& final(peer).channels() == old(peer).channels()
                &&& final(peer).history() == old(peer).history().push(ChannelEvent::Open)
                &&& final(peer).outbox().channel() == old(peer).outbox().channel()
                &&& final(peer).outbox().handed_out() == old(peer).outbox().handed_out()
                &&& remaining > 1 ==> {
                    &&& outcome is Ok
                    &&& final(peer).phase() == (PeerPhase::Connecting {
                        remaining: (remaining - 1) as nat,
                        buffered,
                    })
                    &&& final(peer).outbox().offered() == old(peer).outbox().offered()
                    &&& final(peer).outbox().accepted() == old(peer).outbox().accepted()
                }
                &&& remaining == 1 ==> {
                    &&& final(peer).outbox().offered() == old(peer).outbox().offered() + told
                    &&& 1 <= told.len() <= 1 + buffered.len()
                    &&& told[0] == (old(peer).remote_id(), PeerMessage::Join)
                    &&& forall|i: int|
                        #![trigger told[i]]
                        1 <= i < told.len() ==> told[i] == (
                            old(peer).remote_id(),
                            PeerMessage::Packet(buffered[i - 1].0, buffered[i - 1].1),
                        )
                    &&& outcome is Ok ==> {
                        &&& told.len() == 1 + buffered.len()
                        &&& final(peer).phase() == PeerPhase::Connected
                        &&& final(peer).outbox().accepted() == old(peer).outbox().accepted() + told
                    }
                    &&& outcome is Err ==> {
                        &&& outcome == Err::<(), _>(ChannelEventError::Undelivered)
                        &&& final(peer).phase() == (PeerPhase::Closed { remaining: 0 })
                        &&& final(peer).outbox().accepted() == old(peer).outbox().accepted()
                            + told.drop_last()
                    }
                }
            },
        },
{
}

/// To be told that a channel closed is to end the conversation.
pub proof fn close_event_ends_the_conversation(
    peer: &mut UnboundedPeerReceiver,
    error: Option<String>,
    outcome: Result<(), ChannelEventError>,
)
    requires
        call_ensures(UnboundedPeerReceiver::channel_event, (peer, ChannelEvent::Close(error)), outcome),
    ensures
        match old(peer).phase() {
            PeerPhase::Closed { .. } => outcome is Ok && *final(peer) == *old(peer),
            PeerPhase::Connecting { remaining, .. } => {
                &&& final(peer).remote_id() == old(peer).remote_id()
                &&& final(peer).channels() == old(peer).channels()
                &&& final(peer).history() == old(peer).history().push(ChannelEvent::Close(error))
                &&& final(peer).outbox().channel() == old(peer).outbox().channel()
                &&& final(peer).outbox().handed_out() == old(peer).outbox().handed_out()
                &&& outcome is Ok
                &&& final(peer).phase() == (PeerPhase::Closed { remaining })
                &&& final(peer).outbox().offered() == old(peer).outbox().offered()
                &&& final(peer).outbox().accepted() == old(peer).outbox().accepted()
            },
            PeerPhase::Connected => {
                &&& final(peer).remote_id() == old(peer).remote_id()
                &&& final(peer).channels() == old(peer).channels()
                &&& final(peer).history() == old(peer).history().push(ChannelEvent::Close(error))
                &&& final(peer).outbox().channel() == old(peer).outbox().channel()
                &&& final(peer).outbox().handed_out() == old(peer).outbox().handed_out()
                &&& final(peer).outbox().offered() == old(peer).outbox().offered().push(
                    (old(peer).remote_id(), PeerMessage::Close(error)),
                )
                &&& outcome is Ok ==> {
                    &&& final(peer).phase() == (PeerPhase::Closed { remaining: 0 })
                    &&& final(peer).outbox().accepted() == old(peer).outbox().accepted().push(
                        (old(peer).remote_id(), PeerMessage::Close(error)),
                    )
                }
                &&& outcome is Err ==> {
                    &&& outcome == Err::<(), _>(ChannelEventError::Undelivered)
                    &&& final(peer).phase() == (PeerPhase::Closed { remaining: 0 })
                    &&& final(peer).outbox().accepted() == old(peer).outbox().accepted()
                }
            },
        },
{
}

/// To be told of a packet is to tell it, keep it or drop it.
pub proof fn packet_event_is_told_or_waits(
    peer: &mut UnboundedPeerReceiver,
    channel: ChannelNumber,
    packet: Packet,
    outcome: Result<(), ChannelEventError>,
)
    requires
        call_ensures(
            UnboundedPeerReceiver::channel_event,
            (peer, ChannelEvent::Packet(channel, packet)),
            outcome,
        ),
    ensures
        match old(peer).phase() {
            PeerPhase::Closed { .. } => outcome is Ok && *final(peer) == *old(peer),
            PeerPhase::Connecting { remaining, buffered } => {
                &&& final(peer).remote_id() == old(peer).remote_id()
                &&& final(peer).channels() == old(peer).channels()
                &&& final(peer).history() == old(peer).history().push(ChannelEvent::Packet(channel, packet))
                &&& final(peer).outbox().channel() == old(peer).outbox().channel()
                &&& final(peer).outbox().handed_out() == old(peer).outbox().handed_out()
                &&& outcome is Ok
                &&& final(peer).phase() == (PeerPhase::Connecting {
                    remaining,
                    buffered: buffered.push((channel, packet)),
                })
                &&& final(peer).outbox().offered() == old(peer).outbox().offered()
                &&& final(peer).outbox().accepted() == old(peer).outbox().accepted()
            },
            PeerPhase::Connected => {
                &&& final(peer).remote_id() == old(peer).remote_id()
                &&& final(peer).channels() == old(peer).channels()
                &&& final(peer).history() == old(peer).history().push(ChannelEvent::Packet(channel, packet))
                &&& final(peer).outbox().channel() == old(peer).outbox().channel()
                &&& final(peer).outbox().handed_out() == old(peer).outbox().handed_out()
                &&& final(peer).outbox().offered() == old(peer).outbox().offered().push(
                    (old(peer).remote_id(), PeerMessage::Packet(channel, packet)),
                )
                &&& outcome is Ok ==> {
                    &&& final(peer).phase() == PeerPhase::Connected
                    &&& final(peer).outbox().accepted() == old(peer).outbox().accepted().push(
                        (old(peer).remote_id(), PeerMessage::Packet(channel, packet)),
                    )
                }
                &&& outcome is Err ==> {
                    &&& outcome == Err::<(), _>(ChannelEventError::Undelivered)
                    &&& final(peer).phase() == (PeerPhase::Closed { remaining: 0 })
                    &&& final(peer).outbox().accepted() == old(peer).outbox().accepted()
                }
            },
        },
{
}

} // verus!
