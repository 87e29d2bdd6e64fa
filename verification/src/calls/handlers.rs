//! What each call on the handler of a data channel does, told by what goes in and what comes out.
//!
//! A handler visits the peer that its channel shares with the others: it finds the peer as the last
//! visit left it. What it found and what it left is what the last of its sessions tells.
use crate::channel::Outbox;
use crate::error::ChannelEventError;
use crate::handlers::{AsyncDataChannelReceiver, ChannelBuilder};
use crate::peer::{ChannelEvent, PeerMessage, PeerPhase};
use crate::protocol::{ChannelConfig, Packet, PeerId};
use vstd::prelude::*;

verus! {

/// There is one handler for each channel that is configured, under its number. They share one peer,
/// who waits for all of the channels and has said nothing, and nobody else has a way to it.
pub proof fn handlers_share_one_new_peer(
    remote_id: PeerId,
    config: &[ChannelConfig],
    messages: Outbox<(PeerId, PeerMessage)>,
    builders: Vec<ChannelBuilder<AsyncDataChannelReceiver>>,
)
    requires
        0 < config@.len() <= 0x1_0000,
        call_ensures(
            AsyncDataChannelReceiver::channels_for_peer,
            (remote_id, config, messages),
            builders,
        ),
    ensures
        builders@.len() == config@.len(),
        forall|i: int|
            #![trigger builders@[i]]
            0 <= i < config@.len() ==> {
                let handler = builders@[i].event_handlers;
                let peer = handler.handle().lock().made_with();
                &&& builders@[i].channel_config == config@[i]
                &&& handler.channel().0 == i
                &&& handler.handle().lock() == builders@[0].event_handlers.handle().lock()
                &&& handler.handle().opened() == 0
                &&& handler.handle().sessions().len() == 0
                &&& i > 0 ==> handler.handle().handed_out() == 0
                &&& i == 0 ==> handler.handle().handed_out() == config@.len() - 1
                &&& peer.remote_id() == remote_id
                &&& peer.channels() == config@.len()
                &&& peer.outbox() == messages
                &&& peer.history().len() == 0
                &&& peer.phase() == (PeerPhase::Connecting {
                    remaining: config@.len(),
                    buffered: Seq::empty(),
                })
            },
{
}

/// When a channel opens, its handler counts it: the last one makes the peer join, and what waited is
/// told after the join, in order.
pub proof fn on_open_counts_down_to_the_join(
    handler: &mut AsyncDataChannelReceiver,
    outcome: Result<(), ChannelEventError>,
)
    requires
        call_ensures(AsyncDataChannelReceiver::on_open, (handler,), outcome),
    ensures
        final(handler).channel() == old(handler).channel(),
        final(handler).handle().lock() == old(handler).handle().lock(),
        final(handler).handle().handed_out() == old(handler).handle().handed_out(),
        final(handler).handle().opened() == old(handler).handle().opened() + 1,
        ({
            let sessions = old(handler).handle().sessions();
            let last = final(handler).handle().sessions().last();
            let found = last[0]->Found_0;
            let left = last[1]->Left_0;
            &&& final(handler).handle().sessions() == sessions.push(last)
            &&& last.len() == 2
            &&& last[0] is Found
            &&& last[1] is Left
            &&& old(handler).handled(found, ChannelEvent::Open, left, outcome)
            &&& match found.phase() {
                    PeerPhase::Closed { .. } => outcome is Ok && left == found,
                    PeerPhase::Connected => {
                        &&& outcome == Err::<(), _>(ChannelEventError::UnexpectedOpen)
                        &&& left == found
                    },
                    PeerPhase::Connecting { remaining, buffered } => {
                        let told = left.outbox().offered().skip(found.outbox().offered().len() as int);
                        &&& left.remote_id() == found.remote_id()
                        &&& left.channels() == found.channels()
                        &&& left.history() == found.history().push(ChannelEvent::Open)
                        &&& left.outbox().channel() == found.outbox().channel()
                        &&& left.outbox().handed_out() == found.outbox().handed_out()
                        &&& remaining > 1 ==> {
                            &&& outcome is Ok
                            &&& left.phase() == (PeerPhase::Connecting {
                                remaining: (remaining - 1) as nat,
                                buffered,
                            })
                            &&& left.outbox().offered() == found.outbox().offered()
                            &&& left.outbox().accepted() == found.outbox().accepted()
                        }
                        &&& remaining == 1 ==> {
                            &&& left.outbox().offered() == found.outbox().offered() + told
                            &&& 1 <= told.len() <= 1 + buffered.len()
                            &&& told[0] == (found.remote_id(), PeerMessage::Join)
                            &&& forall|i: int|
                                #![trigger told[i]]
                                1 <= i < told.len() ==> told[i] == (
                                    found.remote_id(),
                                    PeerMessage::Packet(buffered[i - 1].0, buffered[i - 1].1),
                                )
                            &&& outcome is Ok ==> {
                                &&& told.len() == 1 + buffered.len()
                                &&& left.phase() == PeerPhase::Connected
                                &&& left.outbox().accepted() == found.outbox().accepted() + told
                            }
                            &&& outcome is Err ==> {
                                &&& outcome == Err::<(), _>(ChannelEventError::Undelivered)
                                &&& left.phase() == (PeerPhase::Closed { remaining: 0 })
                                &&& left.outbox().accepted() == found.outbox().accepted() + told.drop_last()
                            }
                        }
                    },
                }
        }),
{
}

/// When a channel closes in an orderly way, its handler ends the conversation, without an error.
pub proof fn on_close_ends_the_conversation(
    handler: &mut AsyncDataChannelReceiver,
    outcome: Result<(), ChannelEventError>,
)
    requires
        call_ensures(AsyncDataChannelReceiver::on_close, (handler,), outcome),
    ensures
        final(handler).channel() == old(handler).channel(),
        final(handler).handle().lock() == old(handler).handle().lock(),
        final(handler).handle().handed_out() == old(handler).handle().handed_out(),
        final(handler).handle().opened() == old(handler).handle().opened() + 1,
        ({
            let sessions = old(handler).handle().sessions();
            let last = final(handler).handle().sessions().last();
            let found = last[0]->Found_0;
            let left = last[1]->Left_0;
            &&& final(handler).handle().sessions() == sessions.push(last)
            &&& last.len() == 2
            &&& last[0] is Found
            &&& last[1] is Left
            &&& old(handler).handled(found, ChannelEvent::Close(None), left, outcome)
            &&& match found.phase() {
                    PeerPhase::Closed { .. } => outcome is Ok && left == found,
                    PeerPhase::Connecting { remaining, .. } => {
                        &&& left.remote_id() == found.remote_id()
                        &&& left.channels() == found.channels()
                        &&& left.history() == found.history().push(ChannelEvent::Close(None))
                        &&& left.outbox().channel() == found.outbox().channel()
                        &&& left.outbox().handed_out() == found.outbox().handed_out()
                        &&& outcome is Ok
                        &&& left.phase() == (PeerPhase::Closed { remaining })
                        &&& left.outbox().offered() == found.outbox().offered()
                        &&& left.outbox().accepted() == found.outbox().accepted()
                    },
                    PeerPhase::Connected => {
                        &&& left.remote_id() == found.remote_id()
                        &&& left.channels() == found.channels()
                        &&& left.history() == found.history().push(ChannelEvent::Close(None))
                        &&& left.outbox().channel() == found.outbox().channel()
                        &&& left.outbox().handed_out() == found.outbox().handed_out()
                        &&& left.outbox().offered() == found.outbox().offered().push(
                            (found.remote_id(), PeerMessage::Close(None)),
                        )
                        &&& outcome is Ok ==> {
                            &&& left.phase() == (PeerPhase::Closed { remaining: 0 })
                            &&& left.outbox().accepted() == found.outbox().accepted().push(
                                (found.remote_id(), PeerMessage::Close(None)),
                            )
                        }
                        &&& outcome is Err ==> {
                            &&& outcome == Err::<(), _>(ChannelEventError::Undelivered)
                            &&& left.phase() == (PeerPhase::Closed { remaining: 0 })
                            &&& left.outbox().accepted() == found.outbox().accepted()
                        }
                    },
                }
        }),
{
}

/// When a channel fails, its handler ends the conversation, with that error.
pub proof fn on_error_ends_the_conversation(
    handler: &mut AsyncDataChannelReceiver,
    message: String,
    outcome: Result<(), ChannelEventError>,
)
    requires
        call_ensures(AsyncDataChannelReceiver::on_error, (handler, message), outcome),
    ensures
        final(handler).channel() == old(handler).channel(),
        final(handler).handle().lock() == old(handler).handle().lock(),
        final(handler).handle().handed_out() == old(handler).handle().handed_out(),
        final(handler).handle().opened() == old(handler).handle().opened() + 1,
        ({
            let sessions = old(handler).handle().sessions();
            let last = final(handler).handle().sessions().last();
            let found = last[0]->Found_0;
            let left = last[1]->Left_0;
            &&& final(handler).handle().sessions() == sessions.push(last)
            &&& last.len() == 2
            &&& last[0] is Found
            &&& last[1] is Left
            &&& old(handler).handled(found, ChannelEvent::Close(Some(message)), left, outcome)
            &&& match found.phase() {
                    PeerPhase::Closed { .. } => outcome is Ok && left == found,
                    PeerPhase::Connecting { remaining, .. } => {
                        &&& left.remote_id() == found.remote_id()
                        &&& left.channels() == found.channels()
                        &&& left.history() == found.history().push(ChannelEvent::Close(Some(message)))
                        &&& left.outbox().channel() == found.outbox().channel()
                        &&& left.outbox().handed_out() == found.outbox().handed_out()
                        &&& outcome is Ok
                        &&& left.phase() == (PeerPhase::Closed { remaining })
                        &&& left.outbox().offered() == found.outbox().offered()
                        &&& left.outbox().accepted() == found.outbox().accepted()
                    },
                    PeerPhase::Connected => {
                        &&& left.remote_id() == found.remote_id()
                        &&& left.channels() == found.channels()
                        &&& left.history() == found.history().push(ChannelEvent::Close(Some(message)))
                        &&& left.outbox().channel() == found.outbox().channel()
                        &&& left.outbox().handed_out() == found.outbox().handed_out()
                        &&& left.outbox().offered() == found.outbox().offered().push(
                            (found.remote_id(), PeerMessage::Close(Some(message))),
                        )
                        &&& outcome is Ok ==> {
                            &&& left.phase() == (PeerPhase::Closed { remaining: 0 })
                            &&& left.outbox().accepted() == found.outbox().accepted().push(
                                (found.remote_id(), PeerMessage::Close(Some(message))),
                            )
                        }
                        &&& outcome is Err ==> {
                            &&& outcome == Err::<(), _>(ChannelEventError::Undelivered)
                            &&& left.phase() == (PeerPhase::Closed { remaining: 0 })
                            &&& left.outbox().accepted() == found.outbox().accepted()
                        }
                    },
                }
        }),
{
}

/// A packet is told under the number of the handler's own channel, whatever the packet is: at once
/// after the join; it waits before it, and is dropped after the close.
pub proof fn on_message_tells_the_own_channel(
    handler: &mut AsyncDataChannelReceiver,
    packet: Packet,
    outcome: Result<(), ChannelEventError>,
)
    requires
        call_ensures(AsyncDataChannelReceiver::on_message, (handler, packet), outcome),
    ensures
        final(handler).channel() == old(handler).channel(),
        final(handler).handle().lock() == old(handler).handle().lock(),
        final(handler).handle().handed_out() == old(handler).handle().handed_out(),
        final(handler).handle().opened() == old(handler).handle().opened() + 1,
        ({
            let sessions = old(handler).handle().sessions();
            let last = final(handler).handle().sessions().last();
            let found = last[0]->Found_0;
            let left = last[1]->Left_0;
            &&& final(handler).handle().sessions() == sessions.push(last)
            &&& last.len() == 2
            &&& last[0] is Found
            &&& last[1] is Left
            &&& old(handler).handled(found, ChannelEvent::Packet(old(handler).channel(), packet), left, outcome)
            &&& match found.phase() {
                    PeerPhase::Closed { .. } => outcome is Ok && left == found,
                    PeerPhase::Connecting { remaining, buffered } => {
                        &&& left.remote_id() == found.remote_id()
                        &&& left.channels() == found.channels()
                        &&& left.history() == found.history().push(ChannelEvent::Packet(old(handler).channel(), packet))
                        &&& left.outbox().channel() == found.outbox().channel()
                        &&& left.outbox().handed_out() == found.outbox().handed_out()
                        &&& outcome is Ok
                        &&& left.phase() == (PeerPhase::Connecting {
                            remaining,
                            buffered: buffered.push((old(handler).channel(), packet)),
                        })
                        &&& left.outbox().offered() == found.outbox().offered()
                        &&& left.outbox().accepted() == found.outbox().accepted()
                    },
                    PeerPhase::Connected => {
                        &&& left.remote_id() == found.remote_id()
                        &&& left.channels() == found.channels()
                        &&& left.history() == found.history().push(ChannelEvent::Packet(old(handler).channel(), packet))
                        &&& left.outbox().channel() == found.outbox().channel()
                        &&& left.outbox().handed_out() == found.outbox().handed_out()
                        &&& left.outbox().offered() == found.outbox().offered().push(
                            (found.remote_id(), PeerMessage::Packet(old(handler).channel(), packet)),
                        )
                        &&& outcome is Ok ==> {
                            &&& left.phase() == PeerPhase::Connected
                            &&& left.outbox().accepted() == found.outbox().accepted().push(
                                (found.remote_id(), PeerMessage::Packet(old(handler).channel(), packet)),
                            )
                        }
                        &&& outcome is Err ==> {
                            &&& outcome == Err::<(), _>(ChannelEventError::Undelivered)
                            &&& left.phase() == (PeerPhase::Closed { remaining: 0 })
                            &&& left.outbox().accepted() == found.outbox().accepted()
                        }
                    },
                }
        }),
{
}

} // verus!
