//! Which calls can be made.
use crate::channel::{Outbox, Promise};
use crate::error::ChannelEventError;
use crate::handlers::AsyncDataChannelReceiver;
use crate::message_loop::{LoopAction, LoopEvent, MessageLoop};
use crate::peer::{ChannelEvent, PeerMessage, UnboundedPeerReceiver};
use crate::protocol::{ChannelConfig, ChannelIndex, Packet, PeerEvent, PeerId};
use crate::signaling::{SignalingInput, SignalingLoop};
use crate::simple::{SimpleWebRtcEvent, SimpleWebRtcRx, SimpleWebRtcTx};
use crate::tx_table::TakeError;
use vstd::prelude::*;

verus! {

/// The loop of a socket takes every event that can come: the identity while it is owed, peers when
/// there are channels for them, the join of a peer that a handshake waits for, packets over the
/// channels that there are, and everything else at any time. Afterwards it takes the next one.
pub proof fn loop_takes_what_can_come(
    state: &mut MessageLoop,
    event: LoopEvent,
    action: LoopAction,
)
    requires
        forall|peer: u128|
            #[trigger] old(state)@.waiting.contains_key(peer)
                ==> old(state)@.waiting[peer].pending(),
        match event {
            LoopEvent::Signaling(Some(PeerEvent::IdAssigned(_))) => old(state)@.id.pending(),
            LoopEvent::Signaling(Some(PeerEvent::NewPeer(_))) => {
                0 < old(state)@.config.channels@.len() <= 65536
            },
            LoopEvent::Signaling(Some(PeerEvent::Signal { sender, .. })) => {
                ||| old(state)@.handshakes.contains_key(sender.0)
                ||| 0 < old(state)@.config.channels@.len() <= 65536
            },
            LoopEvent::FromPeer(Some((peer, PeerMessage::Join))) => {
                old(state)@.waiting.contains_key(peer.0)
            },
            LoopEvent::FromPeer(Some((_, PeerMessage::Packet(channel, _)))) => {
                channel.0 < old(state)@.packets.len()
            },
            _ => true,
        },
    ensures
        call_requires(MessageLoop::step, (state, event)),
        call_ensures(MessageLoop::step, (state, event), action) ==> (forall|peer: u128|
            #[trigger] final(state)@.waiting.contains_key(peer)
                ==> final(state)@.waiting[peer].pending()),
{
}

/// The loop between a node and its signaling server takes every input at any time.
pub proof fn signaling_takes_everything(state: &mut SignalingLoop, input: SignalingInput)
    ensures
        call_requires(SignalingLoop::step, (state, input)),
{
}

/// A peer can be told of every event at any time.
pub proof fn peer_takes_every_event(peer: &mut UnboundedPeerReceiver, event: ChannelEvent)
    requires
        old(peer).wf(),
    ensures
        call_requires(UnboundedPeerReceiver::channel_event, (peer, event)),
{
}

/// There can be handlers for as many channels as have numbers of 16 bits.
pub proof fn handlers_for_as_many_channels_as_have_numbers(
    remote_id: PeerId,
    config: &[ChannelConfig],
    messages: Outbox<(PeerId, PeerMessage)>,
)
    requires
        1 <= config@.len() <= 65536,
    ensures
        call_requires(AsyncDataChannelReceiver::channels_for_peer, (remote_id, config, messages)),
{
}

/// A handler takes every event at any time, and then the next one.
pub proof fn handler_takes_every_event(
    handler: &mut AsyncDataChannelReceiver,
    message: String,
    packet: Packet,
    outcome: Result<(), ChannelEventError>,
)
    requires
        old(handler).handle().opened() == old(handler).handle().sessions().len(),
    ensures
        call_requires(AsyncDataChannelReceiver::on_open, (handler,)),
        call_requires(AsyncDataChannelReceiver::on_close, (handler,)),
        call_requires(AsyncDataChannelReceiver::on_error, (handler, message)),
        call_requires(AsyncDataChannelReceiver::on_message, (handler, packet)),
        call_ensures(AsyncDataChannelReceiver::on_message, (handler, packet), outcome) ==>
            final(handler).handle().opened() == final(handler).handle().sessions().len(),
{
}

/// A transmitter takes every packet for every channel at any time, and every wish to take one.
pub proof fn transmitter_takes_everything(
    tx: &mut SimpleWebRtcTx,
    peer: PeerId,
    channel: ChannelIndex,
    packet: Packet,
    sent: Result<(), TakeError>,
)
    requires
        old(tx).table().handle().opened() == old(tx).table().handle().sessions().len(),
    ensures
        call_requires(SimpleWebRtcTx::take_sink, (tx, peer, channel)),
        call_requires(SimpleWebRtcTx::send, (tx, peer, channel, packet)),
        call_ensures(SimpleWebRtcTx::send, (tx, peer, channel, packet), sent) ==>
            final(tx).table().handle().opened() == final(tx).table().handle().sessions().len(),
{
}

/// A receiver takes every event at any time, and every wish to take a stream.
pub proof fn receiver_takes_everything(
    rx: &mut SimpleWebRtcRx,
    event: SimpleWebRtcEvent,
    peer: PeerId,
    channel: ChannelIndex,
    out: Option<SimpleWebRtcEvent>,
)
    requires
        old(rx).table().handle().opened() == old(rx).table().handle().sessions().len(),
    ensures
        call_requires(SimpleWebRtcRx::route, (rx, event)),
        call_requires(SimpleWebRtcRx::take_stream, (rx, peer, channel)),
        call_ensures(SimpleWebRtcRx::route, (rx, event), out) ==>
            final(rx).table().handle().opened() == final(rx).table().handle().sessions().len(),
{
}

/// A promise can be kept while it is owed.
pub proof fn owed_promise_can_be_kept<T>(promised: &mut Promise<T>, value: T)
    requires
        old(promised).pending(),
    ensures
        call_requires(Promise::<T>::send, (promised, value)),
{
}

} // verus!
