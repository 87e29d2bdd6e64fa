//! What each call on the loop of a socket does, told by what goes in and what comes out.
use crate::channel::{Outbox, Promise};
use crate::message_loop::{LoopAction, LoopEvent, MessageLoop};
use crate::peer::{PeerMessage, PeerPhase};
use crate::protocol::{
    ChannelNumber, Packet, PeerEvent, PeerId, PeerRequest, PeerSignal, PeerState,
    RtcIceServerConfig, SocketConfig,
};
use std::time::Duration;
use vstd::prelude::*;

verus! {

/// A new loop has what it was given, and knows no peers.
pub proof fn new_loop_knows_no_peers(
    config: SocketConfig,
    requests: Outbox<PeerRequest>,
    packets: Vec<Outbox<(PeerId, Packet)>>,
    peer_states: Outbox<(PeerId, PeerState)>,
    peer_messages: Outbox<(PeerId, PeerMessage)>,
    id: Promise<PeerId>,
    state: MessageLoop,
)
    requires
        call_ensures(
            MessageLoop::new,
            (config, requests, packets, peer_states, peer_messages, id),
            state,
        ),
    ensures
        state@.config == config,
        state@.requests == requests,
        state@.packets == packets@,
        state@.peer_states == peer_states,
        state@.peer_messages == peer_messages,
        state@.id == id,
        forall|peer: u128| !#[trigger] state@.handshakes.contains_key(peer),
        forall|peer: u128| !#[trigger] state@.waiting.contains_key(peer),
{
}

/// The configuration can be asked for.
pub proof fn configuration_is_kept(
    state: &MessageLoop,
    interval: Option<Duration>,
    ice_server: &RtcIceServerConfig,
)
    requires
        call_ensures(MessageLoop::keep_alive_interval, (state,), interval),
        call_ensures(MessageLoop::ice_server, (state,), ice_server),
    ensures
        interval == state@.config.keep_alive_interval,
        *ice_server == state@.config.ice_server,
{
}

/// Which events can come now, and asking tells.
pub proof fn asking_tells_what_can_come(state: &MessageLoop, event: &LoopEvent, yes: bool)
    requires
        call_ensures(MessageLoop::can_handle, (state, event), yes),
    ensures
        yes <==> match *event {
            LoopEvent::Timeout => true,
            LoopEvent::Signaling(None) => true,
            LoopEvent::Signaling(Some(PeerEvent::IdAssigned(_))) => state@.id.pending(),
            LoopEvent::Signaling(Some(PeerEvent::NewPeer(_))) => {
                0 < state@.config.channels@.len() <= 65536
            },
            LoopEvent::Signaling(Some(PeerEvent::PeerLeft(_))) => true,
            LoopEvent::Signaling(Some(PeerEvent::Signal { sender, .. })) => {
                ||| state@.handshakes.contains_key(sender.0)
                ||| 0 < state@.config.channels@.len() <= 65536
            },
            LoopEvent::FromPeer(None) => true,
            LoopEvent::FromPeer(Some((peer, PeerMessage::Join))) => {
                state@.waiting.contains_key(peer.0)
            },
            LoopEvent::FromPeer(Some((_, PeerMessage::Packet(channel, _)))) => {
                channel.0 < state@.packets.len()
            },
            LoopEvent::FromPeer(Some((_, PeerMessage::Close(_)))) => true,
            LoopEvent::SocketClosed => true,
            LoopEvent::Complete => true,
        },
{
}

/// The loop ends only when nothing more can happen, when the socket is closed, when nobody takes a
/// request to be kept alive, or when nobody takes the identity. No message of a peer ends it, and no
/// peer that comes, leaves or signals.
pub proof fn loop_ends_only_for_a_reason(
    state: &mut MessageLoop,
    event: LoopEvent,
    action: LoopAction,
)
    requires
        call_ensures(MessageLoop::step, (state, event), action),
    ensures
        action is Exit <==> match event {
            LoopEvent::Timeout => {
                final(state)@.requests.accepted().len() == old(state)@.requests.accepted().len()
            },
            LoopEvent::Signaling(Some(PeerEvent::IdAssigned(_))) => !final(state)@.id.accepted(),
            LoopEvent::Signaling(_) => false,
            LoopEvent::FromPeer(Some(_)) => false,
            LoopEvent::FromPeer(None) => true,
            LoopEvent::SocketClosed => true,
            LoopEvent::Complete => true,
        },
{
}

/// When there is nothing to hear any more, or nothing to do, nothing changes.
pub proof fn endings_change_nothing(state: &mut MessageLoop, event: LoopEvent, action: LoopAction)
    requires
        event is SocketClosed || event is Complete || event == LoopEvent::FromPeer(None) || event
            == LoopEvent::Signaling(None),
        call_ensures(MessageLoop::step, (state, event), action),
    ensures
        final(state)@ == old(state)@,
        event == LoopEvent::Signaling(None) ==> action is Continue,
        event != LoopEvent::Signaling(None) ==> action is Exit,
{
}

/// When the timer runs out, one request to be kept alive is made, and the timer is started again for
/// as long as is configured.
pub proof fn timeout_keeps_alive(state: &mut MessageLoop, action: LoopAction)
    requires
        call_ensures(MessageLoop::step, (state, LoopEvent::Timeout), action),
    ensures
        final(state)@.requests.channel() == old(state)@.requests.channel(),
        final(state)@.requests.handed_out() == old(state)@.requests.handed_out(),
        final(state)@.requests.offered() == old(state)@.requests.offered().push(
            PeerRequest::KeepAlive,
        ),
        ({
            ||| {
                &&& final(state)@.requests.accepted() == old(state)@.requests.accepted()
                &&& action is Exit
            }
            ||| {
                &&& final(state)@.requests.accepted() == old(state)@.requests.accepted().push(
                    PeerRequest::KeepAlive,
                )
                &&& match old(state)@.config.keep_alive_interval {
                    Some(interval) => action == LoopAction::RestartTimer(interval),
                    None => action is NoInterval,
                }
            }
        }),
        final(state)@.config == old(state)@.config,
        final(state)@.packets == old(state)@.packets,
        final(state)@.peer_states == old(state)@.peer_states,
        final(state)@.peer_messages == old(state)@.peer_messages,
        final(state)@.handshakes == old(state)@.handshakes,
        final(state)@.waiting == old(state)@.waiting,
        final(state)@.id == old(state)@.id,
{
}

/// The identity that is assigned is the one that is handed on.
pub proof fn identity_is_handed_on(state: &mut MessageLoop, id: PeerId, action: LoopAction)
    requires
        call_ensures(
            MessageLoop::step,
            (state, LoopEvent::Signaling(Some(PeerEvent::IdAssigned(id)))),
            action,
        ),
    ensures
        final(state)@.id.channel() == old(state)@.id.channel(),
        final(state)@.id.offered() == Some(id),
        !final(state)@.id.pending(),
        final(state)@.id.accepted() ==> action is Continue,
        !final(state)@.id.accepted() ==> action is Exit,
        final(state)@.config == old(state)@.config,
        final(state)@.requests == old(state)@.requests,
        final(state)@.packets == old(state)@.packets,
        final(state)@.peer_states == old(state)@.peer_states,
        final(state)@.peer_messages == old(state)@.peer_messages,
        final(state)@.handshakes == old(state)@.handshakes,
        final(state)@.waiting == old(state)@.waiting,
{
}

/// A new peer is made an offer, in a handshake of its own: with a way to ask for signals to that
/// peer, the signals of that peer, handlers for all of the channels that report to the loop, and a
/// promise that is kept when the peer joins.
pub proof fn new_peer_is_made_an_offer(
    state: &mut MessageLoop,
    peer: PeerId,
    action: LoopAction,
    i: int,
)
    requires
        old(state)@.config.channels@.len() > 0,
        call_ensures(
            MessageLoop::step,
            (state, LoopEvent::Signaling(Some(PeerEvent::NewPeer(peer)))),
            action,
        ),
    ensures
        action is Offer,
        final(state)@.handshakes[peer.0].offered().len() == 0,
        final(state)@.handshakes[peer.0].accepted().len() == 0,
        final(state)@.handshakes[peer.0].channel() == action->Offer_0.signal_rx.channel(),
        final(state)@.handshakes[peer.0].handed_out() == 0,
        forall|other: u128|
            #[trigger] final(state)@.handshakes.contains_key(other) <==> other == peer.0
                || old(state)@.handshakes.contains_key(other),
        forall|other: u128|
            other != peer.0 && old(state)@.handshakes.contains_key(other)
                ==> #[trigger] final(state)@.handshakes[other] == old(state)@.handshakes[other],
        final(state)@.waiting[peer.0].channel() == action->Offer_0.data_channels_ready.channel(),
        final(state)@.waiting[peer.0].pending(),
        final(state)@.waiting[peer.0].offered() is None,
        forall|other: u128|
            #[trigger] final(state)@.waiting.contains_key(other) <==> other == peer.0
                || old(state)@.waiting.contains_key(other),
        forall|other: u128|
            other != peer.0 && old(state)@.waiting.contains_key(other)
                ==> #[trigger] final(state)@.waiting[other] == old(state)@.waiting[other],
        action->Offer_0.signal_peer.id == peer,
        action->Offer_0.signal_peer.sender.channel() == old(state)@.requests.channel(),
        action->Offer_0.signal_peer.sender.offered().len() == 0,
        action->Offer_0.signal_peer.sender.handed_out() == 0,
        final(state)@.requests.channel() == old(state)@.requests.channel(),
        final(state)@.requests.offered() == old(state)@.requests.offered(),
        final(state)@.requests.accepted() == old(state)@.requests.accepted(),
        final(state)@.requests.handed_out() == old(state)@.requests.handed_out() + 1,
        final(state)@.peer_messages.channel() == old(state)@.peer_messages.channel(),
        final(state)@.peer_messages.offered() == old(state)@.peer_messages.offered(),
        final(state)@.peer_messages.accepted() == old(state)@.peer_messages.accepted(),
        final(state)@.peer_messages.handed_out() == old(state)@.peer_messages.handed_out() + 1,
        action->Offer_0.builders@.len() == old(state)@.config.channels@.len(),
        0 <= i < action->Offer_0.builders@.len() ==> {
            let builder = action->Offer_0.builders@[i];
            let handle = builder.event_handlers.handle();
            let shared = handle.lock().made_with();
            &&& builder.channel_config == old(state)@.config.channels@[i]
            &&& builder.event_handlers.channel().0 == i
            &&& handle.lock() == action->Offer_0.builders@[0].event_handlers.handle().lock()
            &&& handle.opened() == 0
            &&& handle.sessions().len() == 0
            &&& shared.remote_id() == peer
            &&& shared.channels() == old(state)@.config.channels@.len()
            &&& shared.outbox().channel() == old(state)@.peer_messages.channel()
            &&& shared.outbox().offered().len() == 0
            &&& shared.outbox().handed_out() == 0
            &&& shared.phase() == (PeerPhase::Connecting {
                remaining: old(state)@.config.channels@.len(),
                buffered: Seq::empty(),
            })
        },
        final(state)@.config == old(state)@.config,
        final(state)@.packets == old(state)@.packets,
        final(state)@.peer_states == old(state)@.peer_states,
        final(state)@.id == old(state)@.id,
{
}

/// The first signal of a peer is answered, in a handshake of its own, to which that signal is
/// passed. The handshake is as one for a new peer.
pub proof fn first_signal_is_answered(
    state: &mut MessageLoop,
    peer: PeerId,
    data: PeerSignal,
    action: LoopAction,
    i: int,
)
    requires
        old(state)@.config.channels@.len() > 0,
        !old(state)@.handshakes.contains_key(peer.0),
        call_ensures(
            MessageLoop::step,
            (state, LoopEvent::Signaling(Some(PeerEvent::Signal { sender: peer, data }))),
            action,
        ),
    ensures
        action is Accept,
        final(state)@.handshakes[peer.0].offered() == seq![data],
        final(state)@.handshakes[peer.0].accepted() == seq![data],
        final(state)@.handshakes[peer.0].channel() == action->Accept_0.signal_rx.channel(),
        final(state)@.handshakes[peer.0].handed_out() == 0,
        forall|other: u128|
            #[trigger] final(state)@.handshakes.contains_key(other) <==> other == peer.0
                || old(state)@.handshakes.contains_key(other),
        forall|other: u128|
            other != peer.0 && old(state)@.handshakes.contains_key(other)
                ==> #[trigger] final(state)@.handshakes[other] == old(state)@.handshakes[other],
        final(state)@.waiting[peer.0].channel() == action->Accept_0.data_channels_ready.channel(),
        final(state)@.waiting[peer.0].pending(),
        final(state)@.waiting[peer.0].offered() is None,
        forall|other: u128|
            #[trigger] final(state)@.waiting.contains_key(other) <==> other == peer.0
                || old(state)@.waiting.contains_key(other),
        forall|other: u128|
            other != peer.0 && old(state)@.waiting.contains_key(other)
                ==> #[trigger] final(state)@.waiting[other] == old(state)@.waiting[other],
        action->Accept_0.signal_peer.id == peer,
        action->Accept_0.signal_peer.sender.channel() == old(state)@.requests.channel(),
        action->Accept_0.signal_peer.sender.offered().len() == 0,
        action->Accept_0.signal_peer.sender.handed_out() == 0,
        final(state)@.requests.channel() == old(state)@.requests.channel(),
        final(state)@.requests.offered() == old(state)@.requests.offered(),
        final(state)@.requests.accepted() == old(state)@.requests.accepted(),
        final(state)@.requests.handed_out() == old(state)@.requests.handed_out() + 1,
        final(state)@.peer_messages.channel() == old(state)@.peer_messages.channel(),
        final(state)@.peer_messages.offered() == old(state)@.peer_messages.offered(),
        final(state)@.peer_messages.accepted() == old(state)@.peer_messages.accepted(),
        final(state)@.peer_messages.handed_out() == old(state)@.peer_messages.handed_out() + 1,
        action->Accept_0.builders@.len() == old(state)@.config.channels@.len(),
        0 <= i < action->Accept_0.builders@.len() ==> {
            let builder = action->Accept_0.builders@[i];
            let handle = builder.event_handlers.handle();
            let shared = handle.lock().made_with();
            &&& builder.channel_config == old(state)@.config.channels@[i]
            &&& builder.event_handlers.channel().0 == i
            &&& handle.lock() == action->Accept_0.builders@[0].event_handlers.handle().lock()
            &&& handle.opened() == 0
            &&& handle.sessions().len() == 0
            &&& shared.remote_id() == peer
            &&& shared.channels() == old(state)@.config.channels@.len()
            &&& shared.outbox().channel() == old(state)@.peer_messages.channel()
            &&& shared.outbox().offered().len() == 0
            &&& shared.outbox().handed_out() == 0
            &&& shared.phase() == (PeerPhase::Connecting {
                remaining: old(state)@.config.channels@.len(),
                buffered: Seq::empty(),
            })
        },
        final(state)@.config == old(state)@.config,
        final(state)@.packets == old(state)@.packets,
        final(state)@.peer_states == old(state)@.peer_states,
        final(state)@.id == old(state)@.id,
{
}

/// A later signal of a peer is passed to the handshake with it, unchanged. If the handshake was
/// finished, the signal is ignored.
pub proof fn later_signal_is_passed_on(
    state: &mut MessageLoop,
    peer: PeerId,
    data: PeerSignal,
    action: LoopAction,
)
    requires
        old(state)@.handshakes.contains_key(peer.0),
        call_ensures(
            MessageLoop::step,
            (state, LoopEvent::Signaling(Some(PeerEvent::Signal { sender: peer, data }))),
            action,
        ),
    ensures
        forall|other: u128|
            #[trigger] final(state)@.handshakes.contains_key(other)
                == old(state)@.handshakes.contains_key(other),
        forall|other: u128|
            other != peer.0 && old(state)@.handshakes.contains_key(other)
                ==> #[trigger] final(state)@.handshakes[other] == old(state)@.handshakes[other],
        final(state)@.handshakes[peer.0].channel() == old(state)@.handshakes[peer.0].channel(),
        final(state)@.handshakes[peer.0].handed_out()
            == old(state)@.handshakes[peer.0].handed_out(),
        final(state)@.handshakes[peer.0].offered()
            == old(state)@.handshakes[peer.0].offered().push(data),
        ({
            ||| {
                &&& final(state)@.handshakes[peer.0].accepted()
                    == old(state)@.handshakes[peer.0].accepted().push(data)
                &&& action is Continue
            }
            ||| {
                &&& final(state)@.handshakes[peer.0].accepted()
                    == old(state)@.handshakes[peer.0].accepted()
                &&& action == LoopAction::SignalIgnored(peer)
            }
        }),
        final(state)@.config == old(state)@.config,
        final(state)@.requests == old(state)@.requests,
        final(state)@.packets == old(state)@.packets,
        final(state)@.peer_states == old(state)@.peer_states,
        final(state)@.peer_messages == old(state)@.peer_messages,
        final(state)@.waiting == old(state)@.waiting,
        final(state)@.id == old(state)@.id,
{
}

/// When a peer leaves, the handshake with it is forgotten, and no other.
pub proof fn peer_that_leaves_is_forgotten(
    state: &mut MessageLoop,
    peer: PeerId,
    action: LoopAction,
)
    requires
        call_ensures(
            MessageLoop::step,
            (state, LoopEvent::Signaling(Some(PeerEvent::PeerLeft(peer)))),
            action,
        ),
    ensures
        action is Continue,
        forall|other: u128|
            #[trigger] final(state)@.handshakes.contains_key(other) <==> other != peer.0
                && old(state)@.handshakes.contains_key(other),
        forall|other: u128|
            other != peer.0 && old(state)@.handshakes.contains_key(other)
                ==> #[trigger] final(state)@.handshakes[other] == old(state)@.handshakes[other],
        final(state)@.config == old(state)@.config,
        final(state)@.requests == old(state)@.requests,
        final(state)@.packets == old(state)@.packets,
        final(state)@.peer_states == old(state)@.peer_states,
        final(state)@.peer_messages == old(state)@.peer_messages,
        final(state)@.waiting == old(state)@.waiting,
        final(state)@.id == old(state)@.id,
{
}

/// When a peer joins, the handshake that waits for it is told, and the socket that the peer
/// connected; no other handshake is.
pub proof fn join_is_told_and_reported(state: &mut MessageLoop, peer: PeerId, action: LoopAction)
    requires
        old(state)@.waiting.contains_key(peer.0),
        call_ensures(
            MessageLoop::step,
            (state, LoopEvent::FromPeer(Some((peer, PeerMessage::Join)))),
            action,
        ),
    ensures
        action is Ready,
        action->Ready_0.channel() == old(state)@.waiting[peer.0].channel(),
        action->Ready_0.offered() == Some(()),
        !action->Ready_0.pending(),
        forall|other: u128|
            #[trigger] final(state)@.waiting.contains_key(other) <==> other != peer.0
                && old(state)@.waiting.contains_key(other),
        forall|other: u128|
            other != peer.0 && old(state)@.waiting.contains_key(other)
                ==> #[trigger] final(state)@.waiting[other] == old(state)@.waiting[other],
        final(state)@.peer_states.channel() == old(state)@.peer_states.channel(),
        final(state)@.peer_states.handed_out() == old(state)@.peer_states.handed_out(),
        final(state)@.peer_states.offered() == old(state)@.peer_states.offered().push(
            (peer, PeerState::Connected),
        ),
        ({
            ||| final(state)@.peer_states.accepted() == old(state)@.peer_states.accepted()
            ||| final(state)@.peer_states.accepted() == old(state)@.peer_states.accepted().push(
                (peer, PeerState::Connected),
            )
        }),
        final(state)@.config == old(state)@.config,
        final(state)@.requests == old(state)@.requests,
        final(state)@.packets == old(state)@.packets,
        final(state)@.peer_messages == old(state)@.peer_messages,
        final(state)@.handshakes == old(state)@.handshakes,
        final(state)@.id == old(state)@.id,
{
}

/// When a peer closes, the socket hears that it disconnected, and the loop goes on.
pub proof fn close_is_reported(
    state: &mut MessageLoop,
    peer: PeerId,
    error: Option<String>,
    action: LoopAction,
)
    requires
        call_ensures(
            MessageLoop::step,
            (state, LoopEvent::FromPeer(Some((peer, PeerMessage::Close(error))))),
            action,
        ),
    ensures
        action is Continue,
        final(state)@.peer_states.channel() == old(state)@.peer_states.channel(),
        final(state)@.peer_states.handed_out() == old(state)@.peer_states.handed_out(),
        final(state)@.peer_states.offered() == old(state)@.peer_states.offered().push(
            (peer, PeerState::Disconnected),
        ),
        ({
            ||| final(state)@.peer_states.accepted() == old(state)@.peer_states.accepted()
            ||| final(state)@.peer_states.accepted() == old(state)@.peer_states.accepted().push(
                (peer, PeerState::Disconnected),
            )
        }),
        final(state)@.config == old(state)@.config,
        final(state)@.requests == old(state)@.requests,
        final(state)@.packets == old(state)@.packets,
        final(state)@.peer_messages == old(state)@.peer_messages,
        final(state)@.handshakes == old(state)@.handshakes,
        final(state)@.waiting == old(state)@.waiting,
        final(state)@.id == old(state)@.id,
{
}

/// A packet of a peer goes to the queue of the channel that it came over, whatever the packet is,
/// with the peer that it is from, and to no other queue.
pub proof fn packet_goes_to_the_queue_of_its_channel(
    state: &mut MessageLoop,
    peer: PeerId,
    channel: ChannelNumber,
    packet: Packet,
    action: LoopAction,
)
    requires
        channel.0 < old(state)@.packets.len(),
        call_ensures(
            MessageLoop::step,
            (state, LoopEvent::FromPeer(Some((peer, PeerMessage::Packet(channel, packet))))),
            action,
        ),
    ensures
        action is Continue,
        final(state)@.packets.len() == old(state)@.packets.len(),
        forall|other: int|
            0 <= other < old(state)@.packets.len() && other != channel.0
                ==> #[trigger] final(state)@.packets[other] == old(state)@.packets[other],
        ({
            let before = old(state)@.packets[channel.0 as int];
            let after = final(state)@.packets[channel.0 as int];
            &&& after.channel() == before.channel()
            &&& after.handed_out() == before.handed_out()
            &&& after.offered() == before.offered().push((peer, packet))
            &&& {
                ||| after.accepted() == before.accepted()
                ||| after.accepted() == before.accepted().push((peer, packet))
            }
        }),
        final(state)@.config == old(state)@.config,
        final(state)@.requests == old(state)@.requests,
        final(state)@.peer_states == old(state)@.peer_states,
        final(state)@.peer_messages == old(state)@.peer_messages,
        final(state)@.handshakes == old(state)@.handshakes,
        final(state)@.waiting == old(state)@.waiting,
        final(state)@.id == old(state)@.id,
{
}

/// What follows from a request to be kept alive: the end if nobody took it, and otherwise the timer
/// again, for as long as is configured.
pub proof fn what_follows_a_keep_alive(
    interval: Option<Duration>,
    sent: bool,
    action: LoopAction,
)
    requires
        call_ensures(MessageLoop::after_keep_alive, (interval, sent), action),
    ensures
        !sent ==> action is Exit,
        sent && interval is None ==> action is NoInterval,
        sent && interval is Some ==> action == LoopAction::RestartTimer(interval->0),
{
}

/// What follows from an identity that was handed on: the end if nobody took it.
pub proof fn what_follows_an_identity(took: bool, action: LoopAction)
    requires
        call_ensures(MessageLoop::after_id, (took,), action),
    ensures
        took ==> action is Continue,
        !took ==> action is Exit,
{
}

/// What follows from a signal that was passed on: it is ignored if the handshake was finished.
pub proof fn what_follows_a_signal(peer: PeerId, took: bool, action: LoopAction)
    requires
        call_ensures(MessageLoop::after_signal, (peer, took), action),
    ensures
        took ==> action is Continue,
        !took ==> action == LoopAction::SignalIgnored(peer),
{
}

} // verus!
