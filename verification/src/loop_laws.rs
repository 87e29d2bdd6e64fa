//! What holds of a socket over everything that happens to it.
use crate::conversation::conversation;
use crate::message_loop::{loop_step, Handshake, LoopAction, LoopEvent, LoopView};
use crate::peer::PeerMessage;
use crate::protocol::{
    ChannelNumber, Packet, PeerEvent, PeerId, PeerRequest, PeerSignal, PeerState,
};
use vstd::prelude::*;

verus! {

/// The loop went through `states`, doing `actions` about `events`.
pub open spec fn loop_run(
    states: Seq<LoopView>,
    events: Seq<LoopEvent>,
    actions: Seq<LoopAction>,
) -> bool {
    &&& states.len() == events.len() + 1
    &&& actions.len() == events.len()
    &&& forall|i: int|
        #![trigger events[i]]
        0 <= i < events.len() ==> {
            &&& states[i].expects(events[i])
            &&& loop_step(states[i], events[i], states[i + 1], actions[i])
        }
}

/// The peer that `event` is about.
pub open spec fn about(event: LoopEvent) -> Option<PeerId> {
    match event {
        LoopEvent::Signaling(Some(PeerEvent::NewPeer(peer))) => Some(peer),
        LoopEvent::Signaling(Some(PeerEvent::PeerLeft(peer))) => Some(peer),
        LoopEvent::Signaling(Some(PeerEvent::Signal { sender, .. })) => Some(sender),
        LoopEvent::FromPeer(Some((peer, _))) => Some(peer),
        _ => None,
    }
}

/// The coming and going of peers among `events`, in order.
pub open spec fn states_among(events: Seq<LoopEvent>) -> Seq<(PeerId, PeerState)>
    decreases events.len(),
{
    if events.len() == 0 {
        Seq::empty()
    } else {
        let earlier = states_among(events.drop_last());
        match events.last() {
            LoopEvent::FromPeer(Some((peer, PeerMessage::Join))) => earlier.push(
                (peer, PeerState::Connected),
            ),
            LoopEvent::FromPeer(Some((peer, PeerMessage::Close(_)))) => earlier.push(
                (peer, PeerState::Disconnected),
            ),
            _ => earlier,
        }
    }
}

/// The packets that came over `channel` among `events`, in order, with the peers they are from.
pub open spec fn packets_on(channel: ChannelNumber, events: Seq<LoopEvent>) -> Seq<(PeerId, Packet)>
    decreases events.len(),
{
    if events.len() == 0 {
        Seq::empty()
    } else {
        let earlier = packets_on(channel, events.drop_last());
        match events.last() {
            LoopEvent::FromPeer(Some((peer, PeerMessage::Packet(number, packet)))) => {
                if number == channel {
                    earlier.push((peer, packet))
                } else {
                    earlier
                }
            },
            _ => earlier,
        }
    }
}

/// The signals of `peer` among `events`, in order.
pub open spec fn signals_of(peer: PeerId, events: Seq<LoopEvent>) -> Seq<PeerSignal>
    decreases events.len(),
{
    if events.len() == 0 {
        Seq::empty()
    } else {
        let earlier = signals_of(peer, events.drop_last());
        match events.last() {
            LoopEvent::Signaling(Some(PeerEvent::Signal { sender, data })) => if sender == peer {
                earlier.push(data)
            } else {
                earlier
            },
            _ => earlier,
        }
    }
}

/// One request to be kept alive for each time that the timer ran out.
pub open spec fn keep_alives(events: Seq<LoopEvent>) -> Seq<PeerRequest>
    decreases events.len(),
{
    if events.len() == 0 {
        Seq::empty()
    } else {
        let earlier = keep_alives(events.drop_last());
        if events.last() is Timeout {
            earlier.push(PeerRequest::KeepAlive)
        } else {
            earlier
        }
    }
}

/// The handshake that `action` starts.
pub open spec fn started(action: LoopAction) -> Option<Handshake> {
    match action {
        LoopAction::Offer(handshake) => Some(handshake),
        LoopAction::Accept(handshake) => Some(handshake),
        _ => None,
    }
}

/// Of all that `actions` do, only the first starts a handshake with `peer`.
pub open spec fn one_handshake(peer: PeerId, actions: Seq<LoopAction>) -> bool {
    forall|i: int|
        #![trigger actions[i]]
        1 <= i < actions.len() && started(actions[i]) is Some ==> started(
            actions[i],
        )->0.signal_peer.id != peer
}

/// How many handshakes `actions` start.
pub open spec fn handshakes_among(actions: Seq<LoopAction>) -> nat
    decreases actions.len(),
{
    if actions.len() == 0 {
        0
    } else {
        handshakes_among(actions.drop_last()) + if started(actions.last()) is Some {
            1nat
        } else {
            0nat
        }
    }
}

/// The messages of `peer` among `events`, in order.
pub open spec fn messages_of(peer: PeerId, events: Seq<LoopEvent>) -> Seq<PeerMessage>
    decreases events.len(),
{
    if events.len() == 0 {
        Seq::empty()
    } else {
        let earlier = messages_of(peer, events.drop_last());
        match events.last() {
            LoopEvent::FromPeer(Some((from, message))) => if from == peer {
                earlier.push(message)
            } else {
                earlier
            },
            _ => earlier,
        }
    }
}

/// The packets that came over `channel` among `messages`, in order.
pub open spec fn packets_in(channel: ChannelNumber, messages: Seq<PeerMessage>) -> Seq<Packet>
    decreases messages.len(),
{
    if messages.len() == 0 {
        Seq::empty()
    } else {
        let earlier = packets_in(channel, messages.drop_last());
        match messages.last() {
            PeerMessage::Packet(number, packet) => if number == channel {
                earlier.push(packet)
            } else {
                earlier
            },
            _ => earlier,
        }
    }
}

/// The packets of `peer` in a queue, in order.
pub open spec fn packets_from(peer: PeerId, queue: Seq<(PeerId, Packet)>) -> Seq<Packet>
    decreases queue.len(),
{
    if queue.len() == 0 {
        Seq::empty()
    } else {
        let earlier = packets_from(peer, queue.drop_last());
        if queue.last().0 == peer {
            earlier.push(queue.last().1)
        } else {
            earlier
        }
    }
}

/// What was reported of `peer`, in order.
pub open spec fn states_of(peer: PeerId, reports: Seq<(PeerId, PeerState)>) -> Seq<PeerState>
    decreases reports.len(),
{
    if reports.len() == 0 {
        Seq::empty()
    } else {
        let earlier = states_of(peer, reports.drop_last());
        if reports.last().0 == peer {
            earlier.push(reports.last().1)
        } else {
            earlier
        }
    }
}

/// Throughout `events`, `peer` neither joins nor leaves the room.
pub open spec fn stays(peer: PeerId, events: Seq<LoopEvent>) -> bool {
    forall|i: int|
        #![trigger events[i]]
        0 <= i < events.len() ==> {
            &&& events[i] != LoopEvent::Signaling(Some(PeerEvent::NewPeer(peer)))
            &&& events[i] != LoopEvent::Signaling(Some(PeerEvent::PeerLeft(peer)))
        }
}

/// A run without its last event.
proof fn run_before_last(states: Seq<LoopView>, events: Seq<LoopEvent>, actions: Seq<LoopAction>)
    requires
        loop_run(states, events, actions),
        events.len() > 0,
    ensures
        loop_run(states.drop_last(), events.drop_last(), actions.drop_last()),
        states.drop_last().last() == states[events.len() - 1],
        states.drop_last()[0] == states[0],
        loop_step(states[events.len() - 1], events.last(), states.last(), actions.last()),
{
    let earlier = states.drop_last();
    assert forall|i: int| #![trigger events.drop_last()[i]] 0 <= i < events.len() - 1 implies {
        &&& earlier[i].expects(events.drop_last()[i])
        &&& loop_step(earlier[i], events.drop_last()[i], earlier[i + 1], actions.drop_last()[i])
    } by {
        assert(events.drop_last()[i] == events[i]);
    }
    assert(events[events.len() - 1] == events.last());
}

/// The socket hears of each peer that joined and of each that closed, once and in order, and of no
/// other.
pub proof fn peer_states_are_reported_in_order(
    states: Seq<LoopView>,
    events: Seq<LoopEvent>,
    actions: Seq<LoopAction>,
)
    requires
        loop_run(states, events, actions),
    ensures
        states.last().peer_states.channel() == states[0].peer_states.channel(),
        states.last().peer_states.handed_out() == states[0].peer_states.handed_out(),
        states.last().peer_states.offered() == states[0].peer_states.offered() + states_among(
            events,
        ),
    decreases events.len(),
{
    if events.len() > 0 {
        run_before_last(states, events, actions);
        peer_states_are_reported_in_order(
            states.drop_last(),
            events.drop_last(),
            actions.drop_last(),
        );
    }
}

/// The socket gets, on each channel, the packets that came over it, each once and in order, with
/// the peer that it is from, and no others.
pub proof fn packets_arrive_in_order(
    states: Seq<LoopView>,
    events: Seq<LoopEvent>,
    actions: Seq<LoopAction>,
    channel: ChannelNumber,
)
    requires
        loop_run(states, events, actions),
        channel.0 < states[0].packets.len(),
    ensures
        states.last().packets.len() == states[0].packets.len(),
        states.last().packets[channel.0 as int].channel()
            == states[0].packets[channel.0 as int].channel(),
        states.last().packets[channel.0 as int].handed_out()
            == states[0].packets[channel.0 as int].handed_out(),
        states.last().packets[channel.0 as int].offered()
            == states[0].packets[channel.0 as int].offered() + packets_on(channel, events),
    decreases events.len(),
{
    if events.len() > 0 {
        run_before_last(states, events, actions);
        packets_arrive_in_order(
            states.drop_last(),
            events.drop_last(),
            actions.drop_last(),
            channel,
        );
    }
}

/// While a peer stays in the room, its signals go to the one handshake with it, each once and in
/// order.
pub proof fn signals_reach_one_handshake(
    states: Seq<LoopView>,
    events: Seq<LoopEvent>,
    actions: Seq<LoopAction>,
    peer: PeerId,
)
    requires
        loop_run(states, events, actions),
        states[0].handshakes.contains_key(peer.0),
        stays(peer, events),
    ensures
        states.last().handshakes.contains_key(peer.0),
        states.last().handshakes[peer.0].channel() == states[0].handshakes[peer.0].channel(),
        states.last().handshakes[peer.0].handed_out() == states[0].handshakes[peer.0].handed_out(),
        states.last().handshakes[peer.0].offered() == states[0].handshakes[peer.0].offered()
            + signals_of(peer, events),
    decreases events.len(),
{
    if events.len() > 0 {
        run_before_last(states, events, actions);
        assert forall|i: int| #![trigger events.drop_last()[i]] 0 <= i < events.len() - 1 implies {
            &&& events.drop_last()[i] != LoopEvent::Signaling(Some(PeerEvent::NewPeer(peer)))
            &&& events.drop_last()[i] != LoopEvent::Signaling(Some(PeerEvent::PeerLeft(peer)))
        } by {
            assert(events.drop_last()[i] == events[i]);
        }
        signals_reach_one_handshake(
            states.drop_last(),
            events.drop_last(),
            actions.drop_last(),
            peer,
        );
        assert(events[events.len() - 1] == events.last());
    }
}

/// The signaling server is asked to keep the connection alive each time that the timer runs out,
/// and asked for nothing else but by the handshakes, each of which has a way of its own to do so.
pub proof fn timer_keeps_connection_alive(
    states: Seq<LoopView>,
    events: Seq<LoopEvent>,
    actions: Seq<LoopAction>,
)
    requires
        loop_run(states, events, actions),
    ensures
        states.last().requests.channel() == states[0].requests.channel(),
        states.last().requests.handed_out() == states[0].requests.handed_out() + handshakes_among(
            actions,
        ),
        states.last().requests.offered() == states[0].requests.offered() + keep_alives(events),
    decreases events.len(),
{
    if events.len() > 0 {
        run_before_last(states, events, actions);
        timer_keeps_connection_alive(states.drop_last(), events.drop_last(), actions.drop_last());
    }
}

/// Once assigned, the identity of this node stays as it is.
proof fn identity_stays(states: Seq<LoopView>, events: Seq<LoopEvent>, actions: Seq<LoopAction>)
    requires
        loop_run(states, events, actions),
        !states[0].id.pending(),
    ensures
        states.last().id == states[0].id,
    decreases events.len(),
{
    if events.len() > 0 {
        run_before_last(states, events, actions);
        identity_stays(states.drop_last(), events.drop_last(), actions.drop_last());
        assert(states[events.len() - 1].expects(events[events.len() - 1]));
    }
}

/// The identity of this node is assigned once: after that it does not change, and is not assigned
/// again.
pub proof fn identity_is_assigned_once(
    states: Seq<LoopView>,
    events: Seq<LoopEvent>,
    actions: Seq<LoopAction>,
    id: PeerId,
    assigned: int,
    later: int,
)
    requires
        loop_run(states, events, actions),
        0 <= assigned < later <= events.len(),
        events[assigned] == LoopEvent::Signaling(Some(PeerEvent::IdAssigned(id))),
    ensures
        states[later].id.offered() == Some(id),
        later < events.len() ==> !(events[later] matches LoopEvent::Signaling(
            Some(PeerEvent::IdAssigned(_)),
        )),
{
    let from = assigned + 1;
    let part = states.subrange(from, later + 1);
    let events_part = events.subrange(from, later);
    let actions_part = actions.subrange(from, later);
    assert forall|i: int| #![trigger events_part[i]] 0 <= i < events_part.len() implies {
        &&& part[i].expects(events_part[i])
        &&& loop_step(part[i], events_part[i], part[i + 1], actions_part[i])
    } by {
        assert(events_part[i] == events[from + i]);
    }
    assert(loop_step(states[assigned], events[assigned], states[from], actions[assigned]));
    identity_stays(part, events_part, actions_part);
    assert(part.last() == states[later]);
    if later < events.len() {
        assert(states[later].expects(events[later]));
    }
}

/// What happens with one peer leaves the handshakes with all others as they are.
pub proof fn peers_do_not_interfere(
    before: LoopView,
    event: LoopEvent,
    after: LoopView,
    action: LoopAction,
    other: PeerId,
)
    requires
        loop_step(before, event, after, action),
        about(event) != Some(other),
    ensures
        after.handshakes.contains_key(other.0) == before.handshakes.contains_key(other.0),
        before.handshakes.contains_key(other.0) ==> after.handshakes[other.0]
            == before.handshakes[other.0],
        after.waiting.contains_key(other.0) == before.waiting.contains_key(other.0),
        before.waiting.contains_key(other.0) ==> after.waiting[other.0] == before.waiting[other.0],
{
}

/// A peer that left the room and signals again is answered in a new handshake, which gets that
/// signal first.
pub proof fn peer_that_left_starts_anew(
    first: LoopView,
    peer: PeerId,
    between: LoopView,
    left: LoopAction,
    data: PeerSignal,
    last: LoopView,
    action: LoopAction,
)
    requires
        loop_step(first, LoopEvent::Signaling(Some(PeerEvent::PeerLeft(peer))), between, left),
        loop_step(
            between,
            LoopEvent::Signaling(Some(PeerEvent::Signal { sender: peer, data })),
            last,
            action,
        ),
    ensures
        action is Accept,
        action->Accept_0.signal_peer.id == peer,
        last.handshakes[peer.0].channel() == action->Accept_0.signal_rx.channel(),
        last.handshakes[peer.0].offered() == seq![data],
{
}

/// A peer can join only after a handshake with it was started, and once for each: when it joined,
/// no handshake with it waits any more.
pub proof fn peer_joins_once_for_a_handshake(
    before: LoopView,
    peer: PeerId,
    after: LoopView,
    action: LoopAction,
)
    requires
        before.expects(LoopEvent::FromPeer(Some((peer, PeerMessage::Join)))),
        loop_step(before, LoopEvent::FromPeer(Some((peer, PeerMessage::Join))), after, action),
    ensures
        before.waiting.contains_key(peer.0),
        action is Ready,
        action->Ready_0.channel() == before.waiting[peer.0].channel(),
        action->Ready_0.offered() == Some(()),
        !after.expects(LoopEvent::FromPeer(Some((peer, PeerMessage::Join)))),
{
}

/// How the socket is set up stays as it is.
proof fn setup_stays(states: Seq<LoopView>, events: Seq<LoopEvent>, actions: Seq<LoopAction>)
    requires
        loop_run(states, events, actions),
    ensures
        forall|i: int|
            #![trigger states[i]]
            0 <= i < states.len() ==> {
                &&& states[i].config == states[0].config
                &&& states[i].packets.len() == states[0].packets.len()
            },
    decreases events.len(),
{
    if events.len() > 0 {
        run_before_last(states, events, actions);
        let earlier = states.drop_last();
        setup_stays(earlier, events.drop_last(), actions.drop_last());
        assert forall|i: int| #![trigger states[i]] 0 <= i < states.len() implies {
            &&& states[i].config == states[0].config
            &&& states[i].packets.len() == states[0].packets.len()
        } by {
            assert(earlier[events.len() - 1] == states[events.len() - 1]);
            if i < earlier.len() {
                assert(earlier[i] == states[i]);
            }
        }
    }
}

/// Where the socket takes the packets of as many channels as it is set up with, a packet that comes
/// over any of the channels of a handshake is expected whenever it comes.
pub proof fn packets_of_handshakes_are_expected(
    states: Seq<LoopView>,
    events: Seq<LoopEvent>,
    actions: Seq<LoopAction>,
    start: int,
    channel: int,
    later: int,
    peer: PeerId,
    packet: Packet,
)
    requires
        loop_run(states, events, actions),
        states[0].config.channels@.len() <= states[0].packets.len(),
        0 <= start < events.len(),
        started(actions[start]) is Some,
        0 <= channel < started(actions[start])->0.builders@.len(),
        0 <= later < states.len(),
    ensures
        states[later].expects(
            LoopEvent::FromPeer(
                Some(
                    (
                        peer,
                        PeerMessage::Packet(
                            started(
                                actions[start],
                            )->0.builders@[channel].event_handlers.channel(),
                            packet,
                        ),
                    ),
                ),
            ),
        ),
{
    setup_stays(states, events, actions);
    assert(loop_step(states[start], events[start], states[start + 1], actions[start]));
    assert(states[start].config == states[0].config);
    assert(states[later].packets.len() == states[0].packets.len());
    let builder = started(actions[start])->0.builders@[channel];
    assert(builder.event_handlers.channel().0 == channel);
}

/// Once a handshake with a peer was started, the peer is expected to join, until it does. That it
/// left the room in the meantime makes no difference.
pub proof fn join_is_expected_after_a_handshake(
    states: Seq<LoopView>,
    events: Seq<LoopEvent>,
    actions: Seq<LoopAction>,
)
    requires
        loop_run(states, events, actions),
        events.len() > 0,
        started(actions[0]) is Some,
        forall|i: int|
            #![trigger events[i]]
            1 <= i < events.len() ==> events[i] != LoopEvent::FromPeer(
                Some((started(actions[0])->0.signal_peer.id, PeerMessage::Join)),
            ),
    ensures
        states.last().expects(
            LoopEvent::FromPeer(
                Some((started(actions[0])->0.signal_peer.id, PeerMessage::Join)),
            ),
        ),
    decreases events.len(),
{
    run_before_last(states, events, actions);
    if events.len() > 1 {
        let earlier = events.drop_last();
        assert(actions.drop_last()[0] == actions[0]);
        assert forall|i: int| #![trigger earlier[i]] 1 <= i < earlier.len() implies earlier[i]
            != LoopEvent::FromPeer(
            Some((started(actions[0])->0.signal_peer.id, PeerMessage::Join)),
        ) by {
            assert(earlier[i] == events[i]);
        }
        join_is_expected_after_a_handshake(states.drop_last(), earlier, actions.drop_last());
        assert(events[events.len() - 1] == events.last());
    }
}

/// Any beginning of a conversation is one.
proof fn beginning_of_a_conversation(messages: Seq<PeerMessage>)
    requires
        conversation(messages),
        messages.len() > 0,
    ensures
        conversation(messages.drop_last()),
        forall|i: int|
            0 <= i < messages.len() - 1 ==> !(#[trigger] messages.drop_last()[i] is Close),
{
    let earlier = messages.drop_last();
    assert forall|i: int| #![trigger earlier[i]] 0 <= i < earlier.len() implies earlier[i]
        == messages[i] by {}
}

/// What the socket hears of a peer that has one conversation is that it connected, if it joined, and
/// then that it disconnected, if it closed, each once; and nothing before or after.
pub proof fn peer_connects_once_and_disconnects_once(
    states: Seq<LoopView>,
    events: Seq<LoopEvent>,
    actions: Seq<LoopAction>,
    peer: PeerId,
)
    requires
        loop_run(states, events, actions),
        conversation(messages_of(peer, events)),
    ensures
        states.last().peer_states.offered() == states[0].peer_states.offered() + states_among(
            events,
        ),
        states_of(peer, states_among(events)) == if messages_of(peer, events).len() == 0 {
            Seq::empty()
        } else if messages_of(peer, events).last() is Close {
            seq![PeerState::Connected, PeerState::Disconnected]
        } else {
            seq![PeerState::Connected]
        },
    decreases events.len(),
{
    peer_states_are_reported_in_order(states, events, actions);
    if events.len() > 0 {
        run_before_last(states, events, actions);
        let earlier = events.drop_last();
        let said = messages_of(peer, earlier);
        let all = messages_of(peer, events);
        if all.len() > said.len() {
            assert(all.drop_last() =~= said);
            beginning_of_a_conversation(all);
            assert(all[all.len() - 1] == all.last());
            if said.len() > 0 {
                assert(all.drop_last()[said.len() - 1] == said.last());
            }
        }
        peer_connects_once_and_disconnects_once(
            states.drop_last(),
            earlier,
            actions.drop_last(),
            peer,
        );
        let reports = states_among(events);
        if reports.len() > states_among(earlier).len() {
            assert(reports.drop_last() =~= states_among(earlier));
        }
    }
}

/// The handshake that was started with a peer goes on waiting for it.
proof fn handshake_waits(
    states: Seq<LoopView>,
    events: Seq<LoopEvent>,
    actions: Seq<LoopAction>,
    peer: PeerId,
)
    requires
        loop_run(states, events, actions),
        states[0].waiting.contains_key(peer.0),
        forall|i: int|
            #![trigger events[i]]
            0 <= i < events.len() ==> {
                &&& events[i] != LoopEvent::FromPeer(Some((peer, PeerMessage::Join)))
                &&& started(actions[i]) matches Some(handshake) ==> handshake.signal_peer.id != peer
            },
    ensures
        states.last().waiting.contains_key(peer.0),
        states.last().waiting[peer.0] == states[0].waiting[peer.0],
    decreases events.len(),
{
    if events.len() > 0 {
        run_before_last(states, events, actions);
        let earlier = events.drop_last();
        let earlier_actions = actions.drop_last();
        assert forall|i: int| #![trigger earlier[i]] 0 <= i < earlier.len() implies {
            &&& earlier[i] != LoopEvent::FromPeer(Some((peer, PeerMessage::Join)))
            &&& started(earlier_actions[i]) matches Some(handshake) ==> handshake.signal_peer.id
                != peer
        } by {
            assert(earlier[i] == events[i]);
        }
        handshake_waits(states.drop_last(), earlier, earlier_actions, peer);
        assert(events[events.len() - 1] == events.last());
    }
}

/// When the peer of a handshake joins, the handshake is told that its data channels are ready, and
/// the socket that the peer connected. That others join, leave or signal in the meantime makes no
/// difference.
pub proof fn join_keeps_the_promise_of_the_handshake(
    states: Seq<LoopView>,
    events: Seq<LoopEvent>,
    actions: Seq<LoopAction>,
    handshake: Handshake,
)
    requires
        loop_run(states, events, actions),
        events.len() > 1,
        started(actions[0]) == Some(handshake),
        events.last() == LoopEvent::FromPeer(
            Some((handshake.signal_peer.id, PeerMessage::Join)),
        ),
        forall|i: int|
            #![trigger events[i]]
            1 <= i < events.len() - 1 ==> {
                &&& events[i] != LoopEvent::FromPeer(
                    Some((handshake.signal_peer.id, PeerMessage::Join)),
                )
                &&& started(actions[i]) matches Some(other) ==> other.signal_peer.id
                    != handshake.signal_peer.id
            },
    ensures
        actions.last() is Ready,
        actions.last()->Ready_0.channel() == handshake.data_channels_ready.channel(),
        actions.last()->Ready_0.offered() == Some(()),
        states.last().peer_states.offered() == states[events.len() - 1].peer_states.offered().push(
            (handshake.signal_peer.id, PeerState::Connected),
        ),
{
    let peer = handshake.signal_peer.id;
    let n = events.len() - 1;
    assert(loop_step(states[0], events[0], states[1], actions[0]));
    assert(states[1].waiting[peer.0].is_pending_end_of(handshake.data_channels_ready.channel()));
    let part = states.subrange(1, n + 1);
    let events_part = events.subrange(1, n);
    let actions_part = actions.subrange(1, n);
    assert forall|i: int| #![trigger events_part[i]] 0 <= i < events_part.len() implies {
        &&& part[i].expects(events_part[i])
        &&& loop_step(part[i], events_part[i], part[i + 1], actions_part[i])
        &&& events_part[i] != LoopEvent::FromPeer(Some((peer, PeerMessage::Join)))
        &&& started(actions_part[i]) matches Some(other) ==> other.signal_peer.id != peer
    } by {
        assert(events_part[i] == events[i + 1]);
    }
    handshake_waits(part, events_part, actions_part, peer);
    assert(part.last() == states[n]);
    assert(loop_step(states[n], events[n], states[n + 1], actions[n]));
}

/// The packets of a peer in the queue of a channel are those that it sent over that channel.
pub proof fn queues_keep_packets_apart(
    events: Seq<LoopEvent>,
    peer: PeerId,
    channel: ChannelNumber,
)
    ensures
        packets_from(peer, packets_on(channel, events)) == packets_in(
            channel,
            messages_of(peer, events),
        ),
    decreases events.len(),
{
    if events.len() > 0 {
        let earlier = events.drop_last();
        queues_keep_packets_apart(earlier, peer, channel);
        match events.last() {
            LoopEvent::FromPeer(Some((from, message))) => {
                if from == peer {
                    assert(messages_of(peer, events).drop_last() =~= messages_of(peer, earlier));
                }
                match message {
                    PeerMessage::Packet(number, packet) => {
                        if number == channel {
                            assert(packets_on(channel, events).drop_last() =~= packets_on(
                                channel,
                                earlier,
                            ));
                        }
                    },
                    _ => {},
                }
            },
            _ => {},
        }
    }
}

/// The first message of a peer comes at some time, and none of it before.
pub proof fn first_message_comes(events: Seq<LoopEvent>, peer: PeerId) -> (at: int)
    requires
        messages_of(peer, events).len() > 0,
    ensures
        0 <= at < events.len(),
        events[at] == LoopEvent::FromPeer(Some((peer, messages_of(peer, events).first()))),
        forall|i: int|
            #![trigger events[i]]
            0 <= i < at ==> !(events[i] matches LoopEvent::FromPeer(Some((from, _))) && from == peer),
    decreases events.len(),
{
    let earlier = events.drop_last();
    if messages_of(peer, earlier).len() > 0 {
        let at = first_message_comes(earlier, peer);
        assert(earlier[at] == events[at]);
        assert forall|i: int| #![trigger events[i]] 0 <= i < at implies !(
        events[i] matches LoopEvent::FromPeer(Some((from, _))) && from == peer) by {
            assert(earlier[i] == events[i]);
        }
        at
    } else {
        let at = events.len() - 1;
        assert forall|i: int| #![trigger events[i]] 0 <= i < at implies !(
        events[i] matches LoopEvent::FromPeer(Some((from, _))) && from == peer) by {
            silent_peer_has_no_event(earlier, peer, i);
            assert(earlier[i] == events[i]);
        }
        at
    }
}

/// A peer without messages has no event.
proof fn silent_peer_has_no_event(events: Seq<LoopEvent>, peer: PeerId, at: int)
    requires
        messages_of(peer, events).len() == 0,
        0 <= at < events.len(),
    ensures
        !(events[at] matches LoopEvent::FromPeer(Some((from, _))) && from == peer),
    decreases events.len(),
{
    if at < events.len() - 1 {
        silent_peer_has_no_event(events.drop_last(), peer, at);
        assert(events.drop_last()[at] == events[at]);
    }
}

/// The handshake that was started with a peer first goes on waiting for as long as the peer is
/// silent.
pub proof fn silent_peer_is_waited_for(
    states: Seq<LoopView>,
    events: Seq<LoopEvent>,
    actions: Seq<LoopAction>,
    handshake: Handshake,
)
    requires
        loop_run(states, events, actions),
        events.len() > 0,
        started(actions[0]) == Some(handshake),
        messages_of(handshake.signal_peer.id, events).len() == 0,
        one_handshake(handshake.signal_peer.id, actions),
    ensures
        states.last().waiting.contains_key(handshake.signal_peer.id.0),
        states.last().waiting[handshake.signal_peer.id.0].is_pending_end_of(
            handshake.data_channels_ready.channel(),
        ),
{
    let peer = handshake.signal_peer.id;
    let n = events.len() as int;
    assert(loop_step(states[0], events[0], states[1], actions[0]));
    let part = states.subrange(1, n + 1);
    let events_part = events.subrange(1, n);
    let actions_part = actions.subrange(1, n);
    assert forall|i: int| #![trigger events_part[i]] 0 <= i < events_part.len() implies {
        &&& part[i].expects(events_part[i])
        &&& loop_step(part[i], events_part[i], part[i + 1], actions_part[i])
        &&& events_part[i] != LoopEvent::FromPeer(Some((peer, PeerMessage::Join)))
        &&& started(actions_part[i]) matches Some(other) ==> other.signal_peer.id != peer
    } by {
        assert(events_part[i] == events[i + 1]);
        silent_peer_has_no_event(events, peer, i + 1);
    }
    handshake_waits(part, events_part, actions_part, peer);
    assert(part.last() == states[n]);
}

/// A beginning of a run is a run.
pub proof fn beginning_of_a_run(
    states: Seq<LoopView>,
    events: Seq<LoopEvent>,
    actions: Seq<LoopAction>,
    to: int,
)
    requires
        loop_run(states, events, actions),
        0 <= to <= events.len(),
    ensures
        loop_run(states.take(to + 1), events.take(to), actions.take(to)),
{
    let part = events.take(to);
    assert forall|i: int| #![trigger part[i]] 0 <= i < to implies {
        &&& states.take(to + 1)[i].expects(part[i])
        &&& loop_step(
            states.take(to + 1)[i],
            part[i],
            states.take(to + 1)[i + 1],
            actions.take(to)[i],
        )
    } by {
        assert(part[i] == events[i]);
    }
}

/// A socket goes on for as long as it is in use: the loop ends only when nobody takes a request to
/// be kept alive or the identity of this node, when the socket is closed, or when nothing more can
/// happen. No peer can end it, whatever it says, and whether it comes, leaves or signals.
pub proof fn socket_goes_on_while_in_use(
    states: Seq<LoopView>,
    events: Seq<LoopEvent>,
    actions: Seq<LoopAction>,
    at: int,
)
    requires
        loop_run(states, events, actions),
        0 <= at < events.len(),
    ensures
        actions[at] is Exit <==> match events[at] {
            LoopEvent::Timeout => {
                states[at + 1].requests.accepted().len() == states[at].requests.accepted().len()
            },
            LoopEvent::Signaling(Some(PeerEvent::IdAssigned(_))) => {
                !states[at + 1].id.accepted()
            },
            LoopEvent::Signaling(_) => false,
            LoopEvent::FromPeer(Some(_)) => false,
            LoopEvent::FromPeer(None) => true,
            LoopEvent::SocketClosed => true,
            LoopEvent::Complete => true,
        },
{
    assert(loop_step(states[at], events[at], states[at + 1], actions[at]));
}

} // verus!
