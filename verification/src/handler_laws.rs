//! What the handlers of the data channels to one peer report together.
//!
//! The handlers hold the lock in turn, and each finds there what the last one left. So what happens
//! on all of the channels, in the order in which their handlers held the lock, is one series of
//! events on the peer that they share.
use crate::channel::Outbox;
use crate::conversation::{
    all_delivered, conversation, early_close_is_silent, first_close_ends_the_conversation,
    join_needs_every_channel, messages_form_a_conversation, no_packet_is_lost, none_closed,
    opens_among, packets_among, peer_run, reported, run_keeps_the_peer,
    whatever_is_reached_is_a_conversation,
};
use crate::error::ChannelEventError;
use crate::handlers::{builders_for_peer, AsyncDataChannelReceiver, ChannelBuilder};
use crate::loop_laws::{
    beginning_of_a_run, first_message_comes, join_keeps_the_promise_of_the_handshake, loop_run,
    messages_of, one_handshake, packets_arrive_in_order, packets_from, packets_in, packets_on,
    peer_connects_once_and_disconnects_once, queues_keep_packets_apart, silent_peer_is_waited_for,
    started, states_among, states_of,
};
use crate::message_loop::{loop_step, Handshake, LoopAction, LoopEvent, LoopView};
use crate::peer::{
    as_messages, due, from_peer, peer_step, ChannelEvent, PeerMessage, PeerPhase,
    UnboundedPeerReceiver,
};
use crate::protocol::{ChannelConfig, ChannelNumber, Packet, PeerId, PeerState};
use vstd::prelude::*;

verus! {

/// A visit of a handler to the peer.
pub ghost struct HandlerVisit {
    /// Whose it is.
    pub handler: AsyncDataChannelReceiver,
    /// The peer as it was found.
    pub found: UnboundedPeerReceiver,
    /// What happened on the channel.
    pub event: ChannelEvent,
    /// The peer as it was left.
    pub left: UnboundedPeerReceiver,
    /// What came of it.
    pub outcome: Result<(), ChannelEventError>,
}

/// The handlers of the channels in `builders` made `visits`, in this order: the first found the peer
/// as it was set up, and every other one as the last one left it. Each reports packets under the
/// number of its own channel.
pub open spec fn visits_in_turn(
    builders: Seq<ChannelBuilder<AsyncDataChannelReceiver>>,
    visits: Seq<HandlerVisit>,
) -> bool {
    forall|i: int|
        #![trigger visits[i]]
        0 <= i < visits.len() ==> {
            &&& visits[i].handler.shared() == builders[0].event_handlers.shared()
            &&& visits[i].handler.handled(
                visits[i].found,
                visits[i].event,
                visits[i].left,
                visits[i].outcome,
            )
            &&& visits[i].event matches ChannelEvent::Packet(number, _) ==> number
                == visits[i].handler.channel()
            &&& visits[i].found == peer_before(builders, visits, i)
        }
}

/// The peer before the visit `at`.
pub open spec fn peer_before(
    builders: Seq<ChannelBuilder<AsyncDataChannelReceiver>>,
    visits: Seq<HandlerVisit>,
    at: int,
) -> UnboundedPeerReceiver {
    if at == 0 {
        builders[0].event_handlers.shared().made_with()
    } else {
        visits[at - 1].left
    }
}

/// The peer after all of `visits`.
pub open spec fn peer_after(
    builders: Seq<ChannelBuilder<AsyncDataChannelReceiver>>,
    visits: Seq<HandlerVisit>,
) -> UnboundedPeerReceiver {
    peer_before(builders, visits, visits.len() as int)
}

/// What happened on the channels, in order.
pub open spec fn events_of(visits: Seq<HandlerVisit>) -> Seq<ChannelEvent> {
    visits.map_values(|visit: HandlerVisit| visit.event)
}

/// What came of each visit, in order.
pub open spec fn outcomes_of(visits: Seq<HandlerVisit>) -> Seq<Result<(), ChannelEventError>> {
    visits.map_values(|visit: HandlerVisit| visit.outcome)
}

/// The packets that the handler of `channel` got, in order.
pub open spec fn got_by(channel: ChannelNumber, visits: Seq<HandlerVisit>) -> Seq<Packet>
    decreases visits.len(),
{
    if visits.len() == 0 {
        Seq::empty()
    } else {
        let earlier = got_by(channel, visits.drop_last());
        match visits.last().event {
            ChannelEvent::Packet(_, packet) => if visits.last().handler.channel() == channel {
                earlier.push(packet)
            } else {
                earlier
            },
            _ => earlier,
        }
    }
}

/// What `visits` report of the peer.
pub open spec fn reports_of(
    builders: Seq<ChannelBuilder<AsyncDataChannelReceiver>>,
    visits: Seq<HandlerVisit>,
) -> Seq<PeerMessage> {
    reported(
        builders[0].event_handlers.shared().made_with(),
        peer_after(builders, visits),
    )
}

/// Visits that are made in turn are one series of events on the peer.
proof fn visits_are_a_run(
    builders: Seq<ChannelBuilder<AsyncDataChannelReceiver>>,
    visits: Seq<HandlerVisit>,
) -> (states: Seq<UnboundedPeerReceiver>)
    requires
        builders[0].event_handlers.shared().made_with().wf(),
        visits_in_turn(builders, visits),
    ensures
        peer_run(states, events_of(visits), outcomes_of(visits)),
        states[0] == builders[0].event_handlers.shared().made_with(),
        states.last() == peer_after(builders, visits),
{
    let states = Seq::new(visits.len() + 1, |i: int| peer_before(builders, visits, i));
    let events = events_of(visits);
    assert forall|i: int| #![trigger states[i]] 0 <= i < states.len() implies states[i].wf() by {
        if i > 0 {
            assert(visits[i - 1].handler.shared().admits(visits[i - 1].left));
        }
    }
    assert forall|i: int| #![trigger events[i]] 0 <= i < events.len() implies peer_step(
        states[i],
        events[i],
        states[i + 1],
        outcomes_of(visits)[i],
    ) by {
        assert(visits[i].found == peer_before(builders, visits, i));
    }
    states
}

/// Whatever happens on the channels to a peer, and whichever handler is told of it, what they report
/// together is one conversation, as coming from that peer: a join first and only then, packets only
/// between the join and the close, and at most one close, after which there is nothing more. There
/// is no report before every channel opened.
pub proof fn handlers_report_one_conversation(
    builders: Seq<ChannelBuilder<AsyncDataChannelReceiver>>,
    remote_id: PeerId,
    config: Seq<ChannelConfig>,
    messages: Outbox<(PeerId, PeerMessage)>,
    visits: Seq<HandlerVisit>,
)
    requires
        config.len() > 0,
        builders_for_peer(builders, remote_id, config, messages),
        visits_in_turn(builders, visits),
    ensures
        peer_after(builders, visits).outbox().channel() == messages.channel(),
        peer_after(builders, visits).outbox().handed_out() == messages.handed_out(),
        peer_after(builders, visits).outbox().offered() == messages.offered() + from_peer(
            remote_id,
            reports_of(builders, visits),
        ),
        conversation(reports_of(builders, visits)),
        reports_of(builders, visits).len() > 0 ==> opens_among(events_of(visits)) >= config.len(),
{
    let states = visits_are_a_run(builders, visits);
    messages_form_a_conversation(states, events_of(visits), outcomes_of(visits), config.len());
    join_needs_every_channel(states, events_of(visits), outcomes_of(visits), config.len());
    run_keeps_the_peer(states, events_of(visits), outcomes_of(visits));
}

/// Until a channel closes, and while somebody is there to report to, the handlers report nothing
/// before as many channels opened as there are, in whatever order, and then the join and the packets
/// that arrived on all of them, in order, each with the number of its channel.
pub proof fn handlers_report_every_packet(
    builders: Seq<ChannelBuilder<AsyncDataChannelReceiver>>,
    remote_id: PeerId,
    config: Seq<ChannelConfig>,
    messages: Outbox<(PeerId, PeerMessage)>,
    visits: Seq<HandlerVisit>,
)
    requires
        config.len() > 0,
        builders_for_peer(builders, remote_id, config, messages),
        visits_in_turn(builders, visits),
        none_closed(events_of(visits)),
        all_delivered(outcomes_of(visits)),
    ensures
        reports_of(builders, visits) == if opens_among(events_of(visits)) < config.len() {
            Seq::empty()
        } else {
            seq![PeerMessage::Join] + as_messages(packets_among(events_of(visits)))
        },
{
    let states = visits_are_a_run(builders, visits);
    no_packet_is_lost(states, events_of(visits), outcomes_of(visits), config.len());
}

/// The first channel to close has the last word, with its error if it has one. If not all channels
/// had opened by then, the peer is never heard of. No later event on any of the channels adds
/// anything.
pub proof fn first_handler_to_close_has_the_last_word(
    builders: Seq<ChannelBuilder<AsyncDataChannelReceiver>>,
    remote_id: PeerId,
    config: Seq<ChannelConfig>,
    messages: Outbox<(PeerId, PeerMessage)>,
    visits: Seq<HandlerVisit>,
    closing: int,
)
    requires
        config.len() > 0,
        builders_for_peer(builders, remote_id, config, messages),
        visits_in_turn(builders, visits),
        all_delivered(outcomes_of(visits)),
        0 <= closing < visits.len(),
        none_closed(events_of(visits).take(closing)),
        visits[closing].event is Close,
    ensures
        reports_of(builders, visits) == if opens_among(events_of(visits).take(closing))
            >= config.len() {
            (seq![PeerMessage::Join] + as_messages(
                packets_among(events_of(visits).take(closing)),
            )).push(PeerMessage::Close(visits[closing].event->Close_0))
        } else {
            Seq::empty()
        },
{
    let states = visits_are_a_run(builders, visits);
    assert(events_of(visits)[closing] == visits[closing].event);
    first_close_ends_the_conversation(
        states,
        events_of(visits),
        outcomes_of(visits),
        config.len(),
        closing,
    );
}

/// Whatever a handler finds or leaves under the lock, what was reported of the peer until then is
/// the beginning of one conversation.
pub proof fn every_handler_finds_a_conversation(
    builders: Seq<ChannelBuilder<AsyncDataChannelReceiver>>,
    remote_id: PeerId,
    config: Seq<ChannelConfig>,
    messages: Outbox<(PeerId, PeerMessage)>,
    at: int,
    peer: UnboundedPeerReceiver,
)
    requires
        builders_for_peer(builders, remote_id, config, messages),
        0 <= at < builders.len(),
        builders[at].event_handlers.shared().admits(peer),
    ensures
        peer.remote_id() == remote_id,
        peer.channels() == config.len(),
        peer.outbox().channel() == messages.channel(),
        peer.outbox().offered() == messages.offered() + from_peer(
            remote_id,
            reported(builders[at].event_handlers.shared().made_with(), peer),
        ),
        conversation(reported(builders[at].event_handlers.shared().made_with(), peer)),
{
    assert(builders[at].event_handlers.shared() == builders[0].event_handlers.shared());
    let first = builders[0].event_handlers.shared().made_with();
    whatever_is_reached_is_a_conversation(first, peer, config.len());
}

/// A packet that arrives on a channel of a connected peer gets to the queue of that channel, and to
/// no other.
pub proof fn packet_reaches_the_queue_of_its_channel(
    builders: Seq<ChannelBuilder<AsyncDataChannelReceiver>>,
    remote_id: PeerId,
    config: Seq<ChannelConfig>,
    messages: Outbox<(PeerId, PeerMessage)>,
    at: int,
    packet: Packet,
    found: UnboundedPeerReceiver,
    left: UnboundedPeerReceiver,
    before: LoopView,
    after: LoopView,
    action: LoopAction,
)
    requires
        builders_for_peer(builders, remote_id, config, messages),
        0 <= at < builders.len(),
        builders[at].event_handlers.handled(
            found,
            ChannelEvent::Packet(builders[at].event_handlers.channel(), packet),
            left,
            Ok(()),
        ),
        found.phase() == PeerPhase::Connected,
        before.expects(LoopEvent::FromPeer(Some(left.outbox().offered().last()))),
        loop_step(
            before,
            LoopEvent::FromPeer(Some(left.outbox().offered().last())),
            after,
            action,
        ),
    ensures
        at < before.packets.len(),
        after.packets.len() == before.packets.len(),
        after.packets[at].offered() == before.packets[at].offered().push((remote_id, packet)),
        forall|other: int|
            #![trigger after.packets[other]]
            0 <= other < before.packets.len() && other != at ==> after.packets[other]
                == before.packets[other],
{
    let number = builders[at].event_handlers.channel();
    assert(number.0 == at);
    every_handler_finds_a_conversation(builders, remote_id, config, messages, at, found);
    let event = ChannelEvent::Packet(number, packet);
    let said = from_peer(remote_id, due(found.phase(), event));
    assert(said =~= seq![(remote_id, PeerMessage::Packet(number, packet))]);
    assert(left.outbox().offered().last() == said.last());
}

/// What the loop got of a peer is a beginning of what the handlers reported, as both ends of the
/// queue between them see it.
pub open spec fn got_in_order(
    peer: PeerId,
    events: Seq<LoopEvent>,
    builders: Seq<ChannelBuilder<AsyncDataChannelReceiver>>,
    visits: Seq<HandlerVisit>,
) -> bool {
    messages_of(peer, events).is_prefix_of(reports_of(builders, visits))
}

/// A beginning of a conversation is one.
proof fn beginning_is_a_conversation(part: Seq<PeerMessage>, whole: Seq<PeerMessage>)
    requires
        conversation(whole),
        part.is_prefix_of(whole),
    ensures
        conversation(part),
{
    assert forall|i: int| #![trigger part[i]] 0 <= i < part.len() implies {
        &&& part[i] is Join <==> i == 0
        &&& part[i] is Close ==> i == part.len() - 1
    } by {
        assert(part[i] == whole[i]);
    }
}

/// The packets in what comes after a join.
proof fn packets_after_a_join(channel: ChannelNumber, messages: Seq<PeerMessage>)
    ensures
        packets_in(channel, seq![PeerMessage::Join] + messages) == packets_in(channel, messages),
    decreases messages.len(),
{
    let all = seq![PeerMessage::Join] + messages;
    if messages.len() > 0 {
        packets_after_a_join(channel, messages.drop_last());
        assert(all.drop_last() =~= seq![PeerMessage::Join] + messages.drop_last());
        assert(all.last() == messages.last());
    } else {
        assert(all.drop_last() =~= Seq::empty());
        assert(packets_in(channel, all.drop_last()) =~= Seq::empty());
    }
}

/// The packets in a beginning of some messages.
proof fn packets_in_a_beginning(
    channel: ChannelNumber,
    part: Seq<PeerMessage>,
    whole: Seq<PeerMessage>,
)
    requires
        part.is_prefix_of(whole),
    ensures
        packets_in(channel, part).is_prefix_of(packets_in(channel, whole)),
    decreases whole.len(),
{
    if part.len() == whole.len() {
        assert(part =~= whole);
    } else {
        assert(part.is_prefix_of(whole.drop_last())) by {
            assert(part =~= whole.drop_last().subrange(0, part.len() as int));
        }
        packets_in_a_beginning(channel, part, whole.drop_last());
    }
}

/// The packets that were reported of a channel are those that its handler got.
proof fn packets_of_a_handler(visits: Seq<HandlerVisit>, channel: ChannelNumber)
    requires
        forall|i: int|
            #![trigger visits[i]]
            0 <= i < visits.len() ==> (visits[i].event matches ChannelEvent::Packet(number, _)
                ==> number == visits[i].handler.channel()),
    ensures
        packets_in(channel, as_messages(packets_among(events_of(visits)))) == got_by(
            channel,
            visits,
        ),
    decreases visits.len(),
{
    let messages = as_messages(packets_among(events_of(visits)));
    if visits.len() > 0 {
        let earlier = visits.drop_last();
        assert forall|i: int| #![trigger earlier[i]] 0 <= i < earlier.len() implies earlier[i]
            == visits[i] by {}
        packets_of_a_handler(earlier, channel);
        assert(events_of(visits).drop_last() =~= events_of(earlier));
        assert(events_of(visits).last() == visits.last().event);
        assert(visits[visits.len() - 1] == visits.last());
        match visits.last().event {
            ChannelEvent::Packet(number, packet) => {
                assert(messages.drop_last() =~= as_messages(packets_among(events_of(earlier))));
                assert(messages.last() == PeerMessage::Packet(number, packet));
            },
            _ => {},
        }
    } else {
        assert(messages =~= Seq::empty());
    }
}

/// What the socket gets of a peer in the queue of a channel are the packets that the handler of that
/// channel got, each once and in order, and no others: a beginning of them, as long as the loop is
/// still to get some of what was reported, and all of them afterwards. Before every channel opened,
/// it is nothing.
pub proof fn packets_reach_the_queues_of_their_channels(
    builders: Seq<ChannelBuilder<AsyncDataChannelReceiver>>,
    peer: PeerId,
    config: Seq<ChannelConfig>,
    messages: Outbox<(PeerId, PeerMessage)>,
    visits: Seq<HandlerVisit>,
    states: Seq<LoopView>,
    events: Seq<LoopEvent>,
    actions: Seq<LoopAction>,
    channel: ChannelNumber,
)
    requires
        config.len() > 0,
        builders_for_peer(builders, peer, config, messages),
        visits_in_turn(builders, visits),
        none_closed(events_of(visits)),
        all_delivered(outcomes_of(visits)),
        loop_run(states, events, actions),
        got_in_order(peer, events, builders, visits),
        channel.0 < states[0].packets.len(),
    ensures
        states.last().packets[channel.0 as int].offered()
            == states[0].packets[channel.0 as int].offered() + packets_on(channel, events),
        packets_from(peer, packets_on(channel, events)).is_prefix_of(got_by(channel, visits)),
        opens_among(events_of(visits)) < config.len() ==> packets_from(
            peer,
            packets_on(channel, events),
        ).len() == 0,
        opens_among(events_of(visits)) >= config.len() && messages_of(peer, events).len()
            == reports_of(builders, visits).len() ==> packets_from(
            peer,
            packets_on(channel, events),
        ) == got_by(channel, visits),
{
    packets_arrive_in_order(states, events, actions, channel);
    queues_keep_packets_apart(events, peer, channel);
    handlers_report_every_packet(builders, peer, config, messages, visits);
    let heard = messages_of(peer, events);
    let reports = reports_of(builders, visits);
    packets_in_a_beginning(channel, heard, reports);
    if opens_among(events_of(visits)) >= config.len() {
        let packets = as_messages(packets_among(events_of(visits)));
        packets_after_a_join(channel, packets);
        assert forall|i: int|
            #![trigger visits[i]]
            0 <= i < visits.len() implies (visits[i].event matches ChannelEvent::Packet(number, _)
            ==> number == visits[i].handler.channel()) by {}
        packets_of_a_handler(visits, channel);
        if heard.len() == reports.len() {
            assert(heard =~= reports);
        }
    } else {
        assert(heard =~= Seq::empty());
    }
}

/// The beginnings of connecting and then disconnecting.
proof fn beginnings_of_both()
    ensures
        Seq::<PeerState>::empty().is_prefix_of(
            seq![PeerState::Connected, PeerState::Disconnected],
        ),
        seq![PeerState::Connected].is_prefix_of(
            seq![PeerState::Connected, PeerState::Disconnected],
        ),
        seq![PeerState::Connected, PeerState::Disconnected].is_prefix_of(
            seq![PeerState::Connected, PeerState::Disconnected],
        ),
{
    let both = seq![PeerState::Connected, PeerState::Disconnected];
    assert(both.subrange(0, 0) =~= Seq::empty());
    assert(both.subrange(0, 1) =~= seq![PeerState::Connected]);
    assert(both.subrange(0, 2) =~= both);
}

/// What the socket hears of a peer, whatever happens on its channels, is that it connected and then
/// that it disconnected, or a beginning of that: never that it disconnected without having connected,
/// and neither one twice.
pub proof fn peer_states_begin_with_connected(
    builders: Seq<ChannelBuilder<AsyncDataChannelReceiver>>,
    peer: PeerId,
    config: Seq<ChannelConfig>,
    messages: Outbox<(PeerId, PeerMessage)>,
    visits: Seq<HandlerVisit>,
    states: Seq<LoopView>,
    events: Seq<LoopEvent>,
    actions: Seq<LoopAction>,
)
    requires
        config.len() > 0,
        builders_for_peer(builders, peer, config, messages),
        visits_in_turn(builders, visits),
        loop_run(states, events, actions),
        got_in_order(peer, events, builders, visits),
    ensures
        states.last().peer_states.offered() == states[0].peer_states.offered() + states_among(
            events,
        ),
        states_of(peer, states_among(events)).is_prefix_of(
            seq![PeerState::Connected, PeerState::Disconnected],
        ),
        states_of(peer, states_among(events)).len() > 0 ==> opens_among(events_of(visits))
            >= config.len(),
{
    handlers_report_one_conversation(builders, peer, config, messages, visits);
    beginning_is_a_conversation(messages_of(peer, events), reports_of(builders, visits));
    peer_connects_once_and_disconnects_once(states, events, actions, peer);
    beginnings_of_both();
}

/// Of a peer one of whose channels closed or failed before all of them opened, the socket hears
/// nothing at all.
pub proof fn peer_that_failed_early_is_never_heard_of(
    builders: Seq<ChannelBuilder<AsyncDataChannelReceiver>>,
    peer: PeerId,
    config: Seq<ChannelConfig>,
    messages: Outbox<(PeerId, PeerMessage)>,
    visits: Seq<HandlerVisit>,
    closing: int,
    states: Seq<LoopView>,
    events: Seq<LoopEvent>,
    actions: Seq<LoopAction>,
)
    requires
        config.len() > 0,
        builders_for_peer(builders, peer, config, messages),
        visits_in_turn(builders, visits),
        0 <= closing < visits.len(),
        visits[closing].event is Close,
        opens_among(events_of(visits).take(closing)) < config.len(),
        loop_run(states, events, actions),
        got_in_order(peer, events, builders, visits),
    ensures
        messages_of(peer, events).len() == 0,
        states_of(peer, states_among(events)).len() == 0,
{
    let run = visits_are_a_run(builders, visits);
    assert(events_of(visits)[closing] == visits[closing].event);
    early_close_is_silent(run, events_of(visits), outcomes_of(visits), config.len(), closing);
    handlers_report_one_conversation(builders, peer, config, messages, visits);
    beginning_is_a_conversation(messages_of(peer, events), reports_of(builders, visits));
    peer_connects_once_and_disconnects_once(states, events, actions, peer);
}

/// The socket hears that a peer connected when the last of its channels opened, and not before, and
/// hears it once. The handshake with the peer is told at the same time that its data channels are
/// ready; until then it goes on waiting.
pub proof fn peer_connects_when_its_last_channel_opened(
    states: Seq<LoopView>,
    events: Seq<LoopEvent>,
    actions: Seq<LoopAction>,
    handshake: Handshake,
    visits: Seq<HandlerVisit>,
)
    requires
        loop_run(states, events, actions),
        events.len() > 0,
        started(actions[0]) == Some(handshake),
        one_handshake(handshake.signal_peer.id, actions),
        visits_in_turn(handshake.builders@, visits),
        none_closed(events_of(visits)),
        all_delivered(outcomes_of(visits)),
        got_in_order(handshake.signal_peer.id, events, handshake.builders@, visits),
    ensures
        states_of(handshake.signal_peer.id, states_among(events)) == if messages_of(
            handshake.signal_peer.id,
            events,
        ).len() == 0 {
            Seq::empty()
        } else {
            seq![PeerState::Connected]
        },
        opens_among(events_of(visits)) < handshake.builders@.len() ==> messages_of(
            handshake.signal_peer.id,
            events,
        ).len() == 0,
        opens_among(events_of(visits)) >= handshake.builders@.len() ==> reports_of(
            handshake.builders@,
            visits,
        ).len() > 0,
        messages_of(handshake.signal_peer.id, events).len() == 0 ==> {
            &&& states.last().waiting.contains_key(handshake.signal_peer.id.0)
            &&& states.last().waiting[handshake.signal_peer.id.0].is_pending_end_of(
                handshake.data_channels_ready.channel(),
            )
        },
        messages_of(handshake.signal_peer.id, events).len() > 0 ==> exists|at: int|
            #[trigger] readied_at(events, actions, handshake, at),
{
    let peer = handshake.signal_peer.id;
    let builders = handshake.builders@;
    assert(states[0].expects(events[0]));
    assert(loop_step(states[0], events[0], states[1], actions[0]));
    let config = states[0].config.channels@;
    assert(builders_for_peer(builders, peer, config, handshake.messages()));
    handlers_report_one_conversation(builders, peer, config, handshake.messages(), visits);
    handlers_report_every_packet(builders, peer, config, handshake.messages(), visits);
    let heard = messages_of(peer, events);
    let reports = reports_of(builders, visits);
    beginning_is_a_conversation(heard, reports);
    peer_connects_once_and_disconnects_once(states, events, actions, peer);
    if heard.len() == 0 {
        silent_peer_is_waited_for(states, events, actions, handshake);
    } else {
        assert(heard.last() == reports[heard.len() - 1]);
        assert(heard.first() == reports.first());
        let at = first_message_comes(events, peer);
        assert(at > 0);
        beginning_of_a_run(states, events, actions, at + 1);
        let part = events.take(at + 1);
        let actions_part = actions.take(at + 1);
        assert forall|i: int| #![trigger part[i]] 1 <= i < part.len() - 1 implies {
            &&& part[i] != LoopEvent::FromPeer(Some((peer, PeerMessage::Join)))
            &&& started(actions_part[i]) matches Some(other) ==> other.signal_peer.id != peer
        } by {
            assert(part[i] == events[i]);
        }
        join_keeps_the_promise_of_the_handshake(
            states.take(at + 2),
            part,
            actions_part,
            handshake,
        );
        assert(readied_at(events, actions, handshake, at));
    }
}

/// At the event `at`, the peer of `handshake` joins, and the handshake is told that its data channels
/// are ready.
pub open spec fn readied_at(
    events: Seq<LoopEvent>,
    actions: Seq<LoopAction>,
    handshake: Handshake,
    at: int,
) -> bool {
    &&& 0 <= at < events.len()
    &&& events[at] == LoopEvent::FromPeer(Some((handshake.signal_peer.id, PeerMessage::Join)))
    &&& actions[at] matches LoopAction::Ready(told)
    &&& told.channel() == handshake.data_channels_ready.channel()
    &&& told.offered() == Some(())
}

} // verus!
