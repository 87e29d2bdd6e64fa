//! What a peer says over all of its channels, from the first event to the last.
use crate::channel::refused_after;
use crate::error::ChannelEventError;
use crate::peer::{
    as_messages, due, from_peer, next_phase, peer_step, phase_after, ChannelEvent, PeerMessage,
    PeerPhase, UnboundedPeerReceiver,
};
use crate::protocol::{ChannelNumber, Packet, PeerId};
use vstd::prelude::*;

verus! {

/// The peer went through `states`, with `outcomes`, as `events` happened on its channels.
pub open spec fn peer_run(
    states: Seq<UnboundedPeerReceiver>,
    events: Seq<ChannelEvent>,
    outcomes: Seq<Result<(), ChannelEventError>>,
) -> bool {
    &&& states.len() == events.len() + 1
    &&& outcomes.len() == events.len()
    &&& forall|i: int| #![trigger states[i]] 0 <= i < states.len() ==> states[i].wf()
    &&& forall|i: int|
        #![trigger events[i]]
        0 <= i < events.len() ==> peer_step(states[i], events[i], states[i + 1], outcomes[i])
}

/// Nothing happened yet on the `channels` of this peer.
pub open spec fn untouched(peer: UnboundedPeerReceiver, channels: nat) -> bool {
    peer.phase() == (PeerPhase::Connecting { remaining: channels, buffered: Seq::empty() })
}

/// Somebody was there to report to, all along.
pub open spec fn all_delivered(outcomes: Seq<Result<(), ChannelEventError>>) -> bool {
    forall|i: int|
        #![trigger outcomes[i]]
        0 <= i < outcomes.len() ==> outcomes[i] != Err::<(), _>(ChannelEventError::Undelivered)
}

/// None of the channels closed.
pub open spec fn none_closed(events: Seq<ChannelEvent>) -> bool {
    forall|i: int| #![trigger events[i]] 0 <= i < events.len() ==> !(events[i] is Close)
}

/// The packets among `events`, in order.
pub open spec fn packets_among(events: Seq<ChannelEvent>) -> Seq<(ChannelNumber, Packet)>
    decreases events.len(),
{
    if events.len() == 0 {
        Seq::empty()
    } else {
        match events.last() {
            ChannelEvent::Packet(channel, packet) => packets_among(events.drop_last()).push(
                (channel, packet),
            ),
            _ => packets_among(events.drop_last()),
        }
    }
}

/// How often a channel opened.
pub open spec fn opens_among(events: Seq<ChannelEvent>) -> nat
    decreases events.len(),
{
    if events.len() == 0 {
        0
    } else {
        opens_among(events.drop_last()) + if events.last() is Open {
            1nat
        } else {
            0nat
        }
    }
}

/// A peer joins once, before anything else, and leaves at most once, after everything else.
pub open spec fn conversation(messages: Seq<PeerMessage>) -> bool {
    forall|i: int|
        #![trigger messages[i]]
        0 <= i < messages.len() ==> {
            &&& messages[i] is Join <==> i == 0
            &&& messages[i] is Close ==> i == messages.len() - 1
        }
}

/// How the phase that `events` lead to tells of them.
proof fn phase_tells_events(channels: nat, events: Seq<ChannelEvent>)
    requires
        channels > 0,
    ensures
        match phase_after(channels, events) {
            PeerPhase::Connecting { remaining, buffered } => {
                &&& none_closed(events)
                &&& remaining > 0
                &&& remaining + opens_among(events) == channels
                &&& buffered == packets_among(events)
            },
            PeerPhase::Connected => none_closed(events) && opens_among(events) >= channels,
            PeerPhase::Closed { .. } => !none_closed(events),
        },
    decreases events.len(),
{
    if events.len() > 0 {
        let earlier = events.drop_last();
        phase_tells_events(channels, earlier);
        assert(events[events.len() - 1] == events.last());
        assert forall|i: int| #![trigger earlier[i]] 0 <= i < earlier.len() implies earlier[i]
            == events[i] by {}
        if none_closed(earlier) && !(events.last() is Close) {
            assert forall|i: int| #![trigger events[i]] 0 <= i < events.len() implies !(
            events[i] is Close) by {
                if i < earlier.len() {
                    assert(earlier[i] == events[i]);
                }
            }
        } else if !none_closed(earlier) {
            let at = choose|i: int|
                #![trigger earlier[i]]
                0 <= i < earlier.len() && earlier[i] is Close;
            assert(events[at] is Close);
        }
    }
}

/// Whichever of its channels is asked, what is known of a peer is what happened on all of them
/// together. While some are still to open, the packets that arrived wait in order; it is connected
/// only when as many channels opened as there are, and none closed; and it is closed only when a
/// channel closed, or a message could not be delivered.
pub proof fn phase_tells_history(peer: UnboundedPeerReceiver)
    requires
        peer.wf(),
    ensures
        match peer.phase() {
            PeerPhase::Connecting { remaining, buffered } => {
                &&& none_closed(peer.history())
                &&& remaining > 0
                &&& remaining + opens_among(peer.history()) == peer.channels()
                &&& buffered == packets_among(peer.history())
            },
            PeerPhase::Connected => {
                &&& none_closed(peer.history())
                &&& opens_among(peer.history()) >= peer.channels()
            },
            PeerPhase::Closed { .. } => peer.undelivered() || !none_closed(peer.history()),
        },
{
    peer.phase_follows_from_history();
    phase_tells_events(peer.channels(), peer.history());
}

/// What was reported of the peer between `first` and `last`.
pub open spec fn reported(first: UnboundedPeerReceiver, last: UnboundedPeerReceiver) -> Seq<
    PeerMessage,
> {
    last.outbox().offered().skip(first.outbox().offered().len() as int).map_values(
        |message: (PeerId, PeerMessage)| message.1,
    )
}

/// `messages` are what was reported of the peer between `first` and `last`.
proof fn reported_is(
    first: UnboundedPeerReceiver,
    messages: Seq<PeerMessage>,
    last: UnboundedPeerReceiver,
)
    requires
        last.outbox().offered() == first.outbox().offered() + from_peer(
            first.remote_id(),
            messages,
        ),
    ensures
        reported(first, last) == messages,
{
    let offered = first.outbox().offered();
    assert(last.outbox().offered().skip(offered.len() as int) =~= from_peer(
        first.remote_id(),
        messages,
    ));
    assert(reported(first, last) =~= messages);
}

/// One step reports what is due: all of it, or, where nobody is left to report to, some of it.
proof fn step_reports(
    before: UnboundedPeerReceiver,
    event: ChannelEvent,
    after: UnboundedPeerReceiver,
    outcome: Result<(), ChannelEventError>,
) -> (count: int)
    requires
        peer_step(before, event, after, outcome),
    ensures
        after.remote_id() == before.remote_id(),
        0 <= count <= due(before.phase(), event).len(),
        after.outbox().offered() == before.outbox().offered() + from_peer(
            before.remote_id(),
            due(before.phase(), event).take(count),
        ),
        outcome is Ok ==> count == due(before.phase(), event).len(),
        outcome == Err::<(), _>(ChannelEventError::UnexpectedOpen) ==> count == 0,
{
    let messages = due(before.phase(), event);
    let id = before.remote_id();
    match outcome {
        Ok(()) => {
            assert(messages.take(messages.len() as int) =~= messages);
            if before.phase() is Closed {
                assert(from_peer(id, messages) =~= Seq::empty());
                assert(before.outbox().offered() + Seq::<(PeerId, PeerMessage)>::empty()
                    =~= before.outbox().offered());
            }
            messages.len() as int
        },
        Err(ChannelEventError::Undelivered) => {
            let taken = choose|taken: int|
                refused_after(
                    before.outbox(),
                    from_peer(id, messages),
                    taken,
                    after.outbox(),
                );
            assert(from_peer(id, messages).take(taken + 1) =~= from_peer(
                id,
                messages.take(taken + 1),
            ));
            taken + 1
        },
        Err(ChannelEventError::UnexpectedOpen) => {
            assert(from_peer(id, messages.take(0)) =~= Seq::empty());
            assert(before.outbox().offered() + Seq::<(PeerId, PeerMessage)>::empty()
                =~= before.outbox().offered());
            0
        },
    }
}

/// What was reported in a run and then in one more step.
proof fn reports_add_up(
    first: UnboundedPeerReceiver,
    said: Seq<PeerMessage>,
    before: UnboundedPeerReceiver,
    more: Seq<PeerMessage>,
    after: UnboundedPeerReceiver,
)
    requires
        before.remote_id() == first.remote_id(),
        before.outbox().offered() == first.outbox().offered() + from_peer(first.remote_id(), said),
        after.outbox().offered() == before.outbox().offered() + from_peer(
            before.remote_id(),
            more,
        ),
    ensures
        after.outbox().offered() == first.outbox().offered() + from_peer(
            first.remote_id(),
            said + more,
        ),
        reported(first, after) == said + more,
{
    let id = first.remote_id();
    assert(after.outbox().offered() =~= first.outbox().offered() + from_peer(id, said + more));
    reported_is(first, said + more, after);
}

/// A run without its last event.
proof fn run_before_last(
    states: Seq<UnboundedPeerReceiver>,
    events: Seq<ChannelEvent>,
    outcomes: Seq<Result<(), ChannelEventError>>,
)
    requires
        peer_run(states, events, outcomes),
        events.len() > 0,
    ensures
        peer_run(states.drop_last(), events.drop_last(), outcomes.drop_last()),
        states.drop_last().last() == states[events.len() - 1],
        states.drop_last()[0] == states[0],
        peer_step(states[events.len() - 1], events.last(), states.last(), outcomes.last()),
{
    let earlier = states.drop_last();
    assert forall|i: int| #![trigger earlier[i]] 0 <= i < earlier.len() implies earlier[i].wf() by {
        assert(earlier[i] == states[i]);
    }
    assert forall|i: int|
        #![trigger events.drop_last()[i]]
        0 <= i < events.len() - 1 implies peer_step(
        earlier[i],
        events.drop_last()[i],
        earlier[i + 1],
        outcomes.drop_last()[i],
    ) by {
        assert(events.drop_last()[i] == events[i]);
    }
    assert(events[events.len() - 1] == events.last());
}

/// How what was reported of a peer fits the phase that it is in.
spec fn fits(phase: PeerPhase, messages: Seq<PeerMessage>) -> bool {
    &&& conversation(messages)
    &&& phase is Connecting ==> messages.len() == 0
    &&& phase is Connected ==> messages.len() > 0 && !(messages.last() is Close)
}

/// What is due fits what was reported before it, as does any part of it that could be delivered.
proof fn due_fits(phase: PeerPhase, said: Seq<PeerMessage>, event: ChannelEvent, count: int)
    requires
        fits(phase, said),
        0 <= count <= due(phase, event).len(),
    ensures
        conversation(said + due(phase, event).take(count)),
        count == due(phase, event).len() ==> fits(
            next_phase(phase, event),
            said + due(phase, event).take(count),
        ),
{
}

/// What was reported of a peer in a run fits the phase that it ends in.
proof fn run_fits(
    states: Seq<UnboundedPeerReceiver>,
    events: Seq<ChannelEvent>,
    outcomes: Seq<Result<(), ChannelEventError>>,
)
    requires
        peer_run(states, events, outcomes),
        states[0].phase() is Connecting,
    ensures
        states.last().remote_id() == states[0].remote_id(),
        states.last().outbox().offered() == states[0].outbox().offered() + from_peer(
            states[0].remote_id(),
            reported(states[0], states.last()),
        ),
        fits(states.last().phase(), reported(states[0], states.last())),
    decreases events.len(),
{
    let first = states[0];
    if events.len() == 0 {
        assert(from_peer(first.remote_id(), Seq::empty()) =~= Seq::empty());
        assert(first.outbox().offered() + Seq::<(PeerId, PeerMessage)>::empty()
            =~= first.outbox().offered());
        reported_is(first, Seq::empty(), first);
    } else {
        run_before_last(states, events, outcomes);
        run_fits(states.drop_last(), events.drop_last(), outcomes.drop_last());
        let before = states[events.len() - 1];
        let said = reported(first, before);
        let count = step_reports(before, events.last(), states.last(), outcomes.last());
        let more = due(before.phase(), events.last()).take(count);
        reports_add_up(first, said, before, more, states.last());
        due_fits(before.phase(), said, events.last(), count);
        if outcomes.last() == Err::<(), _>(ChannelEventError::UnexpectedOpen) {
            assert(said + more =~= said);
        }
    }
}

/// Whatever happens on the channels of a peer, and even if nobody is left to report to, what is
/// reported of it is a conversation: a join first and only then, packets only between the join and
/// the close, and at most one close, after which there is nothing more. All of it is reported as
/// coming from this peer.
pub proof fn messages_form_a_conversation(
    states: Seq<UnboundedPeerReceiver>,
    events: Seq<ChannelEvent>,
    outcomes: Seq<Result<(), ChannelEventError>>,
    channels: nat,
)
    requires
        peer_run(states, events, outcomes),
        untouched(states[0], channels),
    ensures
        states.last().outbox().offered() == states[0].outbox().offered() + from_peer(
            states[0].remote_id(),
            reported(states[0], states.last()),
        ),
        conversation(reported(states[0], states.last())),
{
    run_fits(states, events, outcomes);
}

/// Until a channel closes, no packet is lost, and none overtakes another. While not all channels
/// opened, nothing is reported and the packets wait; once all have, the peer has joined, and the
/// packets were reported, in the order in which they arrived on whatever channel.
pub proof fn no_packet_is_lost(
    states: Seq<UnboundedPeerReceiver>,
    events: Seq<ChannelEvent>,
    outcomes: Seq<Result<(), ChannelEventError>>,
    channels: nat,
)
    requires
        channels > 0,
        peer_run(states, events, outcomes),
        untouched(states[0], channels),
        none_closed(events),
        all_delivered(outcomes),
    ensures
        opens_among(events) < channels ==> {
            &&& states.last().phase() == (PeerPhase::Connecting {
                remaining: (channels - opens_among(events)) as nat,
                buffered: packets_among(events),
            })
            &&& reported(states[0], states.last()) == Seq::<PeerMessage>::empty()
        },
        opens_among(events) >= channels ==> {
            &&& states.last().phase() == PeerPhase::Connected
            &&& reported(states[0], states.last()) == seq![PeerMessage::Join] + as_messages(
                packets_among(events),
            )
        },
    decreases events.len(),
{
    let first = states[0];
    run_fits(states, events, outcomes);
    if events.len() > 0 {
        run_before_last(states, events, outcomes);
        let events_before = events.drop_last();
        assert forall|i: int|
            #![trigger events_before[i]]
            0 <= i < events_before.len() implies !(events_before[i] is Close) by {
            assert(events_before[i] == events[i]);
        }
        assert forall|i: int|
            #![trigger outcomes.drop_last()[i]]
            0 <= i < events_before.len() implies outcomes.drop_last()[i] != Err::<(), _>(
            ChannelEventError::Undelivered,
        ) by {
            assert(outcomes.drop_last()[i] == outcomes[i]);
        }
        no_packet_is_lost(states.drop_last(), events_before, outcomes.drop_last(), channels);
        run_fits(states.drop_last(), events_before, outcomes.drop_last());
        let before = states[events.len() - 1];
        let event = events.last();
        let outcome = outcomes.last();
        assert(!(events[events.len() - 1] is Close));
        assert(outcomes[events.len() - 1] != Err::<(), _>(ChannelEventError::Undelivered));
        let said = reported(first, before);
        let count = step_reports(before, event, states.last(), outcome);
        let more = due(before.phase(), event).take(count);
        reports_add_up(first, said, before, more, states.last());
        assert(due(before.phase(), event).take(due(before.phase(), event).len() as int) =~= due(
            before.phase(),
            event,
        ));
        assert(said + Seq::<PeerMessage>::empty() =~= said);
        if event is Packet {
            assert(as_messages(packets_among(events)) =~= as_messages(
                packets_among(events_before),
            ).push(PeerMessage::Packet(event->Packet_0, event->Packet_1)));
            assert(said.push(PeerMessage::Packet(event->Packet_0, event->Packet_1)) =~= said + seq![
                PeerMessage::Packet(event->Packet_0, event->Packet_1),
            ]);
        }
        assert(Seq::<PeerMessage>::empty() + (seq![PeerMessage::Join] + as_messages(
            packets_among(events_before),
        )) =~= seq![PeerMessage::Join] + as_messages(packets_among(events_before)));
    } else {
        assert(reported(first, first) =~= Seq::<PeerMessage>::empty()) by {
            assert(from_peer(first.remote_id(), Seq::empty()) =~= Seq::empty());
            assert(first.outbox().offered() + Seq::<(PeerId, PeerMessage)>::empty()
                =~= first.outbox().offered());
            reported_is(first, Seq::empty(), first);
        }
    }
}

/// Once closed, a peer stays as it is, whatever happens on its channels: nothing is reported of it
/// any more, and no event is refused.
pub proof fn close_is_final(
    states: Seq<UnboundedPeerReceiver>,
    events: Seq<ChannelEvent>,
    outcomes: Seq<Result<(), ChannelEventError>>,
)
    requires
        peer_run(states, events, outcomes),
        states[0].phase() is Closed,
    ensures
        states.last() == states[0],
        forall|i: int| #![trigger outcomes[i]] 0 <= i < outcomes.len() ==> outcomes[i] is Ok,
    decreases events.len(),
{
    if events.len() > 0 {
        run_before_last(states, events, outcomes);
        close_is_final(states.drop_last(), events.drop_last(), outcomes.drop_last());
        assert forall|i: int|
            #![trigger outcomes[i]]
            0 <= i < outcomes.len() implies outcomes[i] is Ok by {
            if i < outcomes.len() - 1 {
                assert(outcomes.drop_last()[i] == outcomes[i]);
            } else {
                assert(outcomes[i] == outcomes.last());
            }
        }
    }
}

/// The peer, its channels, and where its messages go stay the same.
pub proof fn run_keeps_the_peer(
    states: Seq<UnboundedPeerReceiver>,
    events: Seq<ChannelEvent>,
    outcomes: Seq<Result<(), ChannelEventError>>,
)
    requires
        peer_run(states, events, outcomes),
    ensures
        states.last().remote_id() == states[0].remote_id(),
        states.last().channels() == states[0].channels(),
        states.last().outbox().channel() == states[0].outbox().channel(),
        states.last().outbox().handed_out() == states[0].outbox().handed_out(),
    decreases events.len(),
{
    if events.len() > 0 {
        run_before_last(states, events, outcomes);
        run_keeps_the_peer(states.drop_last(), events.drop_last(), outcomes.drop_last());
    }
}

/// A peer is reported as joined, or anything else of it, only after as many channels opened as there
/// are.
pub proof fn join_needs_every_channel(
    states: Seq<UnboundedPeerReceiver>,
    events: Seq<ChannelEvent>,
    outcomes: Seq<Result<(), ChannelEventError>>,
    channels: nat,
)
    requires
        channels > 0,
        peer_run(states, events, outcomes),
        untouched(states[0], channels),
    ensures
        reported(states[0], states.last()).len() > 0 ==> opens_among(events) >= channels,
        states.last().phase() matches PeerPhase::Connecting { remaining, .. } ==> remaining
            + opens_among(events) == channels && remaining > 0,
        states.last().phase() == PeerPhase::Connected ==> opens_among(events) >= channels,
    decreases events.len(),
{
    let first = states[0];
    run_fits(states, events, outcomes);
    if events.len() == 0 {
        assert(from_peer(first.remote_id(), Seq::empty()) =~= Seq::empty());
        assert(first.outbox().offered() + Seq::<(PeerId, PeerMessage)>::empty()
            =~= first.outbox().offered());
        reported_is(first, Seq::empty(), first);
    } else {
        run_before_last(states, events, outcomes);
        join_needs_every_channel(
            states.drop_last(),
            events.drop_last(),
            outcomes.drop_last(),
            channels,
        );
        run_fits(states.drop_last(), events.drop_last(), outcomes.drop_last());
        let before = states[events.len() - 1];
        let said = reported(first, before);
        let count = step_reports(before, events.last(), states.last(), outcomes.last());
        let more = due(before.phase(), events.last()).take(count);
        reports_add_up(first, said, before, more, states.last());
    }
}

/// `last` is what becomes of `first` by some events on the channels of the peer.
pub open spec fn reached(first: UnboundedPeerReceiver, last: UnboundedPeerReceiver) -> bool {
    exists|
        states: Seq<UnboundedPeerReceiver>,
        events: Seq<ChannelEvent>,
        outcomes: Seq<Result<(), ChannelEventError>>,
    |
        {
            &&& #[trigger] peer_run(states, events, outcomes)
            &&& states[0] == first
            &&& states.last() == last
        }
}

/// A peer is reached without any event.
pub proof fn start_is_reached(first: UnboundedPeerReceiver)
    requires
        first.wf(),
    ensures
        reached(first, first),
{
    let states = seq![first];
    assert(peer_run(states, Seq::empty(), Seq::empty()));
    assert(states[0] == first && states.last() == first);
}

/// One more event reaches the next.
pub proof fn next_is_reached(
    first: UnboundedPeerReceiver,
    before: UnboundedPeerReceiver,
    event: ChannelEvent,
    after: UnboundedPeerReceiver,
    outcome: Result<(), ChannelEventError>,
)
    requires
        reached(first, before),
        peer_step(before, event, after, outcome),
        after.wf(),
    ensures
        reached(first, after),
{
    let (states, events, outcomes) = choose|
        states: Seq<UnboundedPeerReceiver>,
        events: Seq<ChannelEvent>,
        outcomes: Seq<Result<(), ChannelEventError>>,
    |
        {
            &&& #[trigger] peer_run(states, events, outcomes)
            &&& states[0] == first
            &&& states.last() == before
        };
    let more_states = states.push(after);
    let more_events = events.push(event);
    let more_outcomes = outcomes.push(outcome);
    assert forall|i: int| #![trigger more_states[i]] 0 <= i < more_states.len() implies
        more_states[i].wf() by {
        if i < states.len() {
            assert(more_states[i] == states[i]);
        }
    }
    assert forall|i: int| #![trigger more_events[i]] 0 <= i < more_events.len() implies peer_step(
        more_states[i],
        more_events[i],
        more_states[i + 1],
        more_outcomes[i],
    ) by {
        if i < events.len() {
            assert(more_events[i] == events[i]);
        }
    }
    assert(peer_run(more_states, more_events, more_outcomes));
    assert(more_states[0] == first && more_states.last() == after);
}

/// Whatever is reached from a peer on whose channels nothing happened yet, what was reported of it
/// on the way is a conversation.
pub proof fn whatever_is_reached_is_a_conversation(
    first: UnboundedPeerReceiver,
    last: UnboundedPeerReceiver,
    channels: nat,
)
    requires
        reached(first, last),
        untouched(first, channels),
    ensures
        last.remote_id() == first.remote_id(),
        last.channels() == first.channels(),
        last.outbox().channel() == first.outbox().channel(),
        last.outbox().handed_out() == first.outbox().handed_out(),
        last.outbox().offered() == first.outbox().offered() + from_peer(
            first.remote_id(),
            reported(first, last),
        ),
        conversation(reported(first, last)),
{
    let (states, events, outcomes) = choose|
        states: Seq<UnboundedPeerReceiver>,
        events: Seq<ChannelEvent>,
        outcomes: Seq<Result<(), ChannelEventError>>,
    |
        {
            &&& #[trigger] peer_run(states, events, outcomes)
            &&& states[0] == first
            &&& states.last() == last
        };
    messages_form_a_conversation(states, events, outcomes, channels);
    run_keeps_the_peer(states, events, outcomes);
}

/// A run can be cut in two.
proof fn run_parts(
    states: Seq<UnboundedPeerReceiver>,
    events: Seq<ChannelEvent>,
    outcomes: Seq<Result<(), ChannelEventError>>,
    at: int,
)
    requires
        peer_run(states, events, outcomes),
        0 <= at <= events.len(),
    ensures
        peer_run(states.take(at + 1), events.take(at), outcomes.take(at)),
        peer_run(states.skip(at), events.skip(at), outcomes.skip(at)),
{
    assert forall|i: int|
        #![trigger events.take(at)[i]]
        0 <= i < at implies peer_step(
        states.take(at + 1)[i],
        events.take(at)[i],
        states.take(at + 1)[i + 1],
        outcomes.take(at)[i],
    ) by {
        assert(events.take(at)[i] == events[i]);
    }
    assert forall|i: int|
        #![trigger events.skip(at)[i]]
        0 <= i < events.len() - at implies peer_step(
        states.skip(at)[i],
        events.skip(at)[i],
        states.skip(at)[i + 1],
        outcomes.skip(at)[i],
    ) by {
        assert(events.skip(at)[i] == events[at + i]);
    }
}

/// The whole of what is reported of a peer whose first channel to close does so at `closing`. If
/// all channels had opened by then, it is the join, the packets that arrived until then, in order,
/// and the close, with the error of that channel. Otherwise it is nothing. What happened afterwards
/// makes no difference: packets from after the close are discarded, and no other channel that
/// closes is heard of.
pub proof fn first_close_ends_the_conversation(
    states: Seq<UnboundedPeerReceiver>,
    events: Seq<ChannelEvent>,
    outcomes: Seq<Result<(), ChannelEventError>>,
    channels: nat,
    closing: int,
)
    requires
        channels > 0,
        peer_run(states, events, outcomes),
        untouched(states[0], channels),
        all_delivered(outcomes),
        0 <= closing < events.len(),
        none_closed(events.take(closing)),
        events[closing] is Close,
    ensures
        states.last().phase() is Closed,
        reported(states[0], states.last()) == if opens_among(events.take(closing)) >= channels {
            (seq![PeerMessage::Join] + as_messages(packets_among(events.take(closing)))).push(
                PeerMessage::Close(events[closing]->Close_0),
            )
        } else {
            Seq::empty()
        },
{
    let first = states[0];
    let before = states[closing];
    let after = states[closing + 1];
    run_parts(states, events, outcomes, closing);
    run_parts(states, events, outcomes, closing + 1);
    assert(all_delivered(outcomes.take(closing))) by {
        assert forall|i: int|
            #![trigger outcomes.take(closing)[i]]
            0 <= i < closing implies outcomes.take(closing)[i] != Err::<(), _>(
            ChannelEventError::Undelivered,
        ) by {
            assert(outcomes.take(closing)[i] == outcomes[i]);
        }
    }
    no_packet_is_lost(
        states.take(closing + 1),
        events.take(closing),
        outcomes.take(closing),
        channels,
    );
    run_fits(states.take(closing + 1), events.take(closing), outcomes.take(closing));
    assert(peer_step(before, events[closing], after, outcomes[closing]));
    assert(outcomes[closing] is Ok);
    let said = reported(first, before);
    let count = step_reports(before, events[closing], after, outcomes[closing]);
    let more = due(before.phase(), events[closing]).take(count);
    reports_add_up(first, said, before, more, after);
    close_is_final(states.skip(closing + 1), events.skip(closing + 1), outcomes.skip(closing + 1));
    assert(states.skip(closing + 1).last() == states.last());
    reported_is(first, said + more, states.last());
    assert(more =~= due(before.phase(), events[closing]));
    if opens_among(events.take(closing)) >= channels {
        assert(said + more =~= said.push(PeerMessage::Close(events[closing]->Close_0)));
    } else {
        assert(said + more =~= Seq::empty());
    }
}

/// A peer one of whose channels closes before all of them opened is never heard of, whatever happens
/// afterwards.
pub proof fn early_close_is_silent(
    states: Seq<UnboundedPeerReceiver>,
    events: Seq<ChannelEvent>,
    outcomes: Seq<Result<(), ChannelEventError>>,
    channels: nat,
    closing: int,
)
    requires
        channels > 0,
        peer_run(states, events, outcomes),
        untouched(states[0], channels),
        0 <= closing < events.len(),
        opens_among(events.take(closing)) < channels,
        events[closing] is Close,
    ensures
        states.last().phase() is Closed,
        reported(states[0], states.last()) == Seq::<PeerMessage>::empty(),
{
    let first = states[0];
    let before = states[closing];
    let after = states[closing + 1];
    run_parts(states, events, outcomes, closing);
    run_parts(states, events, outcomes, closing + 1);
    join_needs_every_channel(
        states.take(closing + 1),
        events.take(closing),
        outcomes.take(closing),
        channels,
    );
    run_fits(states.take(closing + 1), events.take(closing), outcomes.take(closing));
    assert(peer_step(before, events[closing], after, outcomes[closing]));
    let said = reported(first, before);
    let count = step_reports(before, events[closing], after, outcomes[closing]);
    let more = due(before.phase(), events[closing]).take(count);
    reports_add_up(first, said, before, more, after);
    close_is_final(states.skip(closing + 1), events.skip(closing + 1), outcomes.skip(closing + 1));
    assert(states.skip(closing + 1).last() == states.last());
    assert(said + more =~= Seq::empty());
}

} // verus!
