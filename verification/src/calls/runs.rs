//! The calls that are made are the steps of the runs that the laws are about.
use crate::conversation::peer_run;
use crate::error::ChannelEventError;
use crate::loop_laws::loop_run;
use crate::message_loop::{loop_step, LoopAction, LoopEvent, LoopView, MessageLoop};
use crate::peer::{peer_step, ChannelEvent, UnboundedPeerReceiver};
use crate::protocol::{ChannelIndex, Packet, PeerId};
use crate::signaling::{
    signaling_run, signaling_step, SignalingAction, SignalingInput, SignalingLoop,
};
use crate::simple::{DataChannelStream, SimpleWebRtcEvent, SimpleWebRtcRx, SimpleWebRtcTx};
use crate::stream_laws::{receiver_step, ReceiverUse};
use crate::table_laws::{table_step, use_of, TableUse};
use crate::tx_table::{DataChannelSink, TakeError};
use vstd::prelude::*;

verus! {

/// A call adds a step to a run of the loop of a socket.
pub proof fn call_adds_to_a_run_of_the_loop(
    states: Seq<LoopView>,
    events: Seq<LoopEvent>,
    actions: Seq<LoopAction>,
    state: &mut MessageLoop,
    event: LoopEvent,
    action: LoopAction,
)
    requires
        loop_run(states, events, actions),
        states.last() == old(state)@,
        old(state)@.expects(event),
        call_ensures(MessageLoop::step, (state, event), action),
    ensures
        loop_run(states.push(final(state)@), events.push(event), actions.push(action)),
{
    let more = events.push(event);
    assert forall|i: int| #![trigger more[i]] 0 <= i < more.len() implies {
        &&& states.push(final(state)@)[i].expects(more[i])
        &&& loop_step(
            states.push(final(state)@)[i],
            more[i],
            states.push(final(state)@)[i + 1],
            actions.push(action)[i],
        )
    } by {
        if i < events.len() {
            assert(more[i] == events[i]);
        }
    }
}

/// A call adds a step to a run of the loop between a node and its signaling server.
pub proof fn call_adds_to_a_run_of_signaling(
    states: Seq<SignalingLoop>,
    inputs: Seq<SignalingInput>,
    actions: Seq<SignalingAction>,
    state: &mut SignalingLoop,
    input: SignalingInput,
    action: SignalingAction,
)
    requires
        signaling_run(states, inputs, actions),
        states.last() == *old(state),
        call_ensures(SignalingLoop::step, (state, input), action),
    ensures
        signaling_run(states.push(*final(state)), inputs.push(input), actions.push(action)),
{
    let more = inputs.push(input);
    assert forall|i: int| #![trigger more[i]] 0 <= i < more.len() implies {
        signaling_step(
            states.push(*final(state))[i],
            more[i],
            states.push(*final(state))[i + 1],
            actions.push(action)[i],
        )
    } by {
        if i < inputs.len() {
            assert(more[i] == inputs[i]);
        }
    }
}

/// A call adds a step to a run of a peer.
pub proof fn call_adds_to_a_run_of_a_peer(
    states: Seq<UnboundedPeerReceiver>,
    events: Seq<ChannelEvent>,
    outcomes: Seq<Result<(), ChannelEventError>>,
    peer: &mut UnboundedPeerReceiver,
    event: ChannelEvent,
    outcome: Result<(), ChannelEventError>,
)
    requires
        peer_run(states, events, outcomes),
        states.last() == *old(peer),
        call_ensures(UnboundedPeerReceiver::channel_event, (peer, event), outcome),
    ensures
        peer_run(states.push(*final(peer)), events.push(event), outcomes.push(outcome)),
{
    let more_states = states.push(*final(peer));
    let more = events.push(event);
    assert forall|i: int|
        #![trigger more_states[i]]
        0 <= i < more_states.len() implies more_states[i].wf() by {
        if i < states.len() {
            assert(more_states[i] == states[i]);
        }
    }
    assert forall|i: int| #![trigger more[i]] 0 <= i < more.len() implies {
        peer_step(
            more_states[i],
            more[i],
            more_states[i + 1],
            outcomes.push(outcome)[i],
        )
    } by {
        if i < events.len() {
            assert(more[i] == events[i]);
        }
    }
}

/// To take a channel through the transmitter is to take that channel from the table.
pub proof fn taking_a_sink_uses_the_table(
    tx: &mut SimpleWebRtcTx,
    peer: PeerId,
    channel: ChannelIndex,
    taken: Result<DataChannelSink, TakeError>,
)
    requires
        call_ensures(SimpleWebRtcTx::take_sink, (tx, peer, channel), taken),
    ensures
        final(tx).table().handle().opened() == old(tx).table().handle().opened() + 1,
        ({
            let last = final(tx).table().handle().sessions().last();
            &&& final(tx).table().handle().sessions() ==
                old(tx).table().handle().sessions().push(last)
            &&& last.len() == 2
            &&& last[0] is Locked
            &&& last[1] is Unlocked
            &&& table_step(
                last[0]->Locked_0@,
                TableUse::Take(peer, channel, taken),
                last[1]->Unlocked_0@,
            )
        }),
{
}

/// To send a packet through the transmitter is to write that packet to that channel of the table.
pub proof fn sending_uses_the_table(
    tx: &mut SimpleWebRtcTx,
    peer: PeerId,
    channel: ChannelIndex,
    packet: Packet,
    sent: Result<(), TakeError>,
)
    requires
        call_ensures(SimpleWebRtcTx::send, (tx, peer, channel, packet), sent),
    ensures
        final(tx).table().handle().opened() == old(tx).table().handle().opened() + 1,
        ({
            let last = final(tx).table().handle().sessions().last();
            &&& final(tx).table().handle().sessions() ==
                old(tx).table().handle().sessions().push(last)
            &&& last.len() == 2
            &&& last[0] is Locked
            &&& last[1] is Unlocked
            &&& table_step(
                last[0]->Locked_0@,
                TableUse::Send(peer, channel, packet, sent),
                last[1]->Unlocked_0@,
            )
        }),
{
}

/// To observe an event is to use the table as the event says, or not at all.
pub proof fn routing_uses_the_table(
    rx: &mut SimpleWebRtcRx,
    event: SimpleWebRtcEvent,
    out: Option<SimpleWebRtcEvent>,
)
    requires
        call_ensures(SimpleWebRtcRx::route, (rx, event), out),
    ensures
        use_of(event) is None ==> final(rx).table() == old(rx).table(),
        use_of(event) is Some ==> {
            let last = final(rx).table().handle().sessions().last();
            &&& final(rx).table().handle().opened() == old(rx).table().handle().opened() + 1
            &&& final(rx).table().handle().sessions() ==
                old(rx).table().handle().sessions().push(last)
            &&& last.len() == 2
            &&& last[0] is Locked
            &&& last[1] is Unlocked
            &&& table_step(last[0]->Locked_0@, use_of(event)->0, last[1]->Unlocked_0@)
        },
        receiver_step(
            old(rx).streams(),
            ReceiverUse::Route(event, out),
            final(rx).streams(),
        ),
{
}

/// To take a stream is to take that stream.
pub proof fn taking_a_stream_uses_the_receiver(
    rx: &mut SimpleWebRtcRx,
    peer: PeerId,
    channel: ChannelIndex,
    taken: Result<DataChannelStream, TakeError>,
)
    requires
        call_ensures(SimpleWebRtcRx::take_stream, (rx, peer, channel), taken),
    ensures
        receiver_step(
            old(rx).streams(),
            ReceiverUse::Take(peer, channel, taken),
            final(rx).streams(),
        ),
{
}

} // verus!
