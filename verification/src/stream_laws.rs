//! What holds of a receiver over every stream that is taken from it and every event on it.
use crate::channel::Outbox;
use crate::protocol::{ChannelIndex, Packet, PeerId};
use crate::simple::{route_step, take_stream_step, DataChannelStream, SimpleWebRtcEvent};
use crate::tx_table::TakeError;
use vstd::prelude::*;

verus! {

/// Where the packets of each stream go.
pub type Streams = Map<(PeerId, ChannelIndex), Outbox<Packet>>;

/// A use of the receiver, with what came of it.
pub ghost enum ReceiverUse {
    Take(PeerId, ChannelIndex, Result<DataChannelStream, TakeError>),
    Route(SimpleWebRtcEvent, Option<SimpleWebRtcEvent>),
}

/// `before` becomes `after` by `used`.
pub open spec fn receiver_step(before: Streams, used: ReceiverUse, after: Streams) -> bool {
    match used {
        ReceiverUse::Take(peer, channel, taken) => take_stream_step(
            before,
            peer,
            channel,
            after,
            taken,
        ),
        ReceiverUse::Route(event, out) => route_step(before, event, after, out),
    }
}

/// The receiver went through `streams` by `uses`.
pub open spec fn receiver_run(streams: Seq<Streams>, uses: Seq<ReceiverUse>) -> bool {
    &&& streams.len() == uses.len() + 1
    &&& forall|i: int|
        #![trigger uses[i]]
        0 <= i < uses.len() ==> receiver_step(streams[i], uses[i], streams[i + 1])
}

/// The events among `uses`, in order.
pub open spec fn events_of(uses: Seq<ReceiverUse>) -> Seq<SimpleWebRtcEvent>
    decreases uses.len(),
{
    if uses.len() == 0 {
        Seq::empty()
    } else {
        let earlier = events_of(uses.drop_last());
        match uses.last() {
            ReceiverUse::Route(event, _) => earlier.push(event),
            ReceiverUse::Take(_, _, _) => earlier,
        }
    }
}

/// The events that came out among `uses`, in order.
pub open spec fn output_of(uses: Seq<ReceiverUse>) -> Seq<SimpleWebRtcEvent>
    decreases uses.len(),
{
    if uses.len() == 0 {
        Seq::empty()
    } else {
        let earlier = output_of(uses.drop_last());
        match uses.last() {
            ReceiverUse::Route(_, Some(out)) => earlier.push(out),
            _ => earlier,
        }
    }
}

/// The packets that came over `channel` of `peer` among `events`, in order.
pub open spec fn packets_over(
    peer: PeerId,
    channel: ChannelIndex,
    events: Seq<SimpleWebRtcEvent>,
) -> Seq<Packet>
    decreases events.len(),
{
    if events.len() == 0 {
        Seq::empty()
    } else {
        let earlier = packets_over(peer, channel, events.drop_last());
        match events.last() {
            SimpleWebRtcEvent::Packet(from_peer, number, packet) => if from_peer == peer && number
                == channel {
                earlier.push(packet)
            } else {
                earlier
            },
            _ => earlier,
        }
    }
}

/// The events among `events` that are no packets of a stream in `streams`, in order.
pub open spec fn without_packets_of(
    streams: Streams,
    events: Seq<SimpleWebRtcEvent>,
) -> Seq<SimpleWebRtcEvent>
    decreases events.len(),
{
    if events.len() == 0 {
        Seq::empty()
    } else {
        let earlier = without_packets_of(streams, events.drop_last());
        match events.last() {
            SimpleWebRtcEvent::Packet(peer, channel, _) => if streams.contains_key(
                (peer, channel),
            ) {
                earlier
            } else {
                earlier.push(events.last())
            },
            _ => earlier.push(events.last()),
        }
    }
}

/// A run without its last use.
proof fn run_before_last(streams: Seq<Streams>, uses: Seq<ReceiverUse>)
    requires
        receiver_run(streams, uses),
        uses.len() > 0,
    ensures
        receiver_run(streams.drop_last(), uses.drop_last()),
        streams.drop_last().last() == streams[uses.len() - 1],
        streams.drop_last()[0] == streams[0],
        receiver_step(streams[uses.len() - 1], uses.last(), streams.last()),
{
    let earlier = uses.drop_last();
    assert forall|i: int| #![trigger earlier[i]] 0 <= i < earlier.len() implies receiver_step(
        streams.drop_last()[i],
        earlier[i],
        streams.drop_last()[i + 1],
    ) by {
        assert(earlier[i] == uses[i]);
    }
    assert(uses[uses.len() - 1] == uses.last());
}

/// A stream that was taken cannot be taken again.
pub proof fn stream_is_taken_once(
    streams: Seq<Streams>,
    uses: Seq<ReceiverUse>,
    peer: PeerId,
    channel: ChannelIndex,
)
    requires
        receiver_run(streams, uses),
        streams[0].contains_key((peer, channel)),
    ensures
        streams.last().contains_key((peer, channel)),
        forall|i: int|
            #![trigger uses[i]]
            0 <= i < uses.len() ==> (uses[i] matches ReceiverUse::Take(of_peer, number, taken)
                ==> of_peer == peer ==> number == channel ==> taken == Err::<DataChannelStream, _>(
                TakeError::AlreadyTaken,
            )),
    decreases uses.len(),
{
    if uses.len() > 0 {
        run_before_last(streams, uses);
        let earlier = uses.drop_last();
        stream_is_taken_once(streams.drop_last(), earlier, peer, channel);
        assert forall|i: int| #![trigger uses[i]] 0 <= i < uses.len() implies (
        uses[i] matches ReceiverUse::Take(of_peer, number, taken) ==> of_peer == peer ==> number
            == channel ==> taken == Err::<DataChannelStream, _>(TakeError::AlreadyTaken)) by {
            if i < uses.len() - 1 {
                assert(earlier[i] == uses[i]);
            }
        }
    }
}

/// A stream gets the packets that come over its channel from when it is taken, each once and in
/// order, and no others.
pub proof fn stream_gets_its_packets_in_order(
    streams: Seq<Streams>,
    uses: Seq<ReceiverUse>,
    peer: PeerId,
    channel: ChannelIndex,
    stream: DataChannelStream,
)
    requires
        receiver_run(streams, uses),
        uses.len() > 0,
        uses[0] == ReceiverUse::Take(peer, channel, Ok(stream)),
    ensures
        streams.last().contains_key((peer, channel)),
        streams.last()[(peer, channel)].channel() == stream.rx.channel(),
        streams.last()[(peer, channel)].offered() == packets_over(peer, channel, events_of(uses)),
    decreases uses.len(),
{
    run_before_last(streams, uses);
    let earlier = uses.drop_last();
    if uses.len() > 1 {
        assert(earlier[0] == uses[0]);
        stream_gets_its_packets_in_order(streams.drop_last(), earlier, peer, channel, stream);
        match uses.last() {
            ReceiverUse::Route(event, _) => {
                assert(events_of(uses).drop_last() =~= events_of(earlier));
            },
            ReceiverUse::Take(_, _, _) => {},
        }
    } else {
        assert(events_of(earlier) =~= Seq::empty());
        assert(packets_over(peer, channel, events_of(uses)) =~= Seq::empty());
    }
}

/// No event comes out that is a packet of a stream that was taken before, and every other event
/// comes out, once and in order: between two times that a stream is taken, what comes out is what
/// happened without the packets of the streams.
pub proof fn other_events_come_out_in_order(streams: Seq<Streams>, uses: Seq<ReceiverUse>)
    requires
        receiver_run(streams, uses),
        forall|i: int| #![trigger uses[i]] 0 <= i < uses.len() ==> uses[i] is Route,
    ensures
        streams.last().dom() == streams[0].dom(),
        output_of(uses) == without_packets_of(streams[0], events_of(uses)),
    decreases uses.len(),
{
    if uses.len() > 0 {
        run_before_last(streams, uses);
        let earlier = uses.drop_last();
        assert forall|i: int|
            #![trigger earlier[i]]
            0 <= i < earlier.len() implies earlier[i] is Route by {
            assert(earlier[i] == uses[i]);
        }
        other_events_come_out_in_order(streams.drop_last(), earlier);
        assert(uses[uses.len() - 1] == uses.last());
        assert(events_of(uses).drop_last() =~= events_of(earlier));
        let during = streams[uses.len() - 1];
        assert forall|key: (PeerId, ChannelIndex)|
            during.contains_key(key) == #[trigger] streams[0].contains_key(key) by {
            assert(during.dom().contains(key) == streams[0].dom().contains(key));
        }
        assert(streams.last().dom() =~= during.dom());
    }
}

} // verus!
