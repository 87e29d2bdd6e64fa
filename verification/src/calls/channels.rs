//! What each call on a channel does, told by what goes in and what comes out.
use crate::channel::{promise, unbounded, Awaited, Inbox, Outbox, Promise};
use crate::data_channel::{BoxDataChannel, MatchboxDataChannel};
use crate::error::PacketSendError;
use crate::protocol::{Packet, PeerId, PeerRequest, SignalPeer, SocketConfig};
use futures_channel::mpsc;
use futures_channel::oneshot;
use vstd::prelude::*;

verus! {

/// The two ends of a new queue belong to one channel, through which nothing went.
pub proof fn new_queue_is_empty<T>(ends: (Outbox<T>, Inbox<T>))
    requires
        call_ensures(unbounded::<T>, (), ends),
    ensures
        ends.0.channel() == ends.1.channel(),
        ends.0.offered().len() == 0,
        ends.0.accepted().len() == 0,
        ends.0.handed_out() == 0,
{
}

/// A message is offered once. If the channel does not take it, it comes back unchanged.
pub proof fn message_is_taken_or_comes_back<T>(
    outbox: &mut Outbox<T>,
    message: T,
    sent: Result<(), T>,
)
    requires
        call_ensures(Outbox::<T>::unbounded_send, (outbox, message), sent),
    ensures
        final(outbox).channel() == old(outbox).channel(),
        final(outbox).handed_out() == old(outbox).handed_out(),
        final(outbox).offered() == old(outbox).offered().push(message),
        sent is Ok ==> final(outbox).accepted() == old(outbox).accepted().push(message),
        sent matches Err(back) ==> {
            &&& back == message
            &&& final(outbox).accepted() == old(outbox).accepted()
        },
{
}

/// A channel whose receiving end is at hand takes the message.
pub proof fn message_is_taken_when_there_is_an_inbox<T>(
    outbox: &mut Outbox<T>,
    message: T,
    inbox: &Inbox<T>,
)
    requires
        call_ensures(Outbox::<T>::send_to, (outbox, message, inbox), ()),
    ensures
        final(outbox).channel() == old(outbox).channel(),
        final(outbox).handed_out() == old(outbox).handed_out(),
        final(outbox).offered() == old(outbox).offered().push(message),
        final(outbox).accepted() == old(outbox).accepted().push(message),
{
}

/// Another end belongs to the same channel, and is counted.
pub proof fn another_end_is_counted<T>(outbox: &mut Outbox<T>, end: Outbox<T>)
    requires
        call_ensures(Outbox::<T>::another, (outbox,), end),
    ensures
        end.channel() == old(outbox).channel(),
        end.offered().len() == 0,
        end.accepted().len() == 0,
        end.handed_out() == 0,
        final(outbox).channel() == old(outbox).channel(),
        final(outbox).offered() == old(outbox).offered(),
        final(outbox).accepted() == old(outbox).accepted(),
        final(outbox).handed_out() == old(outbox).handed_out() + 1,
{
}

/// The receiver that is handed out is the one inside.
pub proof fn inbox_hands_out_its_receiver<T>(inbox: Inbox<T>, rx: mpsc::UnboundedReceiver<T>)
    requires
        call_ensures(Inbox::<T>::into_receiver, (inbox,), rx),
    ensures
        rx == inbox.receiver(),
{
}

/// The two ends of a new promise belong to one channel, and the value is owed.
pub proof fn new_promise_is_owed<T>(ends: (Promise<T>, Awaited<T>))
    requires
        call_ensures(promise::<T>, (), ends),
    ensures
        ends.0.channel() == ends.1.channel(),
        ends.0.pending(),
        ends.0.offered() is None,
        !ends.0.accepted(),
{
}

/// The value that is promised is handed over once. If nobody waits for it, it comes back.
pub proof fn promise_is_kept_once<T>(promised: &mut Promise<T>, value: T, sent: Result<(), T>)
    requires
        old(promised).pending(),
        call_ensures(Promise::<T>::send, (promised, value), sent),
    ensures
        final(promised).channel() == old(promised).channel(),
        final(promised).offered() == Some(value),
        !final(promised).pending(),
        final(promised).accepted() <==> sent is Ok,
        sent matches Err(back) ==> back == value,
{
}

/// Whether a value is still owed can be asked.
pub proof fn asking_tells_what_is_owed<T>(promised: &Promise<T>, pending: bool)
    requires
        call_ensures(Promise::<T>::is_pending, (promised,), pending),
    ensures
        pending == promised.pending(),
{
}

/// The receiver that is handed out is the one inside.
pub proof fn awaited_hands_out_its_receiver<T>(awaited: Awaited<T>, rx: oneshot::Receiver<T>)
    requires
        call_ensures(Awaited::<T>::into_receiver, (awaited,), rx),
    ensures
        rx == awaited.receiver(),
{
}

/// A packet that is sent over a queue is offered to it, whatever the packet is; an error says that
/// nobody took it.
pub proof fn queue_takes_packets(
    outbox: &mut Outbox<Packet>,
    packet: Packet,
    sent: Result<(), PacketSendError>,
)
    requires
        call_ensures(
            <Outbox<Packet> as MatchboxDataChannel>::send,
            (outbox, packet),
            sent,
        ),
    ensures
        final(outbox).channel() == old(outbox).channel(),
        final(outbox).offered() == old(outbox).offered().push(packet),
        sent is Ok ==> final(outbox).accepted() == old(outbox).accepted().push(packet),
        sent is Err ==> final(outbox).accepted() == old(outbox).accepted(),
{
}

/// A packet that is sent over a data channel of whatever kind is written to it, whatever the packet
/// is.
pub proof fn data_channel_takes_packets(
    channel: &mut BoxDataChannel,
    packet: Packet,
    sent: Result<(), PacketSendError>,
)
    requires
        call_ensures(BoxDataChannel::send, (channel, packet), sent),
    ensures
        final(channel).0.written() == old(channel).0.written().push(packet),
{
}

/// The way to signal a peer names the peer, and goes where it was told.
pub proof fn signal_peer_is_as_told(
    id: PeerId,
    sender: Outbox<PeerRequest>,
    signal_peer: SignalPeer,
)
    requires
        call_ensures(SignalPeer::new, (id, sender), signal_peer),
    ensures
        signal_peer.id == id,
        signal_peer.sender == sender,
{
}

/// Peers can be connected to when there is a channel, and the channels have numbers of 16 bits.
pub proof fn channels_can_be_numbered(config: &SocketConfig, yes: bool)
    requires
        call_ensures(SocketConfig::can_connect_peers, (config,), yes),
    ensures
        yes <==> 1 <= config.channels@.len() <= 65536,
{
}

} // verus!
