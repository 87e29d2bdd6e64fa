//! A data channel to a peer, as the socket writes to it.
use crate::channel::Outbox;
use crate::error::PacketSendError;
use crate::protocol::Packet;
use vstd::prelude::*;

verus! {

/// A data channel that packets can be written to.
pub trait MatchboxDataChannel: Send {
    /// The packets written to the channel, in order.
    spec fn written(&self) -> Seq<Packet>;

    /// Writes `packet` to the channel.
    fn send(&mut self, packet: Packet) -> (sent: Result<(), PacketSendError>)
        ensures
            final(self).written() == old(self).written().push(packet),
    ;
}

/// A queue that somebody else empties into the network.
impl MatchboxDataChannel for Outbox<Packet> {
    open spec fn written(&self) -> Seq<Packet> {
        self.offered()
    }

    fn send(&mut self, packet: Packet) -> (sent: Result<(), PacketSendError>)
        ensures
            old(self).after_offer(packet, sent is Ok, *final(self)),
    {
        match self.unbounded_send(packet) {
            Ok(()) => Ok(()),
            Err(_) => Err(PacketSendError),
        }
    }
}

/// A data channel of whatever kind.
pub struct BoxDataChannel(pub Box<dyn MatchboxDataChannel>);

impl BoxDataChannel {
    /// The packets written to the channel, in order.
    pub open spec fn written(&self) -> Seq<Packet> {
        self.0.written()
    }

    /// Writes `packet` to the channel.
    pub fn send(&mut self, packet: Packet) -> (sent: Result<(), PacketSendError>)
        ensures
            final(self).written() == old(self).written().push(packet),
    {
        self.0.send(packet)
    }
}

} // verus!
