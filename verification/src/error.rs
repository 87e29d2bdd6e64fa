//! What can go wrong between a node, its signaling server and its peers.
use crate::protocol::PeerEvent;
use vstd::prelude::*;

verus! {

/// Why signaling stopped.
#[derive(Debug, PartialEq, Eq)]
pub enum SignalingError {
    /// There is nobody left to hand this event to.
    Undeliverable(PeerEvent),
    /// No more requests will come.
    StreamExhausted,
    /// The signaling server sent a message in a format that is not understood.
    UnknownFormat,
    /// What a signalling implementation reports of its own.
    Implementation(String),
}

/// A packet could not be sent, as the socket was dropped.
#[derive(Debug, PartialEq, Eq)]
pub struct PacketSendError;

impl PacketSendError {
    /// The error in words.
    pub fn message(&self) -> (text: String)
        ensures
            text@ == "The socket was dropped and package could not be sent"@,
    {
        "The socket was dropped and package could not be sent".to_string()
    }
}

/// Why an event of a data channel could not be handled.
#[derive(Clone, Copy, Debug, PartialEq, Eq, Structural)]
pub enum ChannelEventError {
    /// The task that the peer's messages go to is gone.
    Undelivered,
    /// More channels opened than the peer has.
    UnexpectedOpen,
}

} // verus!
