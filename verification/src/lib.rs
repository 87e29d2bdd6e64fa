//! The logic of a WebRTC socket: full-mesh peer-to-peer data channels between the members of a room
//! that a signaling server keeps.
//!
//! What happens on the network is somebody else's. This crate is told of it, passes on what is to
//! be passed on, and decides what to do next.
//!
//! - [`signaling`] stands between a node and its signaling server.
//! - [`message_loop`] stands between a socket, its signaling server and its peers; what holds of it
//!   over everything that happens is in [`loop_laws`].
//! - [`peer`] makes one conversation of the data channels to a peer, and [`handlers`] lets the
//!   channels share it under a [`peer_lock`]; what a conversation is like is in [`conversation`],
//!   and what the channels report together in [`handler_laws`].
//! - [`simple`] is a socket that can be taken apart: into a transmitter, which writes to the
//!   channels in a [`tx_table`] that is shared as a [`shared_table`] under a [`table_lock`], and a
//!   receiver. What holds of them is in [`table_laws`] and [`stream_laws`].
//! - [`calls`] tells, for each function, what comes of a call of it.
//! - [`channel`] has the queues that all of these send through, [`data_channel`] what packets are
//!   written to, [`protocol`] the values exchanged, and [`error`] what can go wrong.
pub mod calls;
pub mod channel;
pub mod conversation;
pub mod data_channel;
pub mod error;
pub mod handler_laws;
pub mod handlers;
pub mod loop_laws;
pub mod message_loop;
pub mod peer;
pub mod peer_lock;
pub mod protocol;
pub mod shared_table;
pub mod signaling;
pub mod simple;
pub mod stream_laws;
pub mod table_laws;
pub mod table_lock;
pub mod tx_table;
