//! What each call does, told by what goes in and what comes out.
//!
//! Each law here is about a call of one function: it starts from what the function ensures, and says
//! for all arguments what came of the call, in terms of what was sent, stored and returned.
pub mod acceptance;
pub mod channels;
pub mod handlers;
pub mod loops;
pub mod peers;
pub mod runs;
pub mod shared_tables;
pub mod signaling;
pub mod sockets;
pub mod tables;
