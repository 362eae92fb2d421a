//! Wire protocol of a remote input injector.
//!
//! A peer sends short packets over a byte stream; each packet, one to four
//! bytes delivered by a single read, stands for exactly one keyboard or mouse
//! event. This crate holds the protocol itself: the events, the packet
//! decoder, the mapping from events to calls on the input controller, and the
//! state machine that a connection's read loop follows. Sockets and the
//! controller that touches the operating system stay with the caller.

pub mod event;
pub mod packet;
pub mod text;
pub mod dispatch;
pub mod connection;
pub mod interleave;
