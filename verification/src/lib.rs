//! Verified core of a real-time cursor-presence hub.
//!
//! Many clients report a normalized 2D cursor position over a persistent
//! socket; a single coordinator tracks who is connected, coalesces position
//! updates and removals, and broadcasts compact binary diffs to every other
//! client at a bounded rate. This crate holds the decision logic: the wire
//! codec, the broadcast hub state machine, the throttle-and-debounce
//! scheduler, the per-connection session rules, and the two textual control
//! messages. The socket server around it performs the I/O and feeds plain
//! values in and out.

pub mod access;
pub mod codec;
pub mod control;
pub mod hub;
pub mod position;
pub mod sched;
pub mod session;
