//! Verified core of a radio-beacon node.
//!
//! The node counts discrete edge events raised from an interrupt context,
//! aggregates them into a fixed-size sliding window of per-tick counts,
//! discovers peers reactively from inbound broadcast traffic, and broadcasts
//! the rolling sum over an unreliable, connectionless transport on a
//! drift-free cadence.  The transport itself and all hardware access stay
//! outside this crate; everything here is plain, verified logic.

pub mod edge_counter;
pub mod payload;
pub mod peer;
pub mod scheduler;
pub mod window;
