//! Chat-channel guard: a blocklist of bad links checked against every
//! message, and a per-channel controller for one resurfacing sticky message.
//!
//! Everything here is plain computation over plain values; the chat
//! connection, file and network access live with the caller.

pub mod text;
pub mod normalize;
pub mod snapshot;
pub mod store;
pub mod sticky;
pub mod inspect;
