//! Peer session layer: channel registration, message framing, and a
//! tick-driven session that multiplexes logical message channels over a
//! set of physical links of differing transport kinds.
//!
//! The session itself performs no I/O. A driver loop binds sockets,
//! feeds received bytes into the session, and transmits the frames the
//! session routes; every decision about channels, framing, buffering and
//! routing is made here, under contract.

pub mod channel;
pub mod errors;
pub mod framing;
pub mod link;
pub mod session;
