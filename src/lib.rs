//! Two-party additive secret sharing over the BLS12-377 scalar field and
//! pairing groups.
//!
//! Every value is tagged public (both parties hold it) or shared (each party
//! holds a summand). Operations run on one party's view and route by the
//! tags: local where at most one operand is shared, through a Beaver triple
//! and two openings where both are. The byte stream between the parties is
//! the caller's; this crate frames the messages, counts the traffic, and
//! decides what is sent and what is made of what comes back.
pub mod field;
pub mod groups;
pub mod shared;
pub mod shared_groups;
pub mod protocol;
pub mod group_protocol;
pub mod laws;
pub mod channel;
pub mod session;
pub mod merkle;
pub mod compute;
pub mod transcript;
