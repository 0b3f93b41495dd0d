//! Core of a controller for networked smart lights that speak a stateless,
//! UDP-style request/response protocol.
//!
//! The modules here hold the logic that is worth proving: matching unordered,
//! possibly-missing replies to outstanding requests (`correlator`),
//! deduplicating devices seen during a broadcast discovery window
//! (`discovery`), the in-memory device registry (`registry`), the composite
//! device commands (`executor`), and the lifecycle and job queue of the
//! background scheduler that runs them (`bridge`). Sockets, timers and the
//! wire codec live outside this crate and hand these modules plain values.

pub mod bridge;
pub mod correlator;
pub mod discovery;
pub mod error;
pub mod executor;
pub mod message;
pub mod registry;
pub mod seqsel;
