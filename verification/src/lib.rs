//! Cooperative scheduling of coroutines over readiness notifications.
//!
//! The crate holds the decisions of a single-threaded scheduler: which token a
//! wait receives, which coroutine a readiness event resumes, and when the
//! drive loop has nothing left to wait for. Polling, registration and the
//! coroutine switches themselves are carried out by the caller, which feeds
//! their outcomes back in.

pub mod event;
pub mod laws;
pub mod policy;
pub mod processor;
pub mod protocol;
pub mod schedule;
pub mod slots;
pub mod wait_table;
