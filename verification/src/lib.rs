//! Authorization core for a chat-bot style application.
//!
//! The crate decides which users may issue privileged commands, which
//! conversational scopes (groups and threads) the bot may act in, and how new
//! administrators are admitted.  Three tightly coupled concerns share one
//! store and one consistency discipline:
//!
//! * a forest-shaped admin hierarchy with ownership-chain-based removal
//!   rights,
//! * group- and thread-level whitelisting that gates all non-admin
//!   functionality, and
//! * a two-state "become admin" request workflow.
//!
//! The store itself is a plain in-memory value ([`store::DB`]); every
//! operation on it is specified and verified.  Transport, persistence and
//! message formatting live outside this crate and hand it plain values.

pub mod engine;
pub mod hierarchy;
pub mod laws;
pub mod model;
pub mod parse;
pub mod records;
pub mod store;
