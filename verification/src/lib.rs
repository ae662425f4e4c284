//! A witness network for an authenticated key directory: witnesses co-sign
//! successive directory roots so that every sequence number has at most one
//! quorum-certified root.

pub mod aggregator;
pub mod buffer;
pub mod codec;
pub mod config;
pub mod crypto;
pub mod encoding;
pub mod error;
pub mod laws;
pub mod messages;
pub mod publisher;
pub mod transport;
pub mod witness;
