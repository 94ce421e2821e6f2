//! Decoding, query-string parsing and authentication of vote notifications
//! delivered to a webhook endpoint.

pub mod decimal;
pub mod query_map;
pub mod query;
pub mod vote;

pub use query_map::QueryMap;
pub use vote::{DecodeError, IncomingVote, Payload, Vote};
