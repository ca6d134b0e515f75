//! A DNS-over-HTTPS forwarding gateway: the message model, the TTL-aware
//! LRU response cache, and the decisions of the upstream transport, the
//! bootstrap resolver and the UDP listener.

pub mod bootstrap;
pub mod cache;
pub mod cli;
pub mod error;
pub mod local;
pub mod lru_store;
pub mod message;
pub mod upstream;
