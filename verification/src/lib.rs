//! Core of a CQL client: wire framing, typed value marshalling, row mapping,
//! node selection, connection bookkeeping and the request life cycle.
//!
//! Every function is verified against its contract. Network traffic is left
//! to the caller: the session hands out the bytes to send and takes back the
//! bytes that arrived.

pub mod wire;
pub mod error;
pub mod value;
pub mod frame;
pub mod query;
pub mod rows;
pub mod mapper;
pub mod record;
pub mod balancer;
pub mod pool;
pub mod response;
pub mod session;
pub mod config;
