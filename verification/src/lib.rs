//! State replay for a gateway-sharing proxy.
//!
//! Each upstream shard feeds a store of entities. From that store this library
//! rebuilds what a newly connected consumer expects to receive: a session-ready
//! payload followed by one event per guild, stamped with consecutive sequence
//! numbers. It also answers point queries by scanning the stores of every
//! shard.
//!
//! - [`entities`]: the records of a store, as this library carries them.
//! - [`store`]: a shard's store, what it holds, and the calls into it.
//! - [`snapshot`]: the joins that turn what was read into a nested guild.
//! - [`reading`]: what a reading of a store gives, and what follows from it.
//! - [`reader`]: reading a guild's children and rebuilding the guild.
//! - [`replay`]: the ready payload, the guild events and their sequence.
//! - [`unavailable`]: the record of guilds that are known but not available.
//! - [`query`]: point queries and membership probes across shards.
//! - [`ident`]: identifiers as decimal text.
//! - [`json`]: the JSON values that payloads and answers are made of.

pub mod entities;
pub mod ident;
pub mod json;
pub mod query;
pub mod reader;
pub mod reading;
pub mod replay;
pub mod snapshot;
pub mod store;
pub mod unavailable;
