//! A verified core for an exclusive-resource checkout system.
//!
//! The library owns the logic of handing live, non-duplicable resource
//! handles to one caller at a time: a single-owner checkout actor, a
//! sharded registry with round-robin placement, the connection-identifier
//! grammar, and the request/response envelopes of the routing layer.
//! Everything that talks to the outside world (channels, sockets, the
//! backing store) lives around this crate and hands it plain values.

pub mod actor;
pub mod adapter;
pub mod operations;
pub mod registry;
pub mod routing;
pub mod split;
pub mod text;
pub mod transport;
pub mod urls;
