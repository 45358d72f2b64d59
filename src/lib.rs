//! Coordination core of a database high-availability controller: the framed
//! binary message protocol between coordinator and node agents, the payloads
//! it carries, and the namespace rules of the persistent key-value store.

pub mod frame;
pub mod payload;
pub mod protocol;
pub mod store;
