//! A streaming RPC runtime core: the wire protocol, the server's dispatch
//! decisions and capability allocator, and the client's call preparation and
//! stream pool, each stated and proved with Verus.
//!
//! Transport and async plumbing live outside this crate; everything here is
//! plain computation on bytes and state.

pub mod wire;
pub mod protocol;
pub mod codec;
pub mod allocator;
pub mod multipart;
pub mod server;
pub mod client;
pub mod stream_pool;
pub mod service;
