//! Remote access to a graph database: the value model, the wire codec, the
//! connection and streaming decisions of the two transactional clients, and the
//! paginated vertex traversal. Every function here is free of I/O; a caller
//! moves the bytes.
//!
//! - [`wire`], [`scalars`], [`composites`]: the codec and its building blocks.
//! - [`models`], [`entities`], [`queries`], [`items`]: the graph value model.
//! - [`errors`], [`reply`]: the failures of an operation and the envelope of an
//!   answer.
//! - [`client_datastore`]: the connection-per-call client and its handshake.
//! - [`client`]: the streaming client, its output stream and its bulk load.
//! - [`traversal`]: the pagination and the failure slot of the vertex traversal.

pub mod client;
pub mod client_datastore;
pub mod composites;
pub mod entities;
pub mod errors;
pub mod items;
pub mod models;
pub mod queries;
pub mod reply;
pub mod scalars;
pub mod traversal;
pub mod wire;
