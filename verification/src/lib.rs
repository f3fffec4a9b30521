//! The core of a database client that speaks a PostgreSQL-style wire
//! protocol, as plain logic on bytes and values: it reads no socket and no
//! clock.
//!
//! - [`wire`], [`frame`], [`message`], [`frontend`]: the codec, from
//!   big-endian integers up to typed messages.
//! - [`query_string`]: SQL text that is marked as safe to execute.
//! - [`statement`], [`cache`]: the names of prepared statements and the
//!   statements that a connection has prepared.
//! - [`connection`], [`session`], [`pipeline`]: the states of a connection,
//!   the messages of its requests, and the answers to them.
//! - [`pool`]: the bookkeeping of a pool of connections.
//! - [`backend_key_data`], [`error`]: the key for cancel requests, and the
//!   kinds of failure.

pub mod backend_key_data;
pub mod cache;
pub mod connection;
pub mod error;
pub mod frame;
pub mod frontend;
pub mod message;
pub mod pipeline;
pub mod pool;
pub mod query_string;
pub mod session;
pub mod statement;
pub mod wire;
