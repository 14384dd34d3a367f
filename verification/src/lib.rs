//! Toasty on [Cloudflare D1](https://developers.cloudflare.com/d1/), without
//! the I/O.
//!
//! D1 is SQLite, so Toasty's SQLite serializer writes the statements; how they
//! reach the database is what differs. Each operation of Toasty's engine is
//! turned into what has to be sent, and each answer into what the engine
//! expects. The sending itself is left to the caller.
//!
//! # Transports
//!
//! - The HTTP API ([`http`]): works from anywhere with an API token.
//! - The Workers binding ([`binding`]): a handle that the runtime gives to the
//!   isolate.
//!
//! [`transport`] dispatches between the two.
//!
//! # From an operation to its answer
//!
//! [`connection`] plans an operation, with [`value`] for the values that it
//! binds, and [`response`] makes the answer of the outcome. [`batch`] puts
//! several statements into one request, with their values written into the
//! text by [`literal`]. [`schema`] and [`migration`] make a [`script`]: a list
//! of statements that are sent one after the other until one fails.
//!
//! # Caveats
//!
//! - Neither transport has interactive transactions: they are refused, and
//!   migrations apply statement by statement. Writes that must commit together
//!   are sent as one batch.
//! - Integers beyond 2^53 would lose precision in JSON transit, so they are
//!   refused when they are bound. That holds of the identifiers of migrations
//!   too.
//! - `Bytes` and UUID columns are unsupported over the Workers binding, which
//!   binds no arrays: there a blob that is bound goes out as JSON text and does
//!   not come back as a blob. Over the HTTP API blobs and UUIDs keep their
//!   values.

pub mod batch;
pub mod binding;
pub mod connection;
pub mod driver;
pub mod error;
pub mod http;
pub mod json;
pub mod literal;
pub mod migration;
pub mod outcome;
pub mod response;
pub mod schema;
pub mod script;
pub mod sql;
pub mod text;
pub mod transport;
pub mod value;
