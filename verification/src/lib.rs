//! Networking core of a client for a subscription-oriented database service.
//!
//! * [`ws`]: the handshake, as plain values: the upgrade request with its
//!   key, accept key and credentials, and what the response says about the
//!   client's identity.
//! * [`messages`], [`schema`]: the typed messages, their column values, and
//!   rows held to the columns of a table.
//! * [`json`], [`codec`], [`encode`], [`envelope`], [`round_trip`]: the text
//!   side of the wire codec, on JSON trees, and the laws that tie reading
//!   and writing together.
//! * [`binary`]: the binary side of the wire codec, on bytes.
//! * [`web_socket`]: the events of a connection, the state machine that the
//!   connection task follows, and the facade that a polling caller holds.
//! * [`pub_sub`]: the registry that fans one published value out to the
//!   subscribers of its channel.
//! * [`network_manager`], [`game`], [`server`]: what the two-player game
//!   that uses the client decides from plain values, on its own side and in
//!   its module on the service.
//!
//! Sockets, tasks and waiting are not here: the program around the library
//! owns them, feeds what happens to [`web_socket::step`] and does what it
//! is told.

pub mod binary;
pub mod codec;
pub mod encode;
pub mod envelope;
pub mod errors;
pub mod game;
pub mod json;
pub mod messages;
pub mod network_manager;
pub mod pub_sub;
pub mod round_trip;
pub mod schema;
pub mod server;
pub mod web_socket;
pub mod ws;
