//! A multi-threaded server for framed protocols over TCP. The user writes a
//! `Handler` that decodes, encodes and handles frames; the library keeps the
//! state of every client socket and decides, for each message and readiness
//! event of the client event loop, what is registered, shut down, read and
//! written.

pub mod async_reader;
pub mod client_handler;
pub mod connection;
pub mod event_loop_message;
pub mod event_set;
pub mod frame_queue;
pub mod handler;
pub mod io_error;
pub mod server;
pub mod socket;
pub mod token_slab;

pub use async_reader::{AsyncReader, ByteCursor};
pub use connection::Connection;
pub use event_set::EventSet;
pub use handler::{ConnectionEndedReason, Handler};
pub use server::Server;
pub use token_slab::TokenSlab;
