//! Protocol core of a line- and length-framed request/response server.
//!
//! A connection starts with one textual handshake line and then carries
//! count- and length-prefixed request frames. This crate holds the parts that
//! decide: where a frame ends, how its fields are read, which command it
//! names, what is answered, and when a connection reads, writes or closes.
//! Sockets and threads are left to the caller.

pub mod cmd;
pub mod connection;
pub mod cursor;
pub mod decimal;
pub mod foreign;
pub mod message;
pub mod parse;
pub mod shutdown;
pub mod wire;

pub use cmd::Command;
pub use connection::Connection;
pub use cursor::Cursor;
pub use message::Message;
pub use parse::{Parse, ParseError};
pub use shutdown::Shutdown;
