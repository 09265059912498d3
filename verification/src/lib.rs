//! A typed, bidirectional message transport for client/server applications.
//!
//! The crate holds the protocol itself: the length-prefixed frame format, the
//! envelope that separates client-originated from server-originated messages,
//! and the state machines that decide which events a connection, a server
//! listener and a reconnecting client deliver. Sockets, threads and the payload
//! encoding are driven from outside, against the contracts stated here.

pub mod error;
pub mod frame;
pub mod message;
pub mod event;
pub mod connection;
pub mod client;
pub mod server;
pub mod checker_spiral;
pub mod logger;
pub mod ui_manager;
