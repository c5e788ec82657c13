//! A client library for the services of a peer-to-peer overlay daemon: the
//! framed messages that go over the connection, the conversation with the
//! identity service, and the channel multiplexer of the cadet service.
//!
//! The library does no I/O. What goes to the daemon is written to a
//! `service::Stream`, what comes from it is read from one; the connection
//! itself belongs to the caller.

pub mod cadet;
pub mod crypto;
pub mod error;
pub mod future;
pub mod identity;
pub mod service;

pub use error::{Error, Result};
