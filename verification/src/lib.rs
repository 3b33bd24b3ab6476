//! Core of an SSH (protocol version 2) client and server library: the binary
//! packet codec, algorithm negotiation, key exchange and key derivation, the
//! session state machine and the channel multiplexer, each stated over byte
//! sequences and proved against its contract.
//!
//! The library does no input or output. A [`session::Session`] is handed the
//! bytes that came from the peer and holds the bytes that are to go to it; a
//! [`connect::Connect`] is handed the messages that a session delivers and
//! holds those that its channels have to send. The cryptographic primitives
//! are called, not computed: [`crypto`] says what is believed of them.

pub mod algorithm;
pub mod connect;
pub mod crypto;
pub mod error;
pub mod kex;
pub mod kexinit;
pub mod message;
pub mod namelist;
pub mod session;
pub mod transport;
pub mod wire;

pub use error::{Error, Result};
pub use message::Message;
pub use session::Session;
