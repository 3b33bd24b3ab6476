//! The key exchange: what the two sides agree on, the hash that binds the
//! exchange, and the keys that come out of it.

pub mod ecdh;
pub mod exchange;
pub mod gex;
pub mod group;
pub mod keys;
pub mod negotiate;
