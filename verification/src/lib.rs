//! Transports between an executor and an executee that run apart from each other.

pub mod bytes;
pub mod cbor;
pub mod channel;
pub mod execution;
pub mod ipc;
pub mod time;
