//! Setting up what runs on top of a transport.

pub mod with_rto;
