//! A minimal SOCKS5 proxy core: the wire codec and the handshake state
//! machine, free of I/O. A driver performs the actions that a session asks
//! for and reports back what happened.

pub mod error;
pub mod codec;
pub mod handshake;
pub mod config;
pub mod server;
