//! A single-file transfer protocol: a client asks for a file by name and a
//! server streams its bytes back, ended by a zero byte.
//!
//! Both peers are typestate machines: a session value carries its state in
//! its type, and every transition consumes the old value. The transport and
//! the file store stay outside; transitions take what was read and hand back
//! what is to be written.

pub mod wire;
pub mod server;
pub mod client;
pub mod laws;
