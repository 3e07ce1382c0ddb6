//! Inter-process communication: ports, sessions, and the engine that passes
//! a message from one process to another.

pub mod buffer;
pub mod header;
pub mod message;
pub mod port;
pub mod session;
