//! Local IPC between the daemon and its clients: message types, framing,
//! socket paths and the daemon's synchronous answers.

pub mod codec;
pub mod commands;
pub mod download;
pub mod error;
pub mod message;
pub mod path;
