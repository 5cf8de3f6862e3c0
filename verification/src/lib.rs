//! ETLE: encrypted, chunked file sharing between peers on a local network.
//!
//! The library holds the data formats and the decision logic: keys and
//! authenticated encryption of chunks, share descriptors and their ids,
//! chunking and reassembly, the configuration file format, discovery
//! targets, and IPC framing.

pub mod build_info;
pub mod cli;
pub mod bytes;
pub mod config;
pub mod crypto;
pub mod discovery;
pub mod file;
pub mod gui;
pub mod ipc;
pub mod net;
pub mod net6;
pub mod path;
pub mod text;
