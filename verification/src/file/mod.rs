//! Chunking, encryption and description of shared files.

pub mod chunker;
pub mod descriptor;
pub mod error;
pub mod manifest;
pub mod package;
pub mod storage;
