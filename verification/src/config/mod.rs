//! The configuration file: a small TOML-like `key = value` format, and the
//! defaults of every setting.

pub mod error;
pub mod load;
pub mod model;
pub mod parse;
