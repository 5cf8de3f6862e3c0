//! The desktop client's model: transfer and request labels, text formatting,
//! progress parsing, and the commands it builds.

pub mod activity;
pub mod board;
pub mod client;
pub mod events;
pub mod format;
pub mod model;
pub mod progress;
pub mod sync;
pub mod update;
pub mod view;
