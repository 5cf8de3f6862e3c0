//! UDP peer discovery for local shares: the query targets, the options, and
//! the decisions of the discovery server and client.

pub mod network;
pub mod options;
pub mod wire;
