//! Keys, hashes, authenticated encryption and key agreement.

pub mod aead;
pub mod error;
pub mod hash;
pub mod key_exchange;
pub mod key_wrap;
