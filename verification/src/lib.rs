//! A format-aware codec for a 32-byte content identifier.

pub mod codec;
pub mod hash;
pub mod hex;
