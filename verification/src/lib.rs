//! A verified codec for a length-prefixed, type-tagged, checksummed binary
//! record format laid out like a PNG chunk: a 4-byte big-endian payload
//! length, a 4-byte type tag of ASCII letters whose letter case encodes
//! semantic flags, the payload itself, and a trailing CRC-32 checksum over
//! tag and payload.

pub mod be32;
pub mod chunk;
pub mod chunk_type;
pub mod error;
pub mod text;
