//! Codec for OSC-style typed argument values.
//!
//! One argument value (32-bit integer, 32-bit float, 64-bit float, UTF-8
//! string, boolean true/false, nil) is identified by a single-character type
//! tag and carried on the wire in big-endian form, strings padded with zero
//! bytes to a 4-byte boundary.  `argument` holds the value type with its
//! encode and decode operations, `wire` the mathematical description of the
//! wire format that their contracts are stated over, `endian` the big-endian
//! byte conversions, `utf8check` a verified UTF-8 validity check, and `laws`
//! the proved facts that tie encoding and decoding together.

pub mod argument;
pub mod endian;
pub mod laws;
pub mod utf8check;
pub mod wire;
